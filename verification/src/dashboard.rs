use vstd::prelude::*;

use crate::systemd::{BlameEntry, BootTime, JournalEntry, ServiceInfo, SystemInfo};
use crate::text::{
    chars_of, contains, contains_in, decimal, decimal_of, lowercase, pop_char, push_all, push_char,
    same_chars, to_lowercase, to_string,
};

verus! {

/// The three views of the dashboard.
#[derive(Debug, Clone, Copy, PartialEq, Eq, Structural)]
pub enum Tab {
    Services,
    Boot,
    Journal,
}

/// The tab that the Tab key moves to.
pub open spec fn next_tab(t: Tab) -> Tab {
    match t {
        Tab::Services => Tab::Boot,
        Tab::Boot => Tab::Journal,
        Tab::Journal => Tab::Services,
    }
}

/// A key as the dashboard tells keys apart.
#[derive(Debug, Clone, Copy, PartialEq, Eq, Structural)]
pub enum KeyCode {
    Char(char),
    Esc,
    Enter,
    Backspace,
    Tab,
    Up,
    Down,
    Other,
}

/// A key press: the key, and whether Control was held.
#[derive(Debug, Clone, Copy, PartialEq, Eq, Structural)]
pub struct Key {
    pub code: KeyCode,
    pub ctrl: bool,
}

/// What the event loop does after a key press.
#[derive(Debug, Clone, Copy, PartialEq, Eq, Structural)]
pub enum Action {
    /// Draw again and wait for the next event.
    Continue,
    /// Leave the dashboard.
    Quit,
    /// Reload the data of the current tab.
    Refresh,
}

/// How long the dashboard waits between reloads, in milliseconds.
pub const REFRESH_INTERVAL_MS: u128 = 5000;

/// Whether the data is due for a reload, `elapsed_ms` after the last one.
pub fn refresh_due(elapsed_ms: u128) -> (b: bool)
    ensures
        b == (elapsed_ms >= REFRESH_INTERVAL_MS),
{
    elapsed_ms >= REFRESH_INTERVAL_MS
}

/// The dashboard: the data shown and where the user is.
pub struct App {
    pub tab: Tab,
    pub services: Vec<ServiceInfo>,
    pub boot_time: Option<BootTime>,
    pub blame: Vec<BlameEntry>,
    pub journal: Vec<JournalEntry>,
    pub sys_info: SystemInfo,
    pub scroll: usize,
    pub filter: String,
    pub filter_active: bool,
}

/// Where the user is: tab, scroll position, filter text and whether it is being typed.
pub struct UiView {
    pub tab: Tab,
    pub scroll: nat,
    pub filter: Seq<char>,
    pub filter_active: bool,
}

/// Whether a unit passes a filter that is already in lower case: its name or its
/// description, in lower case, contains it.
pub open spec fn passes(s: ServiceInfo, lower_filter: Seq<char>) -> bool {
    contains(lowercase(s.name@), lower_filter) || contains(lowercase(s.description@), lower_filter)
}

/// The test that a filter, already in lower case, puts to each unit.
pub open spec fn passes_filter(lower_filter: Seq<char>) -> spec_fn(ServiceInfo) -> bool {
    |s: ServiceInfo| passes(s, lower_filter)
}

/// The units shown under a filter: all of them for an empty filter, else those whose
/// name or description contains the filter, case being ignored.
pub open spec fn shown_services(services: Seq<ServiceInfo>, filter: Seq<char>) -> Seq<ServiceInfo> {
    if filter.len() == 0 {
        services
    } else {
        services.filter(passes_filter(lowercase(filter)))
    }
}

/// `n - 1`, or 0 for 0.
pub open spec fn last_index(n: nat) -> nat {
    if n > 0 {
        (n - 1) as nat
    } else {
        0
    }
}

/// The farthest the list of the tab in `ui` can scroll, with the data of `app`.
pub open spec fn max_scroll_for(app: App, ui: UiView) -> nat {
    match ui.tab {
        Tab::Services => last_index(shown_services(app.services@, ui.filter).len()),
        Tab::Boot => last_index(app.blame@.len()),
        Tab::Journal => last_index(app.journal@.len()),
    }
}

/// Where the user of `app` is.
pub open spec fn ui_of(app: App) -> UiView {
    UiView {
        tab: app.tab,
        scroll: app.scroll as nat,
        filter: app.filter@,
        filter_active: app.filter_active,
    }
}

/// The farthest the current list can scroll.
pub open spec fn max_scroll_of(app: App) -> nat {
    max_scroll_for(app, ui_of(app))
}

/// What pressing `key` asks for, before the scroll position is brought back into the
/// list: where the user goes and what the loop does next. While the filter is typed,
/// keys edit it (Esc drops it, Enter keeps it) and nothing else happens.
/// Otherwise `q` or Ctrl-C quit, `1` `2` `3` and Tab switch tabs and go to the top,
/// `j`/Down and `k`/Up move one line within the list, `G` and `g` jump to its end and
/// its top, `r` asks for a reload, and `/` starts a new filter.
pub open spec fn key_outcome(app: App, key: Key) -> (UiView, Action) {
    let ui = ui_of(app);
    if app.filter_active {
        let keep = Action::Continue;
        match key.code {
            KeyCode::Esc => (UiView { tab: ui.tab, scroll: ui.scroll, filter: seq![], filter_active: false }, keep),
            KeyCode::Enter => (UiView { tab: ui.tab, scroll: ui.scroll, filter: ui.filter, filter_active: false }, keep),
            KeyCode::Char(c) => (UiView { tab: ui.tab, scroll: ui.scroll, filter: ui.filter.push(c), filter_active: true }, keep),
            KeyCode::Backspace => (UiView {
                tab: ui.tab,
                scroll: ui.scroll,
                filter: if ui.filter.len() > 0 { ui.filter.drop_last() } else { ui.filter },
                filter_active: true,
            }, keep),
            _ => (ui, keep),
        }
    } else {
        let keep = Action::Continue;
        let top = |t: Tab| UiView { tab: t, scroll: 0, filter: ui.filter, filter_active: false };
        let at = |n: nat| UiView { tab: ui.tab, scroll: n, filter: ui.filter, filter_active: false };
        match key.code {
            KeyCode::Char(c) => if c == 'q' || (c == 'c' && key.ctrl) {
                (ui, Action::Quit)
            } else if c == '1' {
                (top(Tab::Services), keep)
            } else if c == '2' {
                (top(Tab::Boot), keep)
            } else if c == '3' {
                (top(Tab::Journal), keep)
            } else if c == 'j' {
                (at(if ui.scroll < max_scroll_of(app) { ui.scroll + 1 } else { ui.scroll }), keep)
            } else if c == 'k' {
                (at(last_index(ui.scroll)), keep)
            } else if c == 'G' {
                (at(max_scroll_of(app)), keep)
            } else if c == 'g' {
                (at(0), keep)
            } else if c == 'r' {
                (ui, Action::Refresh)
            } else if c == '/' {
                (UiView { tab: ui.tab, scroll: ui.scroll, filter: seq![], filter_active: true }, keep)
            } else {
                (ui, keep)
            },
            KeyCode::Tab => (top(next_tab(ui.tab)), keep),
            KeyCode::Down => (at(if ui.scroll < max_scroll_of(app) { ui.scroll + 1 } else { ui.scroll }), keep),
            KeyCode::Up => (at(last_index(ui.scroll)), keep),
            _ => (ui, keep),
        }
    }
}

/// `ui` with its scroll position moved back to the last row of its list where it lies
/// past it (as after a reload or a filter that shows fewer rows).
pub open spec fn within_list(app: App, ui: UiView) -> UiView {
    UiView {
        tab: ui.tab,
        scroll: if ui.scroll <= max_scroll_for(app, ui) {
            ui.scroll
        } else {
            max_scroll_for(app, ui)
        },
        filter: ui.filter,
        filter_active: ui.filter_active,
    }
}

/// Where the user is after pressing `key`, and what the loop does next: what the key asks
/// for ([`key_outcome`]), with the scroll position kept within the list.
pub open spec fn after_key(app: App, key: Key) -> (UiView, Action) {
    (within_list(app, key_outcome(app, key).0), key_outcome(app, key).1)
}

impl App {
    /// A dashboard on the Services tab, at the top, with no filter.
    pub fn new(
        services: Vec<ServiceInfo>,
        boot_time: Option<BootTime>,
        blame: Vec<BlameEntry>,
        journal: Vec<JournalEntry>,
        sys_info: SystemInfo,
    ) -> (app: App)
        ensures
            app.tab == Tab::Services,
            app.scroll == 0,
            app.filter@ == Seq::<char>::empty(),
            !app.filter_active,
            app.services == services,
            app.boot_time == boot_time,
            app.blame == blame,
            app.journal == journal,
            app.sys_info == sys_info,
    {
        App {
            tab: Tab::Services,
            services,
            boot_time,
            blame,
            journal,
            sys_info,
            scroll: 0,
            filter: String::new(),
            filter_active: false,
        }
    }

    /// The units shown under the current filter, in order.
    pub fn filtered_services(&self) -> (r: Vec<&ServiceInfo>)
        ensures
            r@.unref() == shown_services(self.services@, self.filter@),
    {
        let mut r: Vec<&ServiceInfo> = Vec::new();
        if self.filter.as_str().is_empty() {
            let mut i: usize = 0;
            while i < self.services.len()
                invariant
                    i <= self.services.len(),
                    r@.unref() == self.services@.take(i as int),
                decreases self.services.len() - i,
            {
                let ghost before = r@;
                r.push(&self.services[i]);
                assert(r@.unref() =~= before.unref().push(self.services@[i as int]));
                i = i + 1;
                assert(r@.unref() =~= self.services@.take(i as int));
            }
            assert(self.services@.take(i as int) =~= self.services@);
            return r;
        }
        let lower = chars_of(to_lowercase(self.filter.as_str()).as_str());
        let ghost keep = passes_filter(lowercase(self.filter@));
        let mut i: usize = 0;
        while i < self.services.len()
            invariant
                i <= self.services.len(),
                lower@ == lowercase(self.filter@),
                keep == passes_filter(lowercase(self.filter@)),
                r@.unref() == self.services@.take(i as int).filter(keep),
            decreases self.services.len() - i,
        {
            let s = &self.services[i];
            assert(self.services@.take(i + 1).drop_last() =~= self.services@.take(i as int));
            let name = chars_of(to_lowercase(s.name.as_str()).as_str());
            let hit = contains_in(&name, &lower) || contains_in(
                &chars_of(to_lowercase(s.description.as_str()).as_str()),
                &lower,
            );
            let ghost before = r@;
            assert(hit == keep(self.services@[i as int]));
            proof {
                reveal(Seq::filter);
                assert(self.services@.take(i + 1).last() == self.services@[i as int]);
            }
            if hit {
                r.push(s);
                assert(r@.unref() =~= before.unref().push(*s));
            }
            i = i + 1;
        }
        assert(self.services@.take(i as int) =~= self.services@);
        r
    }

    /// Reloads the data of the current tab only: the units on the Services tab, the boot
    /// report and blame list on the Boot tab, the journal on the Journal tab. The loaders
    /// of the other tabs are not called. A scroll position past the end of the reloaded
    /// list moves back to its last row.
    pub fn refresh<S, B, L, J>(&mut self, load_services: S, load_boot: B, load_blame: L, load_journal: J)
        where
            S: FnOnce() -> Vec<ServiceInfo>,
            B: FnOnce() -> Option<BootTime>,
            L: FnOnce() -> Vec<BlameEntry>,
            J: FnOnce() -> Vec<JournalEntry>,
        requires
            load_services.requires(()),
            load_boot.requires(()),
            load_blame.requires(()),
            load_journal.requires(()),
        ensures
            ui_of(*final(self)) == within_list(*final(self), ui_of(*old(self))),
            final(self).scroll <= max_scroll_of(*final(self)),
            final(self).sys_info == old(self).sys_info,
            old(self).tab == Tab::Services ==> load_services.ensures((), final(self).services),
            old(self).tab != Tab::Services ==> final(self).services == old(self).services,
            old(self).tab == Tab::Boot ==> load_boot.ensures((), final(self).boot_time)
                && load_blame.ensures((), final(self).blame),
            old(self).tab != Tab::Boot ==> final(self).boot_time == old(self).boot_time
                && final(self).blame == old(self).blame,
            old(self).tab == Tab::Journal ==> load_journal.ensures((), final(self).journal),
            old(self).tab != Tab::Journal ==> final(self).journal == old(self).journal,
    {
        match self.tab {
            Tab::Services => {
                self.services = load_services();
            },
            Tab::Boot => {
                self.boot_time = load_boot();
                self.blame = load_blame();
            },
            Tab::Journal => {
                self.journal = load_journal();
            },
        }
        self.keep_scroll_in_list();
    }

    /// Moves the scroll position back to the last row of the current list where it lies
    /// past it.
    pub fn keep_scroll_in_list(&mut self)
        ensures
            ui_of(*final(self)) == within_list(*old(self), ui_of(*old(self))),
            final(self).scroll <= max_scroll_of(*final(self)),
            final(self).services == old(self).services,
            final(self).boot_time == old(self).boot_time,
            final(self).blame == old(self).blame,
            final(self).journal == old(self).journal,
            final(self).sys_info == old(self).sys_info,
    {
        let m = self.max_scroll();
        if self.scroll > m {
            self.scroll = m;
        }
    }

    /// The farthest the list of the current tab can scroll: its last index, or 0.
    pub fn max_scroll(&self) -> (m: usize)
        ensures
            m == max_scroll_of(*self),
    {
        let n = match self.tab {
            Tab::Services => self.filtered_services().len(),
            Tab::Boot => self.blame.len(),
            Tab::Journal => self.journal.len(),
        };
        if n > 0 {
            n - 1
        } else {
            0
        }
    }

    /// Takes a key press: moves, switches tab or edits the filter as [`after_key`] says,
    /// keeping the scroll position within the list, and tells the loop whether to go on,
    /// reload or quit. The data is left as it is.
    pub fn handle_key(&mut self, key: Key) -> (a: Action)
        ensures
            ui_of(*final(self)) == after_key(*old(self), key).0,
            a == after_key(*old(self), key).1,
            final(self).scroll <= max_scroll_of(*final(self)),
            final(self).services == old(self).services,
            final(self).boot_time == old(self).boot_time,
            final(self).blame == old(self).blame,
            final(self).journal == old(self).journal,
            final(self).sys_info == old(self).sys_info,
    {
        let a = self.follow_key(key);
        self.keep_scroll_in_list();
        a
    }

    fn follow_key(&mut self, key: Key) -> (a: Action)
        ensures
            ui_of(*final(self)) == key_outcome(*old(self), key).0,
            a == key_outcome(*old(self), key).1,
            final(self).services == old(self).services,
            final(self).boot_time == old(self).boot_time,
            final(self).blame == old(self).blame,
            final(self).journal == old(self).journal,
            final(self).sys_info == old(self).sys_info,
    {
        if self.filter_active {
            match key.code {
                KeyCode::Esc => {
                    self.filter_active = false;
                    self.filter = String::new();
                },
                KeyCode::Enter => {
                    self.filter_active = false;
                },
                KeyCode::Char(c) => {
                    push_char(&mut self.filter, c);
                },
                KeyCode::Backspace => {
                    pop_char(&mut self.filter);
                },
                _ => {},
            }
            return Action::Continue;
        }
        match key.code {
            KeyCode::Char(c) => {
                if c == 'q' || (c == 'c' && key.ctrl) {
                    return Action::Quit;
                } else if c == '1' {
                    self.tab = Tab::Services;
                    self.scroll = 0;
                } else if c == '2' {
                    self.tab = Tab::Boot;
                    self.scroll = 0;
                } else if c == '3' {
                    self.tab = Tab::Journal;
                    self.scroll = 0;
                } else if c == 'j' {
                    if self.scroll < self.max_scroll() {
                        self.scroll = self.scroll + 1;
                    }
                } else if c == 'k' {
                    self.scroll = if self.scroll > 0 { self.scroll - 1 } else { 0 };
                } else if c == 'G' {
                    self.scroll = self.max_scroll();
                } else if c == 'g' {
                    self.scroll = 0;
                } else if c == 'r' {
                    return Action::Refresh;
                } else if c == '/' {
                    self.filter_active = true;
                    self.filter = String::new();
                }
            },
            KeyCode::Tab => {
                self.tab = match self.tab {
                    Tab::Services => Tab::Boot,
                    Tab::Boot => Tab::Journal,
                    Tab::Journal => Tab::Services,
                };
                self.scroll = 0;
            },
            KeyCode::Down => {
                if self.scroll < self.max_scroll() {
                    self.scroll = self.scroll + 1;
                }
            },
            KeyCode::Up => {
                self.scroll = if self.scroll > 0 { self.scroll - 1 } else { 0 };
            },
            _ => {},
        }
        Action::Continue
    }
}


/// The colours the dashboard draws with.
#[derive(Debug, Clone, Copy, PartialEq, Eq, Structural)]
pub enum Shade {
    Green,
    DimGreen,
    Red,
    Yellow,
}

/// The colour of a unit's status word: green for running, listening and mounted units,
/// red for failed ones, yellow for units changing state, dim green otherwise.
pub open spec fn state_shade(state: Seq<char>) -> Shade {
    if state == "running"@ || state == "listening"@ || state == "mounted"@ {
        Shade::Green
    } else if state == "exited"@ || state == "inactive"@ || state == "waiting"@ {
        Shade::DimGreen
    } else if state == "failed"@ {
        Shade::Red
    } else if state == "activating"@ || state == "deactivating"@ {
        Shade::Yellow
    } else {
        Shade::DimGreen
    }
}

fn is_word(v: &Vec<char>, w: &str) -> (b: bool)
    ensures
        b == (v@ == w@),
{
    same_chars(v, &chars_of(w))
}

/// The colour of a unit's status word.
pub fn status_color(state: &str) -> (c: Shade)
    ensures
        c == state_shade(state@),
{
    let v = chars_of(state);
    if is_word(&v, "running") || is_word(&v, "listening") || is_word(&v, "mounted") {
        Shade::Green
    } else if is_word(&v, "exited") || is_word(&v, "inactive") || is_word(&v, "waiting") {
        Shade::DimGreen
    } else if is_word(&v, "failed") {
        Shade::Red
    } else if is_word(&v, "activating") || is_word(&v, "deactivating") {
        Shade::Yellow
    } else {
        Shade::DimGreen
    }
}

/// The colour of a start-up time: red above 5 s, yellow above 1 s, green otherwise.
pub open spec fn time_shade(time_ms: u64) -> Shade {
    if time_ms > 5000 {
        Shade::Red
    } else if time_ms > 1000 {
        Shade::Yellow
    } else {
        Shade::Green
    }
}

/// The colour of a start-up time in the blame list.
pub fn blame_color(time_ms: u64) -> (c: Shade)
    ensures
        c == time_shade(time_ms),
{
    if time_ms > 5000 {
        Shade::Red
    } else if time_ms > 1000 {
        Shade::Yellow
    } else {
        Shade::Green
    }
}

/// The colour of a journal message: red for priorities 0 to 3 (errors and worse),
/// yellow for warnings, green for notices and information, dim green for debugging.
pub open spec fn priority_shade(priority: u8) -> Shade {
    if priority <= 3 {
        Shade::Red
    } else if priority == 4 {
        Shade::Yellow
    } else if priority <= 6 {
        Shade::Green
    } else {
        Shade::DimGreen
    }
}

/// The colour of a journal message of the given priority.
pub fn priority_color(priority: u8) -> (c: Shade)
    ensures
        c == priority_shade(priority),
{
    if priority <= 3 {
        Shade::Red
    } else if priority == 4 {
        Shade::Yellow
    } else if priority <= 6 {
        Shade::Green
    } else {
        Shade::DimGreen
    }
}

/// How many rows of a table fit in an area of the given height: three go to the border
/// and the header.
pub open spec fn rows_in(height: u16) -> nat {
    if height > 3 {
        (height - 3) as nat
    } else {
        0
    }
}

/// The rows of a list of `len` items shown from row `scroll` in an area of the given
/// height: from `scroll` up to, not including, the end returned.
pub fn visible_window(scroll: usize, height: u16, len: usize) -> (r: (usize, usize))
    requires
        scroll + rows_in(height) <= usize::MAX,
    ensures
        r.0 == scroll,
        r.1 == if scroll + rows_in(height) < len { scroll + rows_in(height) } else { len as int },
{
    let visible: usize = if height > 3 {
        (height - 3) as usize
    } else {
        0
    };
    let end = if scroll + visible < len {
        scroll + visible
    } else {
        len
    };
    (scroll, end)
}

/// `prefix`, then `n` in decimal, then `suffix`.
fn numbered(prefix: &str, n: u64, suffix: &str) -> (r: Vec<char>)
    ensures
        r@ == prefix@ + decimal(n as nat) + suffix@,
{
    let mut v = chars_of(prefix);
    push_all(&mut v, &decimal_of(n));
    push_all(&mut v, &chars_of(suffix));
    v
}

/// The header line: `" host │ kernel release │ uptime │ systemd version "`.
pub fn header_title(info: &SystemInfo) -> (r: String)
    ensures
        r@ == " "@ + info.hostname@ + " │ kernel "@ + info.kernel@ + " │ "@ + info.uptime@
            + " │ "@ + info.systemd_version@ + " "@,
{
    let mut v = chars_of(" ");
    push_all(&mut v, &chars_of(info.hostname.as_str()));
    push_all(&mut v, &chars_of(" │ kernel "));
    push_all(&mut v, &chars_of(info.kernel.as_str()));
    push_all(&mut v, &chars_of(" │ "));
    push_all(&mut v, &chars_of(info.uptime.as_str()));
    push_all(&mut v, &chars_of(" │ "));
    push_all(&mut v, &chars_of(info.systemd_version.as_str()));
    push_all(&mut v, &chars_of(" "));
    to_string(&v)
}

/// The title of the Services table: `"Services (shown/total)"`.
pub fn services_title(shown: usize, total: usize) -> (r: String)
    ensures
        r@ == "Services ("@ + decimal(shown as nat) + "/"@ + decimal(total as nat) + ")"@,
{
    let mut v = numbered("Services (", shown as u64, "/");
    push_all(&mut v, &decimal_of(total as u64));
    push_all(&mut v, &chars_of(")"));
    to_string(&v)
}

/// The title of the blame table: `"Blame (top n)"`.
pub fn blame_title(n: usize) -> (r: String)
    ensures
        r@ == "Blame (top "@ + decimal(n as nat) + ")"@,
{
    to_string(&numbered("Blame (top ", n as u64, ")"))
}

/// The title of the journal table: `"Journal (n entries)"`.
pub fn journal_title(n: usize) -> (r: String)
    ensures
        r@ == "Journal ("@ + decimal(n as nat) + " entries)"@,
{
    to_string(&numbered("Journal (", n as u64, " entries)"))
}


/// A run of text drawn in one colour, bold or not.
pub struct Piece {
    pub text: String,
    pub shade: Shade,
    pub bold: bool,
}

/// The characters, colour and weight of a [`Piece`].
pub struct PieceView {
    pub text: Seq<char>,
    pub shade: Shade,
    pub bold: bool,
}

impl View for Piece {
    type V = PieceView;

    open spec fn view(&self) -> PieceView {
        PieceView { text: self.text@, shade: self.shade, bold: self.bold }
    }
}

/// The views of a line of pieces.
pub open spec fn piece_views(v: Seq<Piece>) -> Seq<PieceView> {
    v.map_values(|p: Piece| p@)
}

/// The views of several lines of pieces.
pub open spec fn line_views(v: Seq<Vec<Piece>>) -> Seq<Seq<PieceView>> {
    v.map_values(|l: Vec<Piece>| piece_views(l@))
}

/// A piece of the given text, colour and weight.
pub open spec fn pv(text: Seq<char>, shade: Shade, bold: bool) -> PieceView {
    PieceView { text, shade, bold }
}

fn piece(text: &str, shade: Shade, bold: bool) -> (p: Piece)
    ensures
        p@ == pv(text@, shade, bold),
{
    Piece { text: crate::text::owned(text), shade, bold }
}

/// The tab strip: each tab's label, and whether it is the current one.
pub fn tab_strip(current: Tab) -> (r: [(&'static str, bool); 3])
    ensures
        r[0].0@ == " 1:Services "@ && r[0].1 == (current == Tab::Services),
        r[1].0@ == " 2:Boot "@ && r[1].1 == (current == Tab::Boot),
        r[2].0@ == " 3:Journal "@ && r[2].1 == (current == Tab::Journal),
{
    [
        (" 1:Services ", current == Tab::Services),
        (" 2:Boot ", current == Tab::Boot),
        (" 3:Journal ", current == Tab::Journal),
    ]
}

/// The lines of the boot summary: the total, then kernel and userspace times, then the
/// firmware time where there is one; a single red line where there is no boot report.
pub open spec fn boot_summary_lines(boot: Option<BootTime>) -> Seq<Seq<PieceView>> {
    match boot {
        Some(bt) => {
            let head = seq![
                seq![pv("  Total: "@, Shade::DimGreen, false), pv(bt.total@, Shade::Green, true)],
                seq![
                    pv("  Kernel: "@, Shade::DimGreen, false),
                    pv(bt.kernel@, Shade::Green, false),
                    pv("  Userspace: "@, Shade::DimGreen, false),
                    pv(bt.userspace@, Shade::Green, false),
                ],
            ];
            match bt.firmware {
                Some(fw) => head.push(
                    seq![pv("  Firmware: "@, Shade::DimGreen, false), pv(fw@, Shade::Green, false)],
                ),
                None => head,
            }
        },
        None => seq![seq![pv("  (no boot data)"@, Shade::Red, false)]],
    }
}

/// The lines of the boot summary box.
pub fn boot_summary(boot: &Option<BootTime>) -> (r: Vec<Vec<Piece>>)
    ensures
        line_views(r@) == boot_summary_lines(*boot),
{
    let mut r: Vec<Vec<Piece>> = Vec::new();
    match boot {
        Some(bt) => {
            let mut total: Vec<Piece> = Vec::new();
            total.push(piece("  Total: ", Shade::DimGreen, false));
            total.push(Piece { text: bt.total.clone(), shade: Shade::Green, bold: true });
            let mut times: Vec<Piece> = Vec::new();
            times.push(piece("  Kernel: ", Shade::DimGreen, false));
            times.push(Piece { text: bt.kernel.clone(), shade: Shade::Green, bold: false });
            times.push(piece("  Userspace: ", Shade::DimGreen, false));
            times.push(Piece { text: bt.userspace.clone(), shade: Shade::Green, bold: false });
            assert(piece_views(total@) =~= boot_summary_lines(*boot)[0]);
            assert(piece_views(times@) =~= boot_summary_lines(*boot)[1]);
            r.push(total);
            r.push(times);
            match &bt.firmware {
                Some(fw) => {
                    let mut line: Vec<Piece> = Vec::new();
                    line.push(piece("  Firmware: ", Shade::DimGreen, false));
                    line.push(Piece { text: fw.clone(), shade: Shade::Green, bold: false });
                    assert(piece_views(line@) =~= boot_summary_lines(*boot)[2]);
                    r.push(line);
                },
                None => {},
            }
        },
        None => {
            let mut line: Vec<Piece> = Vec::new();
            line.push(piece("  (no boot data)", Shade::Red, false));
            assert(piece_views(line@) =~= boot_summary_lines(*boot)[0]);
            r.push(line);
        },
    }
    assert(line_views(r@) =~= boot_summary_lines(*boot));
    r
}

/// The footer: the filter being typed, behind `/` and before a block cursor; otherwise
/// the keys and what they do.
pub open spec fn footer_pieces(filter: Seq<char>, filter_active: bool) -> Seq<PieceView> {
    if filter_active {
        seq![pv(" /"@, Shade::Green, true), pv(filter, Shade::Green, false), pv("█"@, Shade::Green, false)]
    } else {
        seq![
            pv(" q"@, Shade::Green, true),
            pv(" quit  "@, Shade::DimGreen, false),
            pv("Tab"@, Shade::Green, true),
            pv(" switch  "@, Shade::DimGreen, false),
            pv("j/k"@, Shade::Green, true),
            pv(" scroll  "@, Shade::DimGreen, false),
            pv("r"@, Shade::Green, true),
            pv(" refresh  "@, Shade::DimGreen, false),
            pv("/"@, Shade::Green, true),
            pv(" filter"@, Shade::DimGreen, false),
        ]
    }
}

/// The footer line of the dashboard.
pub fn footer(app: &App) -> (r: Vec<Piece>)
    ensures
        piece_views(r@) == footer_pieces(app.filter@, app.filter_active),
{
    let mut r: Vec<Piece> = Vec::new();
    if app.filter_active {
        r.push(piece(" /", Shade::Green, true));
        r.push(Piece { text: app.filter.clone(), shade: Shade::Green, bold: false });
        r.push(piece("█", Shade::Green, false));
    } else {
        r.push(piece(" q", Shade::Green, true));
        r.push(piece(" quit  ", Shade::DimGreen, false));
        r.push(piece("Tab", Shade::Green, true));
        r.push(piece(" switch  ", Shade::DimGreen, false));
        r.push(piece("j/k", Shade::Green, true));
        r.push(piece(" scroll  ", Shade::DimGreen, false));
        r.push(piece("r", Shade::Green, true));
        r.push(piece(" refresh  ", Shade::DimGreen, false));
        r.push(piece("/", Shade::Green, true));
        r.push(piece(" filter", Shade::DimGreen, false));
    }
    assert(piece_views(r@) =~= footer_pieces(app.filter@, app.filter_active));
    r
}

} // verus!
