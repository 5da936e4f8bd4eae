use vstd::prelude::*;

use crate::dashboard::{
    max_scroll_for, UiView, boot_summary_lines, footer_pieces, priority_shade, state_shade, time_shade, Shade, after_key, max_scroll_of, passes_filter, shown_services, ui_of, Action, App, Key, KeyCode, Tab,
};
use crate::laws::keys_outside_the_prompt_need_no_correction;
use crate::systemd::{
    action_outcome, duration_parts, first_line_or_unknown, journal_arg_list, trimmed_or_unknown,
    unit_journal_arg_list, after_equals, boot_scan, parenthesized, status_text, journal_line, BootTime, BootView, blame_rows, blame_words, journal_in, priority_of, service_of_line, services_in, ServiceInfo,
};
use crate::text::{decimal, find, lines, lines_from, contains, first_from, join, lowercase, splitn, trim, words, Class};

verus! {

/// Under a non-empty filter, a unit of the list is shown exactly when its name or its
/// description, both in lower case, contains the filter in lower case; and every unit
/// shown is one whose name or description does.
pub proof fn filter_shows_units_by_name_or_description(
    services: Seq<ServiceInfo>,
    f: Seq<char>,
    i: int,
)
    requires
        f.len() > 0,
        0 <= i < services.len(),
    ensures
        shown_services(services, f).contains(services[i]) <==> (contains(
            lowercase(services[i].name@),
            lowercase(f),
        ) || contains(lowercase(services[i].description@), lowercase(f))),
        forall|j: int|
            0 <= j < shown_services(services, f).len() ==> {
                let s = #[trigger] shown_services(services, f)[j];
                contains(lowercase(s.name@), lowercase(f)) || contains(
                    lowercase(s.description@),
                    lowercase(f),
                )
            },
{
    let keep = passes_filter(lowercase(f));
    let shown = services.filter(keep);
    assert forall|j: int| 0 <= j < shown.len() implies keep(#[trigger] shown[j]) by {
        services.lemma_filter_pred(keep, j);
    }
    if keep(services[i]) {
        services.lemma_filter_contains(keep, i);
    }
    if shown.contains(services[i]) {
        let j = choose|j: int| 0 <= j < shown.len() && shown[j] == services[i];
        assert(keep(shown[j]));
    }
}

/// Outside the filter prompt, the Down arrow does what `j` does, and the Up arrow what
/// `k` does, Control held or not.
pub proof fn arrows_move_like_j_and_k(app: App, ctrl: bool)
    requires
        !app.filter_active,
    ensures
        after_key(app, Key { code: KeyCode::Down, ctrl }) == after_key(
            app,
            Key { code: KeyCode::Char('j'), ctrl: false },
        ),
        after_key(app, Key { code: KeyCode::Up, ctrl }) == after_key(
            app,
            Key { code: KeyCode::Char('k'), ctrl: false },
        ),
{
}

/// Outside the filter prompt, with the position within its list, `j` moves one row down
/// unless it is on the last row, `k` one row up unless it is on the first, `g` goes to the
/// first row and `G` to the last; none of them changes tab or filter or asks for anything.
pub proof fn scroll_keys_move_by_rows(app: App, ctrl: bool)
    requires
        !app.filter_active,
        app.scroll <= max_scroll_of(app),
    ensures
        ({
            let (ui, a) = after_key(app, Key { code: KeyCode::Char('j'), ctrl });
            &&& ui.scroll == if app.scroll < max_scroll_of(app) { app.scroll + 1 } else { app.scroll as int }
            &&& ui.tab == app.tab && ui.filter == app.filter@ && !ui.filter_active
            &&& a == Action::Continue
        }),
        ({
            let (ui, a) = after_key(app, Key { code: KeyCode::Char('k'), ctrl });
            &&& ui.scroll == if app.scroll > 0 { app.scroll - 1 } else { 0 }
            &&& ui.tab == app.tab && ui.filter == app.filter@ && !ui.filter_active
            &&& a == Action::Continue
        }),
        ({
            let (ui, a) = after_key(app, Key { code: KeyCode::Char('g'), ctrl });
            &&& ui.scroll == 0 && ui.tab == app.tab && a == Action::Continue
        }),
        ({
            let (ui, a) = after_key(app, Key { code: KeyCode::Char('G'), ctrl });
            &&& ui.scroll == max_scroll_of(app) && ui.tab == app.tab && a == Action::Continue
        }),
{
    keys_outside_the_prompt_need_no_correction(app, Key { code: KeyCode::Char('j'), ctrl });
    keys_outside_the_prompt_need_no_correction(app, Key { code: KeyCode::Char('k'), ctrl });
    keys_outside_the_prompt_need_no_correction(app, Key { code: KeyCode::Char('g'), ctrl });
    keys_outside_the_prompt_need_no_correction(app, Key { code: KeyCode::Char('G'), ctrl });
}

/// Outside the filter prompt, `1`, `2` and `3` open the Services, Boot and Journal tabs
/// and Tab the next one (Services, Boot, Journal, then Services again), each at the top.
pub proof fn tab_keys_open_tabs_at_the_top(app: App, ctrl: bool)
    requires
        !app.filter_active,
    ensures
        after_key(app, Key { code: KeyCode::Char('1'), ctrl }).0.tab == Tab::Services,
        after_key(app, Key { code: KeyCode::Char('2'), ctrl }).0.tab == Tab::Boot,
        after_key(app, Key { code: KeyCode::Char('3'), ctrl }).0.tab == Tab::Journal,
        app.tab == Tab::Services ==> after_key(app, Key { code: KeyCode::Tab, ctrl }).0.tab == Tab::Boot,
        app.tab == Tab::Boot ==> after_key(app, Key { code: KeyCode::Tab, ctrl }).0.tab == Tab::Journal,
        app.tab == Tab::Journal ==> after_key(app, Key { code: KeyCode::Tab, ctrl }).0.tab == Tab::Services,
        after_key(app, Key { code: KeyCode::Char('1'), ctrl }).0.scroll == 0,
        after_key(app, Key { code: KeyCode::Char('2'), ctrl }).0.scroll == 0,
        after_key(app, Key { code: KeyCode::Char('3'), ctrl }).0.scroll == 0,
        after_key(app, Key { code: KeyCode::Tab, ctrl }).0.scroll == 0,
        after_key(app, Key { code: KeyCode::Tab, ctrl }).1 == Action::Continue,
{
}

/// Outside the filter prompt, `q` and Control-C quit, `r` asks for a reload, and `/`
/// opens an empty filter prompt; quitting and reloading leave the position as it is.
pub proof fn command_keys(app: App, ctrl: bool)
    requires
        !app.filter_active,
        app.scroll <= max_scroll_of(app),
    ensures
        after_key(app, Key { code: KeyCode::Char('q'), ctrl }).1 == Action::Quit,
        after_key(app, Key { code: KeyCode::Char('c'), ctrl: true }).1 == Action::Quit,
        after_key(app, Key { code: KeyCode::Char('c'), ctrl: false }).1 == Action::Continue,
        after_key(app, Key { code: KeyCode::Char('q'), ctrl }).0 == ui_of(app),
        after_key(app, Key { code: KeyCode::Char('r'), ctrl }).1 == Action::Refresh,
        after_key(app, Key { code: KeyCode::Char('r'), ctrl }).0 == ui_of(app),
        after_key(app, Key { code: KeyCode::Char('/'), ctrl }).0.filter_active,
        after_key(app, Key { code: KeyCode::Char('/'), ctrl }).0.filter == Seq::<char>::empty(),
        after_key(app, Key { code: KeyCode::Char('/'), ctrl }).1 == Action::Continue,
{
    keys_outside_the_prompt_need_no_correction(app, Key { code: KeyCode::Char('q'), ctrl });
    keys_outside_the_prompt_need_no_correction(app, Key { code: KeyCode::Char('r'), ctrl });
}

/// At the filter prompt a character is added at the end of the filter, Backspace takes
/// the last one away, Enter closes the prompt keeping the filter and Esc closes it
/// dropping the filter; the tab stays and nothing else is asked for.
pub proof fn prompt_keys_edit_the_filter(app: App, c: char, ctrl: bool)
    requires
        app.filter_active,
    ensures
        after_key(app, Key { code: KeyCode::Char(c), ctrl }).0.filter == app.filter@.push(c),
        after_key(app, Key { code: KeyCode::Char(c), ctrl }).0.filter_active,
        app.filter@.len() > 0 ==> after_key(app, Key { code: KeyCode::Backspace, ctrl }).0.filter
            == app.filter@.drop_last(),
        app.filter@.len() == 0 ==> after_key(app, Key { code: KeyCode::Backspace, ctrl }).0.filter
            == app.filter@,
        after_key(app, Key { code: KeyCode::Backspace, ctrl }).0.filter_active,
        after_key(app, Key { code: KeyCode::Enter, ctrl }).0.filter == app.filter@,
        !after_key(app, Key { code: KeyCode::Enter, ctrl }).0.filter_active,
        after_key(app, Key { code: KeyCode::Esc, ctrl }).0.filter == Seq::<char>::empty(),
        !after_key(app, Key { code: KeyCode::Esc, ctrl }).0.filter_active,
        after_key(app, Key { code: KeyCode::Char(c), ctrl }).0.tab == app.tab,
        after_key(app, Key { code: KeyCode::Char(c), ctrl }).1 == Action::Continue,
{
}


/// The keyword that decides a message's priority, in order of severity: `emerg` or
/// `panic` give 0, `alert` 1, `crit` 2, `error` or `fail` 3, `warn` 4, `notice` 5, and
/// `debug` 7; a message with none of them is information, 6.
pub proof fn priority_follows_keywords(lower: Seq<char>)
    ensures
        contains(lower, "emerg"@) || contains(lower, "panic"@) ==> priority_of(lower) == 0,
        contains(lower, "alert"@) ==> priority_of(lower) <= 1,
        contains(lower, "crit"@) ==> priority_of(lower) <= 2,
        contains(lower, "error"@) || contains(lower, "fail"@) ==> priority_of(lower) <= 3,
        contains(lower, "warn"@) ==> priority_of(lower) <= 4,
        contains(lower, "notice"@) ==> priority_of(lower) <= 5,
        !contains(lower, "emerg"@) && !contains(lower, "panic"@) ==> priority_of(lower) >= 1,
        !contains(lower, "alert"@) && priority_of(lower) >= 1 ==> priority_of(lower) >= 2,
        !contains(lower, "crit"@) && priority_of(lower) >= 2 ==> priority_of(lower) >= 3,
        !contains(lower, "error"@) && !contains(lower, "fail"@) && priority_of(lower) >= 3
            ==> priority_of(lower) >= 4,
        !contains(lower, "warn"@) && priority_of(lower) >= 4 ==> priority_of(lower) >= 5,
        !contains(lower, "notice"@) && priority_of(lower) >= 5 ==> priority_of(lower) >= 6,
        priority_of(lower) >= 6 ==> (priority_of(lower) == 7 <==> contains(lower, "debug"@)),
        priority_of(lower) <= 7,
{
}

/// Every line of `systemctl list-units` with at least four words is a unit, whatever its
/// states; no other line is. Its load, active and sub-states are its second, third and
/// fourth words, and its description the rest of its words joined by single spaces.
pub proof fn four_words_make_a_unit(raw: Seq<char>)
    ensures
        service_of_line(raw) is Some <==> words(trim(raw)).len() >= 4,
        service_of_line(raw) matches Some(u) ==> {
            let w = words(trim(raw));
            &&& u.load_state == w[1]
            &&& u.active_state == w[2]
            &&& u.sub_state == w[3]
            &&& u.description == if w.len() > 4 {
                join(w.subrange(4, w.len() as int), seq![' '])
            } else {
                Seq::<char>::empty()
            }
        },
{
}

/// A unit's name is the first word of its line without the `'●'` marks in front of it.
pub proof fn unit_name_is_first_word_without_bullets(raw: Seq<char>)
    ensures
        service_of_line(raw) matches Some(u) ==> {
            let w0 = words(trim(raw))[0];
            exists|k: int|
                0 <= k <= w0.len() && (forall|j: int| 0 <= j < k ==> w0[j] == '●') && u.name
                    == w0.subrange(k, w0.len() as int) && (u.name.len() == 0 || u.name[0] != '●')
        },
{
    if let Some(u) = service_of_line(raw) {
        let w = words(trim(raw));
        crate::laws::words_are_blank_free(trim(raw), 0);
        let w0 = w[0];
        assert(w0 == crate::text::words_from(trim(raw), 0)[0]);
        crate::text::lemma_first_from(w0, 0, Class::Other('●'));
        let k = first_from(w0, 0, Class::Other('●'));
        let y = w0.subrange(k, w0.len() as int);
        if y.len() > 0 {
            assert(!crate::text::is_ws(y[0]) && y[0] == w0[k]);
            assert(!crate::text::is_ws(y[y.len() - 1]) && y[y.len() - 1] == w0[w0.len() - 1]);
            assert(first_from(y, 0, Class::NonSpace) == 0);
            assert(y.subrange(0, y.len() as int) =~= y);
            assert(crate::text::after_last(y, y.len() as int, Class::NonSpace) == y.len());
            assert(trim(y) =~= y);
        } else {
            assert(trim(y) =~= y);
        }
        assert(u.name == y);
    }
}

/// The lines that have at least `n` words.
pub open spec fn with_words(n: nat) -> spec_fn(Seq<char>) -> bool {
    |l: Seq<char>| words(trim(l)).len() >= n
}

/// There is one unit for each line with at least four words, in order.
pub proof fn one_unit_per_four_word_line(ls: Seq<Seq<char>>)
    ensures
        services_in(ls).len() == ls.filter(with_words(4)).len(),
    decreases ls.len(),
{
    reveal(Seq::filter);
    if ls.len() > 0 {
        one_unit_per_four_word_line(ls.drop_last());
    }
}

/// Every line of `systemd-analyze blame` with at least two words is an entry, one per
/// such line: its unit is the last word and its time all the words before it, joined by
/// single spaces.
pub proof fn blame_entries_from_lines(ls: Seq<Seq<char>>, raw: Seq<char>)
    ensures
        blame_words(raw) is Some <==> words(trim(raw)).len() >= 2,
        blame_words(raw) matches Some((t, u)) ==> {
            let w = words(trim(raw));
            &&& u == w[w.len() - 1]
            &&& t == join(w.subrange(0, w.len() - 1), seq![' '])
        },
        blame_rows(ls).len() == ls.filter(with_words(2)).len(),
    decreases ls.len(),
{
    reveal(Seq::filter);
    if ls.len() > 0 {
        blame_entries_from_lines(ls.drop_last(), raw);
    }
}

/// The journal lines that hold an entry: once trimmed, not empty and no `"-- "` notice.
pub open spec fn entry_line() -> spec_fn(Seq<char>) -> bool {
    |l: Seq<char>|
        trim(l).len() > 0 && !(trim(l).len() >= 3 && trim(l).subrange(0, 3) == seq!['-', '-', ' '])
}

/// There is one journal entry for each line that is neither blank nor a `"-- "` notice.
pub proof fn one_entry_per_journal_line(ls: Seq<Seq<char>>)
    ensures
        journal_in(ls).len() == ls.filter(entry_line()).len(),
    decreases ls.len(),
{
    reveal(Seq::filter);
    if ls.len() > 0 {
        one_entry_per_journal_line(ls.drop_last());
    }
}


/// A journal line cut into at least five pieces at its first blanks reads as timestamp
/// (the first three pieces, set off by single spaces), host (the fourth piece), then unit
/// and message on either side of the first `':'` of the rest (the unit without its
/// `[pid]`, the message trimmed); its priority is read from the message in lower case.
/// A shorter line is a message alone, of priority 6.
pub proof fn journal_line_fields(line: Seq<char>)
    ensures
        ({
            let p = splitn(line, 6);
            let e = journal_line(line);
            let rest = if p.len() >= 6 { p[4] + seq![' '] + p[5] } else { p[4] };
            let c = first_from(rest, 0, Class::Is(':'));
            p.len() >= 5 ==> {
                &&& e.timestamp == p[0] + seq![' '] + p[1] + seq![' '] + p[2]
                &&& e.hostname == p[3]
                &&& c < rest.len() ==> e.message == trim(rest.subrange(c + 1, rest.len() as int))
                    && e.unit == rest.subrange(0, first_from(rest.subrange(0, c), 0, Class::Is('[')))
                &&& c >= rest.len() ==> e.message == rest && e.unit == Seq::<char>::empty()
                &&& e.priority == priority_of(lowercase(e.message))
            }
        }),
        splitn(line, 6).len() < 5 ==> journal_line(line).message == line
            && journal_line(line).priority == 6 && journal_line(line).hostname.len() == 0
            && journal_line(line).timestamp.len() == 0 && journal_line(line).unit.len() == 0,
{
    let p = splitn(line, 6);
    if p.len() >= 6 {
        let t = p.subrange(4, p.len() as int);
        assert(p.len() <= 6) by {
            crate::laws::splitn_has_at_most_n_pieces(line, 6);
        }
        assert(t.drop_last() =~= seq![p[4]]);
        assert(join(t.drop_last(), seq![' ']) == p[4]);
        assert(t.last() == p[5]);
        assert(join(t, seq![' ']) == p[4] + seq![' '] + p[5]);
    }
    if p.len() >= 5 {
        let rest = if p.len() >= 6 { p[4] + seq![' '] + p[5] } else { p[4] };
        crate::text::lemma_first_from(rest, 0, Class::Is(':'));
        let c = first_from(rest, 0, Class::Is(':'));
        let u = rest.subrange(0, c);
        crate::text::lemma_first_from(u, 0, Class::Is('['));
        assert(u.subrange(0, first_from(u, 0, Class::Is('['))) =~= rest.subrange(
            0,
            first_from(u, 0, Class::Is('[')),
        ));
    }
}

/// Each boot time on the Boot tab stands right after its own label: `Total:` before the
/// total, `Kernel:` before the kernel time, `Userspace:` before the userspace time, and
/// `Firmware:` before the firmware time, on a line of its own that is there exactly when
/// the report has one. Without a report there is one red line saying so.
pub proof fn boot_summary_labels_each_time(bt: BootTime)
    ensures
        ({
            let ls = boot_summary_lines(Some(bt));
            &&& ls.len() == if bt.firmware is Some { 3int } else { 2int }
            &&& ls[0].len() == 2 && ls[0][0].text == "  Total: "@ && ls[0][1].text == bt.total@
            &&& ls[1].len() == 4
            &&& ls[1][0].text == "  Kernel: "@ && ls[1][1].text == bt.kernel@
            &&& ls[1][2].text == "  Userspace: "@ && ls[1][3].text == bt.userspace@
            &&& bt.firmware matches Some(fw) ==> ls[2].len() == 2 && ls[2][0].text == "  Firmware: "@
                && ls[2][1].text == fw@
        }),
        boot_summary_lines(None).len() == 1,
        boot_summary_lines(None)[0].len() == 1,
        boot_summary_lines(None)[0][0].text == "  (no boot data)"@,
        boot_summary_lines(None)[0][0].shade == Shade::Red,
{
}

/// A line of `systemd-analyze` output holding `"Startup finished"` sets each boot time
/// from its own label: the kernel time from `"(kernel)"`, the userspace time from
/// `"(userspace)"`, the firmware and loader times from `"(firmware)"` and `"(loader)"`,
/// and the total from what follows `'='`.
pub proof fn boot_times_come_from_their_labels(line: Seq<char>, raw: Seq<char>)
    requires
        contains(line, "Startup finished"@),
    ensures
        ({
            let b = boot_scan(seq![line], raw);
            &&& parenthesized(line, "kernel"@) matches Some(k) ==> b.kernel == k
            &&& parenthesized(line, "userspace"@) matches Some(u) ==> b.userspace == u
            &&& parenthesized(line, "firmware"@) matches Some(f) ==> b.firmware == Some(f)
            &&& parenthesized(line, "loader"@) matches Some(l) ==> b.loader == Some(l)
            &&& after_equals(line) matches Some(t) ==> b.total == t
        }),
{
    assert(seq![line].drop_last() =~= Seq::<Seq<char>>::empty());
}

/// The status word of a unit: for an active unit its sub-state where that is `running`,
/// `exited`, `waiting`, `mounted` or `listening`, else `active`; for an inactive, failed,
/// activating or deactivating unit that state; `unknown` for any other state.
pub proof fn status_word_follows_the_states(active: Seq<char>, sub: Seq<char>)
    ensures
        active == "active"@ && (sub == "running"@ || sub == "exited"@ || sub == "waiting"@
            || sub == "mounted"@ || sub == "listening"@) ==> status_text(active, sub) == sub,
        active == "active"@ && !(sub == "running"@ || sub == "exited"@ || sub == "waiting"@
            || sub == "mounted"@ || sub == "listening"@) ==> status_text(active, sub) == "active"@,
        active != "active"@ && (active == "inactive"@ || active == "failed"@ || active
            == "activating"@ || active == "deactivating"@) ==> status_text(active, sub) == active,
        !(active == "active"@ || active == "inactive"@ || active == "failed"@ || active
            == "activating"@ || active == "deactivating"@) ==> status_text(active, sub)
            == "unknown"@,
{
}

/// The colours: a running, listening or mounted unit is green, a failed one red, one
/// activating or deactivating yellow, and any other dim green; a start-up time over 5 s
/// is red, over 1 s yellow, otherwise green; a journal message of priority 0 to 3 is red,
/// 4 yellow, 5 or 6 green, and 7 or more dim green.
pub proof fn colours_follow_their_rules(state: Seq<char>, time_ms: u64, priority: u8)
    ensures
        state == "running"@ || state == "listening"@ || state == "mounted"@ ==> state_shade(state)
            == Shade::Green,
        state == "failed"@ ==> state_shade(state) == Shade::Red,
        state == "activating"@ || state == "deactivating"@ ==> state_shade(state) == Shade::Yellow,
        !(state == "running"@ || state == "listening"@ || state == "mounted"@ || state == "failed"@
            || state == "activating"@ || state == "deactivating"@) ==> state_shade(state)
            == Shade::DimGreen,
        time_ms > 5000 ==> time_shade(time_ms) == Shade::Red,
        1000 < time_ms <= 5000 ==> time_shade(time_ms) == Shade::Yellow,
        time_ms <= 1000 ==> time_shade(time_ms) == Shade::Green,
        priority <= 3 ==> priority_shade(priority) == Shade::Red,
        priority == 4 ==> priority_shade(priority) == Shade::Yellow,
        priority == 5 || priority == 6 ==> priority_shade(priority) == Shade::Green,
        priority >= 7 ==> priority_shade(priority) == Shade::DimGreen,
{
    reveal_strlit("running");
    reveal_strlit("listening");
    reveal_strlit("mounted");
    reveal_strlit("failed");
    reveal_strlit("activating");
    reveal_strlit("deactivating");
    reveal_strlit("exited");
    reveal_strlit("inactive");
    reveal_strlit("waiting");
    assert("failed"@.len() == 6 && "exited"@.len() == 6 && "running"@.len() == 7);
    assert("listening"@.len() == 9 && "mounted"@.len() == 7 && "inactive"@.len() == 8);
    assert("waiting"@.len() == 7 && "activating"@.len() == 10 && "deactivating"@.len() == 12);
    assert("failed"@[0] != "exited"@[0]);
}

/// The footer shows the filter being typed, between `" /"` and a block cursor, while the
/// prompt is open, and otherwise names the keys `q`, Tab, `j/k`, `r` and `/`, each before
/// what it does.
pub proof fn footer_shows_prompt_or_keys(filter: Seq<char>, filter_active: bool)
    ensures
        filter_active ==> footer_pieces(filter, filter_active).len() == 3
            && footer_pieces(filter, filter_active)[0].text == " /"@
            && footer_pieces(filter, filter_active)[1].text == filter
            && footer_pieces(filter, filter_active)[2].text == "█"@,
        !filter_active ==> ({
            let f = footer_pieces(filter, filter_active);
            &&& f.len() == 10
            &&& f[0].text == " q"@ && f[1].text == " quit  "@
            &&& f[2].text == "Tab"@ && f[3].text == " switch  "@
            &&& f[4].text == "j/k"@ && f[5].text == " scroll  "@
            &&& f[6].text == "r"@ && f[7].text == " refresh  "@
            &&& f[8].text == "/"@ && f[9].text == " filter"@
        }),
{
}


/// The total of a boot summary line is what follows its first `'='`, trimmed; a line
/// without `'='` has none.
pub proof fn total_follows_the_first_equals_sign(line: Seq<char>)
    ensures
        after_equals(line) is Some <==> line.contains('='),
        after_equals(line) matches Some(t) ==> exists|i: int|
            0 <= i < line.len() && line[i] == '=' && (forall|j: int| 0 <= j < i ==> line[j] != '=')
                && t == trim(line.subrange(i + 1, line.len() as int)),
{
    crate::text::lemma_first_from(line, 0, Class::Is('='));
    let i = first_from(line, 0, Class::Is('='));
    if i < line.len() {
        assert(line[i] == '=');
    } else {
        assert forall|j: int| 0 <= j < line.len() implies line[j] != '=' by {}
    }
}

/// The arguments of `journalctl`: no pager, short output, and the number of lines asked
/// for, in decimal, after `--lines`; then `-p` and the priority where one is given, then
/// `-u` and the unit where one is given.
pub proof fn journal_arguments(n: nat, priority: Option<u8>, unit: Option<Seq<char>>)
    ensures
        ({
            let a = journal_arg_list(n, priority, unit);
            let extra = if priority is Some { 2int } else { 0int };
            &&& a.len() == 5 + extra + if unit is Some { 2int } else { 0int }
            &&& a[0] == "--no-pager"@ && a[1] == "-o"@ && a[2] == "short"@
            &&& a[3] == "--lines"@ && a[4] == decimal(n)
            &&& priority matches Some(p) ==> a[5] == "-p"@ && a[6] == decimal(p as nat)
            &&& unit matches Some(u) ==> a[5 + extra] == "-u"@ && a[6 + extra] == u
        }),
        unit_journal_arg_list(unit.unwrap_or(Seq::<char>::empty()), n) =~= seq![
            "-u"@,
            unit.unwrap_or(Seq::<char>::empty()),
            "--no-pager"@,
            "-n"@,
            decimal(n),
        ],
{
}

/// A header fact is its command's output trimmed, or `unknown` where the command could not
/// be run; the systemd version is the first line of `systemctl --version`, or `unknown`
/// where there is none.
pub proof fn header_facts(out: Option<Seq<char>>)
    ensures
        out matches Some(s) ==> trimmed_or_unknown(out) == trim(s),
        out is None ==> trimmed_or_unknown(out) == "unknown"@,
        out matches Some(s) ==> (lines(s).len() > 0 ==> first_line_or_unknown(out) == lines(s)[0])
            && (lines(s).len() == 0 ==> first_line_or_unknown(out) == "unknown"@),
        out is None ==> first_line_or_unknown(out) == "unknown"@,
{
}

/// A `systemctl <action> <unit>` run that succeeded reports `Successfully <action>ed
/// <unit>`; one that failed reports `Failed to <action> <unit>: ` and what it printed on
/// stderr, trimmed.
pub proof fn action_messages(unit: Seq<char>, action: Seq<char>, stderr: Seq<char>)
    ensures
        action_outcome(unit, action, true, stderr) == Ok::<Seq<char>, Seq<char>>(
            "Successfully "@ + action + "ed "@ + unit,
        ),
        action_outcome(unit, action, false, stderr) == Err::<Seq<char>, Seq<char>>(
            "Failed to "@ + action + " "@ + unit + ": "@ + trim(stderr),
        ),
{
}

/// The farthest a list scrolls is its last row: one less than the rows it has (the units
/// shown under the filter, the blame entries or the journal entries, by tab), or 0 for an
/// empty list.
pub proof fn farthest_row_is_the_last(app: App, ui: UiView)
    ensures
        ({
            let n = match ui.tab {
                Tab::Services => shown_services(app.services@, ui.filter).len(),
                Tab::Boot => app.blame@.len(),
                Tab::Journal => app.journal@.len(),
            };
            &&& n > 0 ==> max_scroll_for(app, ui) + 1 == n
            &&& n == 0 ==> max_scroll_for(app, ui) == 0
        }),
{
}

/// A duration with `min` in it counts minutes (60000 ms) before `min`, then seconds
/// (1000 ms) after it where they end in `s`; without `min`, one ending in `ms` counts
/// milliseconds, one ending in `s` seconds, and any other holds no number.
pub proof fn duration_units(raw: Seq<char>)
    ensures
        ({
            let s = trim(raw);
            let d = duration_parts(raw);
            &&& find(s, "min"@) matches Some(m) ==> d.len() >= 1 && d[0].1 == 60000
                && d[0].0 == trim(s.subrange(0, m)) && (d.len() == 2 ==> d[1].1 == 1000) && d.len() <= 2
            &&& find(s, "min"@) is None && s.len() >= 2 && s[s.len() - 2] == 'm' && s[s.len() - 1] == 's'
                ==> d == seq![(s.subrange(0, s.len() - 2), 1u64)]
            &&& find(s, "min"@) is None && s.len() >= 1 && s[s.len() - 1] == 's' && !(s.len() >= 2
                && s[s.len() - 2] == 'm') ==> d == seq![(s.subrange(0, s.len() - 1), 1000u64)]
            &&& find(s, "min"@) is None && (s.len() == 0 || s[s.len() - 1] != 's') ==> d.len() == 0
        }),
{
    let s = trim(raw);
    if s.len() >= 2 {
        assert(s.subrange(s.len() - 2, s.len() as int)[0] == s[s.len() - 2]);
        assert(s.subrange(s.len() - 2, s.len() as int)[1] == s[s.len() - 1]);
        if s[s.len() - 2] == 'm' && s[s.len() - 1] == 's' {
            assert(s.subrange(s.len() - 2, s.len() as int) =~= seq!['m', 's']);
        }
    }
    if s.len() >= 1 {
        assert(s.subrange(s.len() - 1, s.len() as int)[0] == s[s.len() - 1]);
        if s[s.len() - 1] == 's' {
            assert(s.subrange(s.len() - 1, s.len() as int) =~= seq!['s']);
            assert(s.drop_last() =~= s.subrange(0, s.len() - 1));
        }
    }
}

/// No line that `lines` gives holds a `'\n'`.
pub proof fn lines_hold_no_newline(s: Seq<char>, p: int)
    requires
        0 <= p,
    ensures
        forall|i: int, j: int|
            0 <= i < lines_from(s, p).len() && 0 <= j < lines_from(s, p)[i].len() ==> #[trigger] lines_from(s, p)[i][j] != '\n',
    decreases s.len() - p,
{
    if p < s.len() {
        crate::text::lemma_first_from(s, p, Class::Is('\n'));
        let k = first_from(s, p, Class::Is('\n'));
        if k < s.len() {
            lines_hold_no_newline(s, k + 1);
            let l = s.subrange(p, k);
            let ls = lines_from(s, p);
            let rest = lines_from(s, k + 1);
            assert(ls == seq![crate::text::strip_cr(l)] + rest);
            assert forall|i: int, j: int| 0 <= i < ls.len() && 0 <= j < ls[i].len() implies #[trigger] ls[i][j] != '\n' by {
                if i == 0 {
                    assert(crate::text::strip_cr(l)[j] == l[j]);
                    assert(l[j] == s[p + j]);
                } else {
                    assert(ls[i] == rest[i - 1]);
                }
            }
        } else {
            let ls = lines_from(s, p);
            assert forall|i: int, j: int| 0 <= i < ls.len() && 0 <= j < ls[i].len() implies #[trigger] ls[i][j] != '\n' by {
                assert(ls[i] == s.subrange(p, s.len() as int));
                assert(ls[i][j] == s[p + j]);
            }
        }
    }
}

} // verus!
