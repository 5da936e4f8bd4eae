use vstd::prelude::*;

use crate::text::{
    all_ascii, ascii_lower,
    after_last, after_last_in, chars_of, contains, find, find_in, push_all, trim_end, trim_end_of, contains_in, first_from, first_in, join, join_range, lines, lines_of, lowercase,
    same_chars, slice_of, splitn, splitn_of, texts, to_lowercase, to_string, trim, trim_of, words,
    words_of, Class, decimal, decimal_string, line_strings, owned, strings,
};

verus! {

/// One systemd service unit, as `systemctl list-units` reports it.
#[derive(Debug, Clone)]
pub struct ServiceInfo {
    pub name: String,
    pub load_state: String,
    pub active_state: String,
    pub sub_state: String,
    pub description: String,
}

/// The characters of each field of a [`ServiceInfo`].
pub struct ServiceView {
    pub name: Seq<char>,
    pub load_state: Seq<char>,
    pub active_state: Seq<char>,
    pub sub_state: Seq<char>,
    pub description: Seq<char>,
}

impl View for ServiceInfo {
    type V = ServiceView;

    open spec fn view(&self) -> ServiceView {
        ServiceView {
            name: self.name@,
            load_state: self.load_state@,
            active_state: self.active_state@,
            sub_state: self.sub_state@,
            description: self.description@,
        }
    }
}

/// The one-word status shown for a unit in the given active state and sub-state.
pub open spec fn status_text(active: Seq<char>, sub: Seq<char>) -> Seq<char> {
    if active == "active"@ {
        if sub == "running"@ {
            "running"@
        } else if sub == "exited"@ {
            "exited"@
        } else if sub == "waiting"@ {
            "waiting"@
        } else if sub == "mounted"@ {
            "mounted"@
        } else if sub == "listening"@ {
            "listening"@
        } else {
            "active"@
        }
    } else if active == "inactive"@ {
        "inactive"@
    } else if active == "failed"@ {
        "failed"@
    } else if active == "activating"@ {
        "activating"@
    } else if active == "deactivating"@ {
        "deactivating"@
    } else {
        "unknown"@
    }
}

impl ServiceInfo {
    /// The one-word status of this unit: its sub-state where the unit is active and the
    /// sub-state is a known one, else its active state, else `"unknown"`.
    pub fn status_display(&self) -> (r: &str)
        ensures
            r@ == status_text(self.active_state@, self.sub_state@),
    {
        let a = chars_of(self.active_state.as_str());
        if same_chars(&a, &chars_of("active")) {
            let s = chars_of(self.sub_state.as_str());
            if same_chars(&s, &chars_of("running")) {
                "running"
            } else if same_chars(&s, &chars_of("exited")) {
                "exited"
            } else if same_chars(&s, &chars_of("waiting")) {
                "waiting"
            } else if same_chars(&s, &chars_of("mounted")) {
                "mounted"
            } else if same_chars(&s, &chars_of("listening")) {
                "listening"
            } else {
                "active"
            }
        } else if same_chars(&a, &chars_of("inactive")) {
            "inactive"
        } else if same_chars(&a, &chars_of("failed")) {
            "failed"
        } else if same_chars(&a, &chars_of("activating")) {
            "activating"
        } else if same_chars(&a, &chars_of("deactivating")) {
            "deactivating"
        } else {
            "unknown"
        }
    }
}

/// The syslog priority (0 = emergency .. 7 = debug) guessed from a message that is
/// already in lower case: the first keyword found, in order of severity, decides.
pub open spec fn priority_of(lower: Seq<char>) -> u8 {
    if contains(lower, "emerg"@) || contains(lower, "panic"@) {
        0
    } else if contains(lower, "alert"@) {
        1
    } else if contains(lower, "crit"@) {
        2
    } else if contains(lower, "error"@) || contains(lower, "fail"@) {
        3
    } else if contains(lower, "warn"@) {
        4
    } else if contains(lower, "notice"@) {
        5
    } else if contains(lower, "debug"@) {
        7
    } else {
        6
    }
}

fn has(h: &Vec<char>, word: &str) -> (b: bool)
    ensures
        b == contains(h@, word@),
{
    contains_in(h, &chars_of(word))
}

/// The priority guessed from a message that is already in lower case.
pub fn priority_of_lowercase(lower: &str) -> (p: u8)
    ensures
        p == priority_of(lower@),
{
    let h = chars_of(lower);
    if has(&h, "emerg") || has(&h, "panic") {
        0
    } else if has(&h, "alert") {
        1
    } else if has(&h, "crit") {
        2
    } else if has(&h, "error") || has(&h, "fail") {
        3
    } else if has(&h, "warn") {
        4
    } else if has(&h, "notice") {
        5
    } else if has(&h, "debug") {
        7
    } else {
        6
    }
}

/// The syslog priority guessed from the words in a journal message, ignoring case.
pub fn guess_priority(msg: &str) -> (p: u8)
    ensures
        p == priority_of(lowercase(msg@)),
        all_ascii(msg@) ==> p == priority_of(ascii_lower(msg@)),
{
    let lower = to_lowercase(msg);
    priority_of_lowercase(lower.as_str())
}


/// `s` without its leading `'●'` marks (`trim_start_matches('●')`).
pub open spec fn strip_bullets(s: Seq<char>) -> Seq<char> {
    s.subrange(first_from(s, 0, Class::Other('●')), s.len() as int)
}

/// The unit that one line of `systemctl list-units --plain --no-legend` describes, if the
/// line has at least four words, however its columns are padded: name, load state,
/// active state, sub-state, then the description, its words joined by single spaces.
pub open spec fn service_of_line(raw: Seq<char>) -> Option<ServiceView> {
    let toks = words(trim(raw));
    if toks.len() < 4 {
        None
    } else {
        Some(
            ServiceView {
                name: trim(strip_bullets(toks[0])),
                load_state: toks[1],
                active_state: toks[2],
                sub_state: toks[3],
                description: if toks.len() > 4 {
                    join(toks.subrange(4, toks.len() as int), seq![' '])
                } else {
                    seq![]
                },
            },
        )
    }
}

/// The units that the lines describe, in order.
pub open spec fn services_in(ls: Seq<Seq<char>>) -> Seq<ServiceView>
    decreases ls.len(),
{
    if ls.len() == 0 {
        seq![]
    } else {
        let rest = services_in(ls.drop_last());
        match service_of_line(ls.last()) {
            Some(s) => rest.push(s),
            None => rest,
        }
    }
}

/// The views of a sequence of units.
pub open spec fn service_views(v: Seq<ServiceInfo>) -> Seq<ServiceView> {
    v.map_values(|s: ServiceInfo| s@)
}

fn service_from_line(raw: &Vec<char>) -> (r: Option<ServiceInfo>)
    ensures
        match r {
            Some(s) => service_of_line(raw@) == Some(s@),
            None => service_of_line(raw@) is None,
        },
{
    let line = trim_of(raw);
    let toks = words_of(&line);
    if toks.len() < 4 {
        return None;
    }
    let first = &toks[0];
    let b = first_in(first, 0, Class::Other('●'));
    proof { crate::text::lemma_first_from(first@, 0, Class::Other('●')); }
    let name = trim_of(&slice_of(first, b, first.len()));
    let description = if toks.len() > 4 {
        to_string(&join_range(&toks, 4, toks.len(), ' '))
    } else {
        String::new()
    };
    let s = ServiceInfo {
        name: to_string(&name),
        load_state: to_string(&toks[1]),
        active_state: to_string(&toks[2]),
        sub_state: to_string(&toks[3]),
        description,
    };
    assert(s@ == service_of_line(raw@).unwrap());
    Some(s)
}

/// The units listed in the output of `systemctl list-units --type=service --all
/// --no-pager --no-legend --plain`.
pub fn parse_services(stdout: &str) -> (r: Vec<ServiceInfo>)
    ensures
        service_views(r@) == services_in(lines(stdout@)),
{
    let text = chars_of(stdout);
    let ls = lines_of(&text);
    let mut out: Vec<ServiceInfo> = Vec::new();
    let mut i: usize = 0;
    while i < ls.len()
        invariant
            i <= ls.len(),
            texts(ls@) == lines(stdout@),
            service_views(out@) == services_in(texts(ls@).take(i as int)),
        decreases ls.len() - i,
    {
        assert(texts(ls@).take(i + 1).drop_last() =~= texts(ls@).take(i as int));
        let ghost before = out@;
        match service_from_line(&ls[i]) {
            Some(s) => {
                out.push(s);
                assert(service_views(out@) =~= service_views(before).push(s@));
            },
            None => {},
        }
        i = i + 1;
    }
    assert(texts(ls@).take(i as int) =~= texts(ls@));
    out
}


/// The characters of an optional string.
pub open spec fn opt_text(o: Option<String>) -> Option<Seq<char>> {
    match o {
        Some(s) => Some(s@),
        None => None,
    }
}

/// What follows the first `'='` of `line`, trimmed; `None` if there is no `'='`.
pub open spec fn after_equals(line: Seq<char>) -> Option<Seq<char>> {
    let i = first_from(line, 0, Class::Is('='));
    if i < line.len() {
        Some(trim(line.subrange(i + 1, line.len() as int)))
    } else {
        None
    }
}

fn after_equals_of(line: &Vec<char>) -> (r: Option<Vec<char>>)
    ensures
        match r {
            Some(t) => after_equals(line@) == Some(t@),
            None => after_equals(line@) is None,
        },
{
    let i = first_in(line, 0, Class::Is('='));
    proof { crate::text::lemma_first_from(line@, 0, Class::Is('=')); }
    if i < line.len() {
        Some(trim_of(&slice_of(line, i + 1, line.len())))
    } else {
        None
    }
}

/// The text after the first `'='` of `line`, trimmed.
pub fn extract_after_equals(line: &str) -> (r: Option<String>)
    ensures
        opt_text(r) == after_equals(line@),
{
    match after_equals_of(&chars_of(line)) {
        Some(t) => Some(to_string(&t)),
        None => None,
    }
}

/// The units in which `systemd-analyze` writes durations.
pub open spec fn is_time_unit(u: Seq<char>) -> bool {
    ||| u == "y"@
    ||| u == "month"@
    ||| u == "w"@
    ||| u == "d"@
    ||| u == "h"@
    ||| u == "min"@
    ||| u == "s"@
    ||| u == "ms"@
    ||| u == "us"@
    ||| u == "µs"@
    ||| u == "μs"@
}

/// Whether `w` is a number followed by a time unit, as `"2.345s"` or `"1min"`.
pub open spec fn is_duration_word(w: Seq<char>) -> bool {
    &&& w.len() > 0
    &&& '0' <= w[0] && w[0] <= '9'
    &&& is_time_unit(w.subrange(first_from(w, 0, Class::NonNumeric), w.len() as int))
}

/// Where the duration at the end of `b` begins, given that its last word begins at `s`.
/// Earlier words that are durations, set off by blanks, belong to it, as in
/// `"1min 2.345s"`; a `'+'`, the start of `b` or any other word ends it.
pub open spec fn duration_start(b: Seq<char>, s: int) -> int
    decreases s,
{
    if s <= 0 || s > b.len() || b[s - 1] == '+' {
        s
    } else {
        let e = after_last(b, s, Class::NonBlank);
        if e <= 0 || e >= s || b[e - 1] == '+' {
            s
        } else {
            let p = after_last(b, e, Class::PlusOrBlank);
            if 0 <= p && p < s && is_duration_word(b.subrange(p, e)) {
                duration_start(b, p)
            } else {
                s
            }
        }
    }
}

/// The duration written just before the first `"(label)"` in `line`: the text after the
/// last `'+'`, `' '` or `'\t'` before the label, together with the duration words before
/// it back to a `'+'` or another word, trimmed.
pub open spec fn parenthesized(line: Seq<char>, label: Seq<char>) -> Option<Seq<char>> {
    match find(line, seq!['('] + label + seq![')']) {
        Some(idx) => {
            let before = trim_end(line.subrange(0, idx));
            let last = after_last(before, before.len() as int, Class::PlusOrBlank);
            let start = duration_start(before, last);
            Some(trim(before.subrange(start, before.len() as int)))
        },
        None => None,
    }
}

proof fn lemma_duration_start(b: Seq<char>, s: int)
    requires
        0 <= s <= b.len(),
    ensures
        0 <= duration_start(b, s) <= s,
    decreases s,
{
    if s > 0 && b[s - 1] != '+' {
        let e = after_last(b, s, Class::NonBlank);
        if e > 0 && e < s && b[e - 1] != '+' {
            let p = after_last(b, e, Class::PlusOrBlank);
            if 0 <= p && p < s && is_duration_word(b.subrange(p, e)) {
                lemma_duration_start(b, p);
            }
        }
    }
}

fn is_unit_of(u: &Vec<char>) -> (b: bool)
    ensures
        b == is_time_unit(u@),
{
    same_chars(u, &chars_of("y")) || same_chars(u, &chars_of("month")) || same_chars(u, &chars_of("w"))
        || same_chars(u, &chars_of("d")) || same_chars(u, &chars_of("h")) || same_chars(u, &chars_of("min"))
        || same_chars(u, &chars_of("s")) || same_chars(u, &chars_of("ms")) || same_chars(u, &chars_of("us"))
        || same_chars(u, &chars_of("µs")) || same_chars(u, &chars_of("μs"))
}

fn is_duration_word_of(w: &Vec<char>) -> (b: bool)
    ensures
        b == is_duration_word(w@),
{
    if w.len() == 0 || !('0' <= w[0] && w[0] <= '9') {
        return false;
    }
    let k = first_in(w, 0, Class::NonNumeric);
    proof { crate::text::lemma_first_from(w@, 0, Class::NonNumeric); }
    is_unit_of(&slice_of(w, k, w.len()))
}

fn duration_start_of(b: &Vec<char>, s0: usize) -> (r: usize)
    requires
        s0 <= b.len(),
    ensures
        r == duration_start(b@, s0 as int),
{
    let mut s = s0;
    loop
        invariant
            s <= b.len(),
            duration_start(b@, s0 as int) == duration_start(b@, s as int),
        decreases s,
    {
        if s == 0 || b[s - 1] == '+' {
            return s;
        }
        let e = after_last_in(b, s, Class::NonBlank);
        proof { crate::text::lemma_after_last(b@, s as int, Class::NonBlank); }
        if e == 0 || e >= s || b[e - 1] == '+' {
            return s;
        }
        let p = after_last_in(b, e, Class::PlusOrBlank);
        proof { crate::text::lemma_after_last(b@, e as int, Class::PlusOrBlank); }
        if p < s && is_duration_word_of(&slice_of(b, p, e)) {
            s = p;
        } else {
            return s;
        }
    }
}

fn parenthesized_of(line: &Vec<char>, label: &Vec<char>) -> (r: Option<Vec<char>>)
    ensures
        match r {
            Some(t) => parenthesized(line@, label@) == Some(t@),
            None => parenthesized(line@, label@) is None,
        },
{
    let mut pattern: Vec<char> = Vec::new();
    pattern.push('(');
    push_all(&mut pattern, label);
    pattern.push(')');
    assert(pattern@ =~= seq!['('] + label@ + seq![')']);
    match find_in(line, &pattern) {
        Some(idx) => {
            proof { crate::text::lemma_find_from(line@, pattern@, 0); }
            let before = trim_end_of(&slice_of(line, 0, idx));
            let last = after_last_in(&before, before.len(), Class::PlusOrBlank);
            proof { crate::text::lemma_after_last(before@, before@.len() as int, Class::PlusOrBlank); }
            let start = duration_start_of(&before, last);
            assert(start <= last) by { lemma_duration_start(before@, last as int); }
            Some(trim_of(&slice_of(&before, start, before.len())))
        },
        None => None,
    }
}

/// The duration written before `"(label)"` in a `systemd-analyze` summary line.
pub fn extract_parenthesized(line: &str, label: &str) -> (r: Option<String>)
    ensures
        opt_text(r) == parenthesized(line@, label@),
{
    match parenthesized_of(&chars_of(line), &chars_of(label)) {
        Some(t) => Some(to_string(&t)),
        None => None,
    }
}

/// The boot durations that `systemd-analyze` reports.
#[derive(Debug, Clone)]
pub struct BootTime {
    pub kernel: String,
    pub userspace: String,
    pub total: String,
    pub firmware: Option<String>,
    pub loader: Option<String>,
    pub raw_output: String,
}

/// The characters of each field of a [`BootTime`].
pub struct BootView {
    pub kernel: Seq<char>,
    pub userspace: Seq<char>,
    pub total: Seq<char>,
    pub firmware: Option<Seq<char>>,
    pub loader: Option<Seq<char>>,
    pub raw_output: Seq<char>,
}

impl View for BootTime {
    type V = BootView;

    open spec fn view(&self) -> BootView {
        BootView {
            kernel: self.kernel@,
            userspace: self.userspace@,
            total: self.total@,
            firmware: opt_text(self.firmware),
            loader: opt_text(self.loader),
            raw_output: self.raw_output@,
        }
    }
}

/// What one line of `systemd-analyze` output changes in the report gathered so far:
/// a line holding `"Startup finished"` sets the total (empty where there is no `'='`)
/// and each duration it labels; other lines change nothing.
pub open spec fn boot_step(acc: BootView, line: Seq<char>) -> BootView {
    if contains(line, "Startup finished"@) {
        BootView {
            kernel: match parenthesized(line, "kernel"@) {
                Some(k) => k,
                None => acc.kernel,
            },
            userspace: match parenthesized(line, "userspace"@) {
                Some(u) => u,
                None => acc.userspace,
            },
            total: match after_equals(line) {
                Some(t) => t,
                None => seq![],
            },
            firmware: match parenthesized(line, "firmware"@) {
                Some(f) => Some(f),
                None => acc.firmware,
            },
            loader: match parenthesized(line, "loader"@) {
                Some(l) => Some(l),
                None => acc.loader,
            },
            raw_output: acc.raw_output,
        }
    } else {
        acc
    }
}

/// The report gathered from the lines `ls`, in order, of the output `raw`.
pub open spec fn boot_scan(ls: Seq<Seq<char>>, raw: Seq<char>) -> BootView
    decreases ls.len(),
{
    if ls.len() == 0 {
        BootView {
            kernel: seq![],
            userspace: seq![],
            total: seq![],
            firmware: None,
            loader: None,
            raw_output: raw,
        }
    } else {
        boot_step(boot_scan(ls.drop_last(), raw), ls.last())
    }
}

/// The report for a run of `systemd-analyze` that printed `stdout`; none if it failed.
pub open spec fn boot_report(stdout: Seq<char>, success: bool) -> Option<BootView> {
    if success {
        Some(boot_scan(lines(stdout), stdout))
    } else {
        None
    }
}

/// The characters of an optional boot report.
pub open spec fn opt_boot(o: Option<BootTime>) -> Option<BootView> {
    match o {
        Some(b) => Some(b@),
        None => None,
    }
}

fn opt_string(o: &Option<Vec<char>>) -> (r: Option<String>)
    ensures
        opt_text(r) == match o {
            Some(v) => Some(v@),
            None => None::<Seq<char>>,
        },
{
    match o {
        Some(v) => Some(to_string(v)),
        None => None,
    }
}

/// The boot report from the output of `systemd-analyze` and whether it succeeded.
pub fn boot_time_from_output(stdout: &str, success: bool) -> (r: Option<BootTime>)
    ensures
        opt_boot(r) == boot_report(stdout@, success),
{
    if !success {
        return None;
    }
    let text = chars_of(stdout);
    let ls = lines_of(&text);
    let marker = chars_of("Startup finished");
    let kernel_label = chars_of("kernel");
    let userspace_label = chars_of("userspace");
    let firmware_label = chars_of("firmware");
    let loader_label = chars_of("loader");
    let mut kernel: Vec<char> = Vec::new();
    let mut userspace: Vec<char> = Vec::new();
    let mut total: Vec<char> = Vec::new();
    let mut firmware: Option<Vec<char>> = None;
    let mut loader: Option<Vec<char>> = None;
    let mut i: usize = 0;
    while i < ls.len()
        invariant
            i <= ls.len(),
            texts(ls@) == lines(stdout@),
            text@ == stdout@,
            marker@ == "Startup finished"@,
            kernel_label@ == "kernel"@,
            userspace_label@ == "userspace"@,
            firmware_label@ == "firmware"@,
            loader_label@ == "loader"@,
            ({
                let acc = boot_scan(texts(ls@).take(i as int), stdout@);
                &&& acc.kernel == kernel@
                &&& acc.userspace == userspace@
                &&& acc.total == total@
                &&& acc.firmware == match firmware {
                    Some(v) => Some(v@),
                    None => None::<Seq<char>>,
                }
                &&& acc.loader == match loader {
                    Some(v) => Some(v@),
                    None => None::<Seq<char>>,
                }
                &&& acc.raw_output == stdout@
            }),
        decreases ls.len() - i,
    {
        assert(texts(ls@).take(i + 1).drop_last() =~= texts(ls@).take(i as int));
        let line = &ls[i];
        if contains_in(line, &marker) {
            total = match after_equals_of(line) {
                Some(t) => t,
                None => Vec::new(),
            };
            match parenthesized_of(line, &kernel_label) {
                Some(k) => { kernel = k; },
                None => {},
            }
            match parenthesized_of(line, &userspace_label) {
                Some(u) => { userspace = u; },
                None => {},
            }
            match parenthesized_of(line, &firmware_label) {
                Some(f) => { firmware = Some(f); },
                None => {},
            }
            match parenthesized_of(line, &loader_label) {
                Some(l) => { loader = Some(l); },
                None => {},
            }
        }
        i = i + 1;
    }
    assert(texts(ls@).take(i as int) =~= texts(ls@));
    let r = BootTime {
        kernel: to_string(&kernel),
        userspace: to_string(&userspace),
        total: to_string(&total),
        firmware: opt_string(&firmware),
        loader: opt_string(&loader),
        raw_output: to_string(&text),
    };
    Some(r)
}


/// One unit's start-up time from `systemd-analyze blame`.
#[derive(Debug, Clone)]
pub struct BlameEntry {
    pub time_str: String,
    pub time_ms: u64,
    pub unit: String,
}

/// The time and the unit of one line of `systemd-analyze blame` with at least two words:
/// the unit is the last word, the time all the words before it (as in `"1min 2.345s"`),
/// joined by single spaces.
pub open spec fn blame_words(raw: Seq<char>) -> Option<(Seq<char>, Seq<char>)> {
    let toks = words(trim(raw));
    if toks.len() < 2 {
        None
    } else {
        Some((join(toks.subrange(0, toks.len() - 1), seq![' ']), toks.last()))
    }
}

/// The time and unit words of the lines that have them, in order.
pub open spec fn blame_rows(ls: Seq<Seq<char>>) -> Seq<(Seq<char>, Seq<char>)>
    decreases ls.len(),
{
    if ls.len() == 0 {
        seq![]
    } else {
        let rest = blame_rows(ls.drop_last());
        match blame_words(ls.last()) {
            Some(w) => rest.push(w),
            None => rest,
        }
    }
}

/// The first `limit` lines of `ls`, or all of them where there are fewer.
pub open spec fn first_lines(ls: Seq<Seq<char>>, limit: nat) -> Seq<Seq<char>> {
    if limit < ls.len() {
        ls.take(limit as int)
    } else {
        ls
    }
}

fn blame_words_of(raw: &Vec<char>) -> (r: Option<(Vec<char>, Vec<char>)>)
    ensures
        match r {
            Some((t, u)) => blame_words(raw@) == Some((t@, u@)),
            None => blame_words(raw@) is None,
        },
{
    let line = trim_of(raw);
    let toks = words_of(&line);
    if toks.len() < 2 {
        return None;
    }
    let t = join_range(&toks, 0, toks.len() - 1, ' ');
    let u = slice_of(&toks[toks.len() - 1], 0, toks[toks.len() - 1].len());
    assert(u@ =~= toks@[toks.len() - 1]@);
    Some((t, u))
}

/// The entries of the first `limit` lines of `systemd-analyze blame` output, each with
/// the time in milliseconds that `to_ms` reads from its time.
#[verifier::spinoff_prover]
pub fn parse_blame<F: Fn(&String) -> u64>(stdout: &str, limit: usize, to_ms: F) -> (r: Vec<
    BlameEntry,
>)
    requires
        forall|t: &String| to_ms.requires((t,)),
    ensures
        r.len() == blame_rows(first_lines(lines(stdout@), limit as nat)).len(),
        forall|i: int|
            0 <= i < r.len() ==> {
                let row = #[trigger] blame_rows(first_lines(lines(stdout@), limit as nat))[i];
                &&& r[i].time_str@ == row.0
                &&& r[i].unit@ == row.1
                &&& to_ms.ensures((&r[i].time_str,), r[i].time_ms)
            },
{
    let text = chars_of(stdout);
    let ls = lines_of(&text);
    let n = if limit < ls.len() {
        limit
    } else {
        ls.len()
    };
    let ghost shown = first_lines(lines(stdout@), limit as nat);
    assert(shown =~= texts(ls@).take(n as int));
    let mut out: Vec<BlameEntry> = Vec::new();
    let mut i: usize = 0;
    while i < n
        invariant
            i <= n <= ls.len(),
            texts(ls@) == lines(stdout@),
            shown == texts(ls@).take(n as int),
            forall|t: &String| to_ms.requires((t,)),
            out.len() == blame_rows(texts(ls@).take(i as int)).len(),
            forall|k: int|
                0 <= k < out.len() ==> {
                    let row = #[trigger] blame_rows(texts(ls@).take(i as int))[k];
                    &&& out[k].time_str@ == row.0
                    &&& out[k].unit@ == row.1
                    &&& to_ms.ensures((&out[k].time_str,), out[k].time_ms)
                },
        decreases n - i,
    {
        assert(texts(ls@).take(i + 1).drop_last() =~= texts(ls@).take(i as int));
        match blame_words_of(&ls[i]) {
            Some((t, u)) => {
                let time_str = to_string(&t);
                let time_ms = to_ms(&time_str);
                out.push(BlameEntry { time_str, time_ms, unit: to_string(&u) });
            },
            None => {},
        }
        i = i + 1;
    }
    assert(shown == texts(ls@).take(i as int));
    assert(blame_rows(shown) == blame_rows(texts(ls@).take(i as int)));
    assert(shown == first_lines(lines(stdout@), limit as nat));
    assert forall|k: int| 0 <= k < out.len() implies {
        let row = #[trigger] blame_rows(first_lines(lines(stdout@), limit as nat))[k];
        &&& out[k].time_str@ == row.0
        &&& out[k].unit@ == row.1
        &&& to_ms.ensures((&out[k].time_str,), out[k].time_ms)
    } by {
        assert(blame_rows(first_lines(lines(stdout@), limit as nat))[k] == blame_rows(
            texts(ls@).take(i as int),
        )[k]);
    }
    out
}


/// One number in a `systemd-analyze` duration and the milliseconds that one of its
/// units stands for: `"1min 2.5s"` holds `("1", 60000)` and `("2.5", 1000)`.
#[derive(Debug, Clone)]
pub struct DurationPart {
    pub number: String,
    pub ms_per_unit: u64,
}

/// Whether `s` ends with `suffix` (`str::ends_with`).
pub open spec fn ends_with(s: Seq<char>, suffix: Seq<char>) -> bool {
    suffix.len() <= s.len() && s.subrange(s.len() - suffix.len(), s.len() as int) == suffix
}

/// The numbers of a duration such as `"5.123s"`, `"123ms"` or `"1min 2.345s"`, each with
/// the milliseconds per unit it counts: minutes where `"min"` occurs (then the seconds
/// after it where they end in `'s'`), else milliseconds for `"ms"`, else seconds for
/// `'s'`; none for any other text.
pub open spec fn duration_parts(raw: Seq<char>) -> Seq<(Seq<char>, u64)> {
    let s = trim(raw);
    match find(s, "min"@) {
        Some(m) => {
            let rest = trim(s.subrange(m + 3, s.len() as int));
            let mins = seq![(trim(s.subrange(0, m)), 60000u64)];
            if ends_with(rest, seq!['s']) {
                mins.push((rest.drop_last(), 1000u64))
            } else {
                mins
            }
        },
        None => if ends_with(s, seq!['m', 's']) {
            seq![(s.subrange(0, s.len() - 2), 1u64)]
        } else if ends_with(s, seq!['s']) {
            seq![(s.drop_last(), 1000u64)]
        } else {
            seq![]
        },
    }
}

/// The numbers of a duration as written by `systemd-analyze`, each with the
/// milliseconds per unit it counts. Its time in milliseconds is the sum, over the
/// numbers that parse, of the number times its milliseconds per unit.
pub fn duration_parts_of(s: &str) -> (r: Vec<DurationPart>)
    ensures
        r.len() == duration_parts(s@).len(),
        forall|i: int|
            0 <= i < r.len() ==> (#[trigger] r[i]).number@ == duration_parts(s@)[i].0
                && r[i].ms_per_unit == duration_parts(s@)[i].1,
{
    let t = trim_of(&chars_of(s));
    let mut out: Vec<DurationPart> = Vec::new();
    let min = chars_of("min");
    match find_in(&t, &min) {
        Some(m) => {
            proof {
                crate::text::lemma_find_from(t@, min@, 0);
                reveal_strlit("min");
            }
            out.push(DurationPart { number: to_string(&trim_of(&slice_of(&t, 0, m))), ms_per_unit: 60000 });
            let rest = trim_of(&slice_of(&t, m + 3, t.len()));
            if rest.len() >= 1 && rest[rest.len() - 1] == 's' {
                assert(ends_with(rest@, seq!['s'])) by {
                    assert(rest@.subrange(rest@.len() - 1, rest@.len() as int) =~= seq!['s']);
                }
                out.push(DurationPart { number: to_string(&slice_of(&rest, 0, rest.len() - 1)), ms_per_unit: 1000 });
                assert(rest@.subrange(0, rest@.len() - 1) =~= rest@.drop_last());
            } else {
                assert(!ends_with(rest@, seq!['s'])) by {
                    if rest@.len() >= 1 {
                        assert(rest@.subrange(rest@.len() - 1, rest@.len() as int)[0] == rest@[rest@.len() - 1]);
                    }
                }
            }
        },
        None => {
            let n = t.len();
            if n >= 2 && t[n - 2] == 'm' && t[n - 1] == 's' {
                assert(t@.subrange(n - 2, n as int) =~= seq!['m', 's']);
                out.push(DurationPart { number: to_string(&slice_of(&t, 0, n - 2)), ms_per_unit: 1 });
            } else {
                assert(!ends_with(t@, seq!['m', 's'])) by {
                    if n >= 2 {
                        assert(t@.subrange(n - 2, n as int)[0] == t@[n - 2]);
                        assert(t@.subrange(n - 2, n as int)[1] == t@[n - 1]);
                    }
                }
                if n >= 1 && t[n - 1] == 's' {
                    assert(t@.subrange(n - 1, n as int) =~= seq!['s']);
                    out.push(DurationPart { number: to_string(&slice_of(&t, 0, n - 1)), ms_per_unit: 1000 });
                    assert(t@.subrange(0, n - 1) =~= t@.drop_last());
                } else {
                    assert(!ends_with(t@, seq!['s'])) by {
                        if n >= 1 {
                            assert(t@.subrange(n - 1, n as int)[0] == t@[n - 1]);
                        }
                    }
                }
            }
        },
    }
    out
}


/// One message from `journalctl -o short`.
#[derive(Debug, Clone)]
pub struct JournalEntry {
    pub timestamp: String,
    pub hostname: String,
    pub unit: String,
    pub message: String,
    pub priority: u8,
}

/// The characters of each field of a [`JournalEntry`].
pub struct JournalView {
    pub timestamp: Seq<char>,
    pub hostname: Seq<char>,
    pub unit: Seq<char>,
    pub message: Seq<char>,
    pub priority: u8,
}

impl View for JournalEntry {
    type V = JournalView;

    open spec fn view(&self) -> JournalView {
        JournalView {
            timestamp: self.timestamp@,
            hostname: self.hostname@,
            unit: self.unit@,
            message: self.message@,
            priority: self.priority,
        }
    }
}

/// The entry that one line of `journalctl -o short` output stands for. The line is cut
/// at its first five white-space characters; with at least five pieces the first three
/// are the timestamp, the fourth the host, and the rest (the last two pieces joined by a
/// space) is `unit[pid]: message`, the unit without its `[pid]`. Without a `':'` the rest
/// is all message, with no unit. A line of fewer pieces is all message, of priority 6.
pub open spec fn journal_line(line: Seq<char>) -> JournalView {
    let t = splitn(line, 6);
    if t.len() >= 5 {
        let rest = if t.len() >= 6 {
            join(t.subrange(4, t.len() as int), seq![' '])
        } else {
            t[4]
        };
        let c = first_from(rest, 0, Class::Is(':'));
        let unit_pid = rest.subrange(0, c);
        let unit = if c < rest.len() {
            unit_pid.subrange(0, first_from(unit_pid, 0, Class::Is('[')))
        } else {
            seq![]
        };
        let message = if c < rest.len() {
            trim(rest.subrange(c + 1, rest.len() as int))
        } else {
            rest
        };
        JournalView {
            timestamp: t[0] + seq![' '] + t[1] + seq![' '] + t[2],
            hostname: t[3],
            unit,
            message,
            priority: priority_of(lowercase(message)),
        }
    } else {
        JournalView { timestamp: seq![], hostname: seq![], unit: seq![], message: line, priority: 6 }
    }
}

fn journal_line_of(line: &Vec<char>) -> (r: JournalEntry)
    ensures
        r@ == journal_line(line@),
{
    let t = splitn_of(line, 6);
    if t.len() >= 5 {
        let rest = if t.len() >= 6 {
            join_range(&t, 4, t.len(), ' ')
        } else {
            slice_of(&t[4], 0, t[4].len())
        };
        assert(t.len() < 6 ==> rest@ =~= texts(t@)[4]);
        let c = first_in(&rest, 0, Class::Is(':'));
        proof { crate::text::lemma_first_from(rest@, 0, Class::Is(':')); }
        let unit_pid = slice_of(&rest, 0, c);
        let (unit, message) = if c < rest.len() {
            let b = first_in(&unit_pid, 0, Class::Is('['));
            proof { crate::text::lemma_first_from(unit_pid@, 0, Class::Is('[')); }
            (slice_of(&unit_pid, 0, b), trim_of(&slice_of(&rest, c + 1, rest.len())))
        } else {
            (Vec::new(), rest)
        };
        let mut stamp: Vec<char> = Vec::new();
        push_all(&mut stamp, &t[0]);
        stamp.push(' ');
        push_all(&mut stamp, &t[1]);
        stamp.push(' ');
        push_all(&mut stamp, &t[2]);
        let message = to_string(&message);
        let priority = guess_priority(message.as_str());
        let r = JournalEntry {
            timestamp: to_string(&stamp),
            hostname: to_string(&t[3]),
            unit: to_string(&unit),
            message,
            priority,
        };
        assert(r@.timestamp =~= journal_line(line@).timestamp);
        assert(r@.unit =~= journal_line(line@).unit);
        r
    } else {
        JournalEntry {
            timestamp: String::new(),
            hostname: String::new(),
            unit: String::new(),
            message: to_string(line),
            priority: 6,
        }
    }
}

/// The entry that one line of `journalctl -o short` output stands for.
pub fn parse_journal_line(line: &str) -> (r: JournalEntry)
    ensures
        r@ == journal_line(line@),
{
    journal_line_of(&chars_of(line))
}

/// Whether `s` begins with `prefix` (`str::starts_with`).
pub open spec fn starts_with(s: Seq<char>, prefix: Seq<char>) -> bool {
    prefix.len() <= s.len() && s.subrange(0, prefix.len() as int) == prefix
}

/// Whether a trimmed line of `journalctl` output holds an entry: it is not empty and
/// is no `"-- "` notice.
pub open spec fn holds_entry(line: Seq<char>) -> bool {
    line.len() > 0 && !starts_with(line, seq!['-', '-', ' '])
}

/// The entries of the lines, each trimmed, that hold one.
pub open spec fn journal_in(ls: Seq<Seq<char>>) -> Seq<JournalView>
    decreases ls.len(),
{
    if ls.len() == 0 {
        seq![]
    } else {
        let rest = journal_in(ls.drop_last());
        let line = trim(ls.last());
        if holds_entry(line) {
            rest.push(journal_line(line))
        } else {
            rest
        }
    }
}

/// The views of a sequence of journal entries.
pub open spec fn journal_views(v: Seq<JournalEntry>) -> Seq<JournalView> {
    v.map_values(|e: JournalEntry| e@)
}

/// The entries in the output of `journalctl --no-pager -o short`.
pub fn parse_journal(stdout: &str) -> (r: Vec<JournalEntry>)
    ensures
        journal_views(r@) == journal_in(lines(stdout@)),
{
    let text = chars_of(stdout);
    let ls = lines_of(&text);
    let mut out: Vec<JournalEntry> = Vec::new();
    let mut i: usize = 0;
    while i < ls.len()
        invariant
            i <= ls.len(),
            texts(ls@) == lines(stdout@),
            journal_views(out@) == journal_in(texts(ls@).take(i as int)),
        decreases ls.len() - i,
    {
        assert(texts(ls@).take(i + 1).drop_last() =~= texts(ls@).take(i as int));
        let line = trim_of(&ls[i]);
        let notice = line.len() >= 3 && line[0] == '-' && line[1] == '-' && line[2] == ' ';
        assert(notice == starts_with(line@, seq!['-', '-', ' '])) by {
            if line@.len() >= 3 {
                let p = line@.subrange(0, 3);
                assert(p[0] == line@[0] && p[1] == line@[1] && p[2] == line@[2]);
                if notice {
                    assert(p =~= seq!['-', '-', ' ']);
                }
            }
        }
        let ghost before = out@;
        if line.len() > 0 && !notice {
            let e = journal_line_of(&line);
            out.push(e);
            assert(journal_views(out@) =~= journal_views(before).push(e@));
        }
        i = i + 1;
    }
    assert(texts(ls@).take(i as int) =~= texts(ls@));
    out
}


/// The arguments of `journalctl` for the last `n` entries, of at most the given priority
/// and of the given unit where these are set.
pub open spec fn journal_arg_list(n: nat, priority: Option<u8>, unit: Option<Seq<char>>) -> Seq<
    Seq<char>,
> {
    seq!["--no-pager"@, "-o"@, "short"@, "--lines"@, decimal(n)] + match priority {
        Some(p) => seq!["-p"@, decimal(p as nat)],
        None => seq![],
    } + match unit {
        Some(u) => seq!["-u"@, u],
        None => seq![],
    }
}

/// The characters of an optional string slice.
pub open spec fn opt_str(o: Option<&str>) -> Option<Seq<char>> {
    match o {
        Some(s) => Some(s@),
        None => None,
    }
}

/// The arguments that `get_journal` passes to `journalctl`.
pub fn journal_args(lines: usize, priority: Option<u8>, unit: Option<&str>) -> (r: Vec<String>)
    ensures
        strings(r@) == journal_arg_list(lines as nat, priority, opt_str(unit)),
{
    let mut r: Vec<String> = Vec::new();
    r.push(owned("--no-pager"));
    r.push(owned("-o"));
    r.push(owned("short"));
    r.push(owned("--lines"));
    r.push(decimal_string(lines as u64));
    match priority {
        Some(p) => {
            r.push(owned("-p"));
            r.push(decimal_string(p as u64));
        },
        None => {},
    }
    match unit {
        Some(u) => {
            r.push(owned("-u"));
            r.push(owned(u));
        },
        None => {},
    }
    assert(strings(r@) =~= journal_arg_list(lines as nat, priority, opt_str(unit)));
    r
}

/// The arguments of `journalctl` for the last `n` lines of one unit's log.
pub open spec fn unit_journal_arg_list(unit: Seq<char>, n: nat) -> Seq<Seq<char>> {
    seq!["-u"@, unit, "--no-pager"@, "-n"@, decimal(n)]
}

/// The arguments that `get_unit_journal` passes to `journalctl`.
pub fn unit_journal_args(unit: &str, lines: usize) -> (r: Vec<String>)
    ensures
        strings(r@) == unit_journal_arg_list(unit@, lines as nat),
{
    let mut r: Vec<String> = Vec::new();
    r.push(owned("-u"));
    r.push(owned(unit));
    r.push(owned("--no-pager"));
    r.push(owned("-n"));
    r.push(decimal_string(lines as u64));
    assert(strings(r@) =~= unit_journal_arg_list(unit@, lines as nat));
    r
}

/// The lines shown for one unit's log: those of the output of `journalctl`, or one line
/// saying that it could not be read where `journalctl` could not be run.
pub fn unit_journal_from_output(stdout: Option<&str>) -> (r: Vec<String>)
    ensures
        strings(r@) == match stdout {
            Some(s) => lines(s@),
            None => seq!["Failed to read journal"@],
        },
{
    match stdout {
        Some(s) => line_strings(s),
        None => {
            let mut r: Vec<String> = Vec::new();
            r.push(owned("Failed to read journal"));
            assert(strings(r@) =~= seq!["Failed to read journal"@]);
            r
        },
    }
}

/// The lines of the output of `systemd-analyze critical-chain`.
pub fn critical_chain_from_output(stdout: &str) -> (r: Vec<String>)
    ensures
        strings(r@) == lines(stdout@),
{
    line_strings(stdout)
}

/// The host, kernel, uptime and systemd version shown in the header.
#[derive(Debug, Clone)]
pub struct SystemInfo {
    pub hostname: String,
    pub kernel: String,
    pub uptime: String,
    pub systemd_version: String,
}

/// The characters of each field of a [`SystemInfo`].
pub struct SystemView {
    pub hostname: Seq<char>,
    pub kernel: Seq<char>,
    pub uptime: Seq<char>,
    pub systemd_version: Seq<char>,
}

impl View for SystemInfo {
    type V = SystemView;

    open spec fn view(&self) -> SystemView {
        SystemView {
            hostname: self.hostname@,
            kernel: self.kernel@,
            uptime: self.uptime@,
            systemd_version: self.systemd_version@,
        }
    }
}

/// A command's output trimmed, or `"unknown"` where the command could not be run.
pub open spec fn trimmed_or_unknown(o: Option<Seq<char>>) -> Seq<char> {
    match o {
        Some(s) => trim(s),
        None => "unknown"@,
    }
}

/// The first line of a command's output, or `"unknown"` where it printed nothing or
/// could not be run.
pub open spec fn first_line_or_unknown(o: Option<Seq<char>>) -> Seq<char> {
    match o {
        Some(s) => if lines(s).len() > 0 {
            lines(s)[0]
        } else {
            "unknown"@
        },
        None => "unknown"@,
    }
}

fn trimmed_or_unknown_of(o: Option<&str>) -> (r: String)
    ensures
        r@ == trimmed_or_unknown(opt_str(o)),
{
    match o {
        Some(s) => to_string(&trim_of(&chars_of(s))),
        None => owned("unknown"),
    }
}

/// The header facts from the outputs of `hostname`, `uname -r`, `uptime -p` and
/// `systemctl --version` (`None` for a command that could not be run).
pub fn system_info_from_outputs(
    hostname: Option<&str>,
    kernel: Option<&str>,
    uptime: Option<&str>,
    systemctl_version: Option<&str>,
) -> (r: SystemInfo)
    ensures
        r@ == (SystemView {
            hostname: trimmed_or_unknown(opt_str(hostname)),
            kernel: trimmed_or_unknown(opt_str(kernel)),
            uptime: trimmed_or_unknown(opt_str(uptime)),
            systemd_version: first_line_or_unknown(opt_str(systemctl_version)),
        }),
{
    let systemd_version = match systemctl_version {
        Some(s) => {
            let ls = lines_of(&chars_of(s));
            if ls.len() > 0 {
                to_string(&ls[0])
            } else {
                owned("unknown")
            }
        },
        None => owned("unknown"),
    };
    SystemInfo {
        hostname: trimmed_or_unknown_of(hostname),
        kernel: trimmed_or_unknown_of(kernel),
        uptime: trimmed_or_unknown_of(uptime),
        systemd_version,
    }
}

/// The message for a `systemctl <action> <unit>` run that could be started: a report of
/// success, or of failure with what it printed on stderr, trimmed.
pub open spec fn action_outcome(unit: Seq<char>, action: Seq<char>, success: bool, stderr: Seq<
    char,
>) -> Result<Seq<char>, Seq<char>> {
    if success {
        Ok("Successfully "@ + action + "ed "@ + unit)
    } else {
        Err("Failed to "@ + action + " "@ + unit + ": "@ + trim(stderr))
    }
}

/// The characters of a result of strings.
pub open spec fn result_text(r: Result<String, String>) -> Result<Seq<char>, Seq<char>> {
    match r {
        Ok(s) => Ok(s@),
        Err(e) => Err(e@),
    }
}

/// The message for a `systemctl <action> <unit>` run that could be started.
pub fn service_action_outcome(unit: &str, action: &str, success: bool, stderr: &str) -> (r: Result<
    String,
    String,
>)
    ensures
        result_text(r) == action_outcome(unit@, action@, success, stderr@),
{
    let mut m: Vec<char> = Vec::new();
    if success {
        push_all(&mut m, &chars_of("Successfully "));
        push_all(&mut m, &chars_of(action));
        push_all(&mut m, &chars_of("ed "));
        push_all(&mut m, &chars_of(unit));
        assert(m@ =~= "Successfully "@ + action@ + "ed "@ + unit@);
        Ok(to_string(&m))
    } else {
        push_all(&mut m, &chars_of("Failed to "));
        push_all(&mut m, &chars_of(action));
        push_all(&mut m, &chars_of(" "));
        push_all(&mut m, &chars_of(unit));
        push_all(&mut m, &chars_of(": "));
        push_all(&mut m, &trim_of(&chars_of(stderr)));
        assert(m@ =~= "Failed to "@ + action@ + " "@ + unit@ + ": "@ + trim(stderr@));
        Err(to_string(&m))
    }
}

} // verus!
