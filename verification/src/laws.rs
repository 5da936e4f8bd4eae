use vstd::prelude::*;

use crate::dashboard::{
    passes, after_key, key_outcome, max_scroll_for, max_scroll_of, next_tab, passes_filter, shown_services, Action, App,
    Key, KeyCode, Tab,
};
use crate::systemd::{
    priority_of, blame_rows, boot_scan, first_lines, journal_in, journal_line, service_of_line, services_in,
    status_text, ServiceInfo,
};
use crate::text::{
    split_from, splitn, all_ascii, ascii_lower, ascii_lower_char, contains, find, lemma_find_from, lowercase, matches_at,
    after_last, decimal, digit_char, digits_value, first_from, is_ws, lemma_first_from, trim, words, words_from,
    Class,
};

verus! {

/// Pressing Tab three times comes back to the tab one started from.
pub proof fn tab_cycle_returns(t: Tab)
    ensures
        next_tab(next_tab(next_tab(t))) == t,
{
}

/// The units shown under any filter are units of the list, never more of them than the
/// list holds.
pub proof fn shown_services_come_from_the_list(services: Seq<ServiceInfo>, filter: Seq<char>)
    ensures
        shown_services(services, filter).len() <= services.len(),
        forall|i: int|
            0 <= i < shown_services(services, filter).len() ==> services.contains(
                #[trigger] shown_services(services, filter)[i],
            ),
{
    if filter.len() > 0 {
        let keep = passes_filter(crate::text::lowercase(filter));
        services.lemma_filter_len(keep);
        assert forall|i: int| 0 <= i < services.filter(keep).len() implies services.contains(
            #[trigger] services.filter(keep)[i],
        ) by {
            services.lemma_filter_contains_rev(keep, services.filter(keep)[i]);
        }
    } else {
        assert forall|i: int| 0 <= i < services.len() implies services.contains(
            #[trigger] services[i],
        ) by {}
    }
}

/// With an empty filter every unit is shown, in order.
pub proof fn empty_filter_shows_every_service(services: Seq<ServiceInfo>)
    ensures
        shown_services(services, Seq::<char>::empty()) == services,
{
}

/// After any key, the scroll position lies within the list left in view, so that the
/// rows drawn from it are never out of range.
pub proof fn scroll_stays_within_the_list(app: App, key: Key)
    ensures
        after_key(app, key).0.scroll <= max_scroll_for(app, after_key(app, key).0),
{
}

/// Outside the filter prompt, with the position within its list, a key moves exactly as
/// it asks: keeping the position in the list never changes what a key does there.
pub proof fn keys_outside_the_prompt_need_no_correction(app: App, key: Key)
    requires
        !app.filter_active,
        app.scroll <= max_scroll_of(app),
    ensures
        after_key(app, key).0 == key_outcome(app, key).0,
{
    if app.tab == Tab::Services {
        shown_services_come_from_the_list(app.services@, app.filter@);
    }
    assert(key_outcome(app, key).0.scroll <= max_scroll_for(app, key_outcome(app, key).0));
}

/// While the filter is typed, no key quits, reloads or switches tab, and the scroll
/// position only ever moves up, to stay within a list the filter made shorter.
pub proof fn filter_prompt_only_edits_the_filter(app: App, key: Key)
    requires
        app.filter_active,
    ensures
        after_key(app, key).1 == Action::Continue,
        after_key(app, key).0.tab == app.tab,
        after_key(app, key).0.scroll <= app.scroll,
{
}

/// Esc at the filter prompt leaves it and shows every unit again.
pub proof fn escape_drops_the_filter(app: App, ctrl: bool)
    requires
        app.filter_active,
    ensures
        !after_key(app, Key { code: KeyCode::Esc, ctrl }).0.filter_active,
        shown_services(app.services@, after_key(app, Key { code: KeyCode::Esc, ctrl }).0.filter)
            == app.services@,
{
}

/// The status word of a unit is one of eleven fixed words.
pub proof fn status_is_a_known_word(active: Seq<char>, sub: Seq<char>)
    ensures
        ({
            let w = status_text(active, sub);
            ||| w == "running"@
            ||| w == "exited"@
            ||| w == "waiting"@
            ||| w == "mounted"@
            ||| w == "listening"@
            ||| w == "active"@
            ||| w == "inactive"@
            ||| w == "failed"@
            ||| w == "activating"@
            ||| w == "deactivating"@
            ||| w == "unknown"@
        }),
{
}

proof fn blame_rows_len(ls: Seq<Seq<char>>)
    ensures
        blame_rows(ls).len() <= ls.len(),
    decreases ls.len(),
{
    if ls.len() > 0 {
        blame_rows_len(ls.drop_last());
    }
}

/// The blame list never holds more entries than the number of lines asked for.
pub proof fn blame_stays_within_limit(ls: Seq<Seq<char>>, limit: nat)
    ensures
        blame_rows(first_lines(ls, limit)).len() <= limit,
{
    blame_rows_len(first_lines(ls, limit));
}

/// Every journal entry gets a syslog priority, from 0 to 7.
pub proof fn journal_priorities_are_syslog_levels(ls: Seq<Seq<char>>)
    ensures
        forall|i: int| 0 <= i < journal_in(ls).len() ==> #[trigger] journal_in(ls)[i].priority <= 7,
    decreases ls.len(),
{
    if ls.len() > 0 {
        journal_priorities_are_syslog_levels(ls.drop_last());
        let rest = journal_in(ls.drop_last());
        let e = journal_line(trim(ls.last()));
        assert(e.priority <= 7);
        assert forall|i: int| 0 <= i < journal_in(ls).len() implies #[trigger] journal_in(ls)[i].priority <= 7 by {
            if i < rest.len() {
                assert(journal_in(ls)[i] == rest[i]);
            }
        }
    }
}

/// Every word that `split_whitespace` gives is non-empty and holds no white space.
pub proof fn words_are_blank_free(s: Seq<char>, p: int)
    requires
        0 <= p,
    ensures
        forall|i: int|
            0 <= i < words_from(s, p).len() ==> (#[trigger] words_from(s, p)[i]).len() > 0
                && forall|j: int| 0 <= j < words_from(s, p)[i].len() ==> !is_ws(words_from(s, p)[i][j]),
    decreases s.len() - p,
{
    if p < s.len() {
        if is_ws(s[p]) {
            words_are_blank_free(s, p + 1);
            assert(words_from(s, p) == words_from(s, p + 1));
        } else {
            lemma_first_from(s, p, Class::Space);
            let k = first_from(s, p, Class::Space);
            words_are_blank_free(s, k);
            let w = s.subrange(p, k);
            assert(k > p);
            assert forall|j: int| 0 <= j < w.len() implies !is_ws(w[j]) by {
                assert(w[j] == s[p + j]);
            }
            let rest = words_from(s, k);
            assert(words_from(s, p) == seq![w] + rest);
            assert forall|i: int| 0 <= i < words_from(s, p).len() implies (#[trigger] words_from(s, p)[i]).len() > 0
                && forall|j: int| 0 <= j < words_from(s, p)[i].len() ==> !is_ws(words_from(s, p)[i][j]) by {
                if i > 0 {
                    assert(words_from(s, p)[i] == rest[i - 1]);
                } else {
                    assert(words_from(s, p)[i] == w);
                }
            }
        }
    }
}

/// The load state, active state and sub-state of every listed unit are single words:
/// non-empty and free of white space.
pub proof fn service_states_are_words(ls: Seq<Seq<char>>)
    ensures
        forall|i: int|
            0 <= i < services_in(ls).len() ==> {
                let s = #[trigger] services_in(ls)[i];
                &&& s.load_state.len() > 0 && forall|j: int| 0 <= j < s.load_state.len() ==> !is_ws(s.load_state[j])
                &&& s.active_state.len() > 0 && forall|j: int| 0 <= j < s.active_state.len() ==> !is_ws(s.active_state[j])
                &&& s.sub_state.len() > 0 && forall|j: int| 0 <= j < s.sub_state.len() ==> !is_ws(s.sub_state[j])
            },
    decreases ls.len(),
{
    if ls.len() > 0 {
        service_states_are_words(ls.drop_last());
        let toks = words(trim(ls.last()));
        words_are_blank_free(trim(ls.last()), 0);
        let rest = services_in(ls.drop_last());
        match service_of_line(ls.last()) {
            Some(x) => {
                assert(toks.len() >= 4);
                assert(x.load_state == toks[1] && x.active_state == toks[2] && x.sub_state == toks[3]);
                assert(services_in(ls) == rest.push(x));
                assert forall|i: int| 0 <= i < services_in(ls).len() implies {
                    let s = #[trigger] services_in(ls)[i];
                    &&& s.load_state.len() > 0 && forall|j: int| 0 <= j < s.load_state.len() ==> !is_ws(s.load_state[j])
                    &&& s.active_state.len() > 0 && forall|j: int| 0 <= j < s.active_state.len() ==> !is_ws(s.active_state[j])
                    &&& s.sub_state.len() > 0 && forall|j: int| 0 <= j < s.sub_state.len() ==> !is_ws(s.sub_state[j])
                } by {
                    if i < rest.len() {
                        assert(services_in(ls)[i] == rest[i]);
                    } else {
                        assert(services_in(ls)[i] == x);
                        assert(toks[1] == words_from(trim(ls.last()), 0)[1]);
                    }
                }
            },
            None => {},
        }
    }
}

/// Every listed unit's name is free of the `'●'` marks that `systemctl` puts before
/// failed units: it never starts with one.
pub proof fn service_names_drop_the_bullet(ls: Seq<Seq<char>>)
    ensures
        forall|i: int|
            0 <= i < services_in(ls).len() ==> {
                let n = (#[trigger] services_in(ls)[i]).name;
                n.len() == 0 || n[0] != '●'
            },
    decreases ls.len(),
{
    if ls.len() > 0 {
        service_names_drop_the_bullet(ls.drop_last());
        let rest = services_in(ls.drop_last());
        match service_of_line(ls.last()) {
            Some(x) => {
                let toks = words(trim(ls.last()));
                words_are_blank_free(trim(ls.last()), 0);
                let w = toks[0];
                assert(w == words_from(trim(ls.last()), 0)[0]);
                lemma_first_from(w, 0, Class::Other('●'));
                let k = first_from(w, 0, Class::Other('●'));
                let y = w.subrange(k, w.len() as int);
                if y.len() > 0 {
                    assert(!is_ws(y[0]) && y[0] == w[k]);
                    assert(!is_ws(y[y.len() - 1]) && y[y.len() - 1] == w[w.len() - 1]);
                    assert(first_from(y, 0, Class::NonSpace) == 0);
                    assert(y.subrange(0, y.len() as int) =~= y);
                    assert(after_last(y, y.len() as int, Class::NonSpace) == y.len());
                    assert(trim(y) =~= y);
                }
                assert(services_in(ls) == rest.push(x));
                assert forall|i: int| 0 <= i < services_in(ls).len() implies {
                    let n = (#[trigger] services_in(ls)[i]).name;
                    n.len() == 0 || n[0] != '●'
                } by {
                    if i < rest.len() {
                        assert(services_in(ls)[i] == rest[i]);
                    }
                }
            },
            None => {},
        }
    }
}

/// The boot report keeps the whole output it was read from.
pub proof fn boot_report_keeps_the_output(ls: Seq<Seq<char>>, raw: Seq<char>)
    ensures
        boot_scan(ls, raw).raw_output == raw,
    decreases ls.len(),
{
    if ls.len() > 0 {
        boot_report_keeps_the_output(ls.drop_last(), raw);
    }
}

/// A numeral written by `decimal` reads back as the number, has no leading zero, and is
/// made of digits only.
pub proof fn decimal_reads_back(n: nat)
    ensures
        digits_value(decimal(n)) == n,
        decimal(n).len() >= 1,
        decimal(n)[0] == '0' ==> n == 0,
        forall|i: int| 0 <= i < decimal(n).len() ==> '0' <= #[trigger] decimal(n)[i] <= '9',
    decreases n,
{
    if n >= 10 {
        decimal_reads_back(n / 10);
        let d = decimal(n / 10);
        assert(decimal(n).drop_last() =~= d);
        assert((n / 10) * 10 + n % 10 == n) by (nonlinear_arith);
        assert(decimal(n)[0] == d[0]);
        let c = digit_char(n % 10);
        assert(decimal(n).last() == c);
        assert(c as nat == 48 + n % 10);
        assert(digits_value(decimal(n)) == digits_value(d) * 10 + n % 10);
        assert(digits_value(d) == n / 10);
        assert(digits_value(d) * 10 == (n / 10) * 10);
    } else {
        let c = digit_char(n);
        assert(c as nat == 48 + n);
        assert(decimal(n).drop_last() =~= Seq::<char>::empty());
        assert(digits_value(Seq::<char>::empty()) == 0);
        assert(digits_value(decimal(n)) == digits_value(Seq::<char>::empty()) * 10 + ((c as nat) - 48) as nat);
    }
}


proof fn contains_by_witness(h: Seq<char>, n: Seq<char>)
    ensures
        contains(h, n) <==> exists|i: int| matches_at(h, n, i),
{
    lemma_find_from(h, n, 0);
    if let Some(j) = find(h, n) {
        assert(matches_at(h, n, j));
    }
}

proof fn contains_is_transitive(a: Seq<char>, b: Seq<char>, c: Seq<char>)
    requires
        contains(a, b),
        contains(b, c),
    ensures
        contains(a, c),
{
    contains_by_witness(a, b);
    contains_by_witness(b, c);
    contains_by_witness(a, c);
    let i = choose|i: int| matches_at(a, b, i);
    let j = choose|j: int| matches_at(b, c, j);
    assert(a.subrange(i + j, i + j + c.len()) =~= c) by {
        assert forall|k: int| 0 <= k < c.len() implies a.subrange(i + j, i + j + c.len())[k] == c[k] by {
            assert(a.subrange(i, i + b.len())[j + k] == b[j + k]);
            assert(b.subrange(j, j + c.len())[k] == c[k]);
        }
    }
    assert(matches_at(a, c, i + j));
}

proof fn contains_survives_appending(h: Seq<char>, e: Seq<char>, n: Seq<char>)
    requires
        contains(h, n),
    ensures
        contains(h + e, n),
{
    contains_by_witness(h, n);
    contains_by_witness(h + e, n);
    let i = choose|i: int| matches_at(h, n, i);
    assert((h + e).subrange(i, i + n.len()) =~= h.subrange(i, i + n.len()));
    assert(matches_at(h + e, n, i));
}

proof fn filter_of_filter(s: Seq<ServiceInfo>, wide: spec_fn(ServiceInfo) -> bool, narrow: spec_fn(ServiceInfo) -> bool)
    requires
        forall|x: ServiceInfo| #[trigger] narrow(x) ==> wide(x),
    ensures
        s.filter(narrow) == s.filter(wide).filter(narrow),
    decreases s.len(),
{
    reveal(Seq::filter);
    if s.len() > 0 {
        filter_of_filter(s.drop_last(), wide, narrow);
        if wide(s.last()) {
            let w = s.drop_last().filter(wide);
            assert(w.push(s.last()).drop_last() =~= w);
        }
    }
}

/// Filters that are the same in lower case show the same units.
pub proof fn filter_ignores_case(services: Seq<ServiceInfo>, f1: Seq<char>, f2: Seq<char>)
    requires
        lowercase(f1) == lowercase(f2),
        (f1.len() == 0) == (f2.len() == 0),
    ensures
        shown_services(services, f1) == shown_services(services, f2),
{
}

/// A narrower filter only ever hides units: where the second filter, in lower case,
/// contains the first (or the first is empty), the units shown under the second are
/// those shown under the first that also pass the second, in the same order.
pub proof fn narrower_filter_only_hides(services: Seq<ServiceInfo>, f1: Seq<char>, f2: Seq<char>)
    requires
        f2.len() > 0,
        f1.len() == 0 || contains(lowercase(f2), lowercase(f1)),
    ensures
        shown_services(services, f2) == shown_services(services, f1).filter(
            passes_filter(lowercase(f2)),
        ),
        shown_services(services, f2).len() <= shown_services(services, f1).len(),
{
    let narrow = passes_filter(lowercase(f2));
    if f1.len() > 0 {
        let wide = passes_filter(lowercase(f1));
        assert forall|x: ServiceInfo| #[trigger] narrow(x) implies wide(x) by {
            if contains(lowercase(x.name@), lowercase(f2)) {
                contains_is_transitive(lowercase(x.name@), lowercase(f2), lowercase(f1));
            } else {
                contains_is_transitive(lowercase(x.description@), lowercase(f2), lowercase(f1));
            }
        }
        filter_of_filter(services, wide, narrow);
    }
    shown_services(services, f1).lemma_filter_len(narrow);
}

/// Appending text to a lower-case message never lowers the severity already found there,
/// once that severity is a notice or worse (priority 5 or less).
pub proof fn appending_keeps_severity(lower: Seq<char>, extra: Seq<char>)
    requires
        priority_of(lower) <= 5,
    ensures
        priority_of(lower + extra) <= priority_of(lower),
{
    let words = seq!["emerg"@, "panic"@, "alert"@, "crit"@, "error"@, "fail"@, "warn"@, "notice"@];
    assert forall|k: int| 0 <= k < words.len() && contains(lower, #[trigger] words[k]) implies contains(
        lower + extra,
        words[k],
    ) by {
        contains_survives_appending(lower, extra, words[k]);
    }
    assert(words[0] == "emerg"@ && words[1] == "panic"@ && words[2] == "alert"@ && words[3] == "crit"@);
    assert(words[4] == "error"@ && words[5] == "fail"@ && words[6] == "warn"@ && words[7] == "notice"@);
}

/// On ASCII text, lowering the case of a concatenation is concatenating the lowered parts.
pub proof fn ascii_lower_concat(a: Seq<char>, b: Seq<char>)
    ensures
        ascii_lower(a + b) == ascii_lower(a) + ascii_lower(b),
        all_ascii(a) && all_ascii(b) ==> all_ascii(a + b),
{
    assert(ascii_lower(a + b) =~= ascii_lower(a) + ascii_lower(b));
    if all_ascii(a) && all_ascii(b) {
        assert forall|i: int| 0 <= i < (a + b).len() implies ((a + b)[i] as u32) < 128 by {
            if i < a.len() {
                assert((a + b)[i] == a[i]);
            } else {
                assert((a + b)[i] == b[i - a.len()]);
            }
        }
    }
}

/// For ASCII messages, whose lower case `guess_priority` reads as `ascii_lower`, appending
/// text never lowers a severity of notice or worse.
pub proof fn appending_keeps_ascii_severity(msg: Seq<char>, extra: Seq<char>)
    requires
        all_ascii(msg),
        all_ascii(extra),
        priority_of(ascii_lower(msg)) <= 5,
    ensures
        all_ascii(msg + extra),
        priority_of(ascii_lower(msg + extra)) <= priority_of(ascii_lower(msg)),
{
    ascii_lower_concat(msg, extra);
    appending_keeps_severity(ascii_lower(msg), ascii_lower(extra));
}


proof fn split_from_len(s: Seq<char>, p: int, n: nat)
    ensures
        split_from(s, p, n).len() <= if n == 0 { 1 } else { n as int },
    decreases n,
{
    let j = first_from(s, p, Class::Space);
    if !(n <= 1 || j >= s.len() || j < p) {
        split_from_len(s, j + 1, (n - 1) as nat);
    }
}

/// `splitn(n, ..)` gives at most `n` pieces.
pub proof fn splitn_has_at_most_n_pieces(s: Seq<char>, n: nat)
    ensures
        splitn(s, n).len() <= n,
{
    if n > 0 {
        split_from_len(s, 0, n);
    }
}

} // verus!
