use vstd::prelude::*;

verus! {

/// Unicode `White_Space` characters: the set that `char::is_whitespace`,
/// `str::trim` and `str::split_whitespace` treat as blanks.
pub open spec fn is_ws(c: char) -> bool {
    ||| ('\t' <= c && c <= '\r')
    ||| c == ' '
    ||| c == '\u{85}'
    ||| c == '\u{A0}'
    ||| c == '\u{1680}'
    ||| ('\u{2000}' <= c && c <= '\u{200A}')
    ||| c == '\u{2028}'
    ||| c == '\u{2029}'
    ||| c == '\u{202F}'
    ||| c == '\u{205F}'
    ||| c == '\u{3000}'
}

/// Whether `c` is white space, as `char::is_whitespace` decides it.
pub fn is_whitespace(c: char) -> (b: bool)
    ensures
        b == is_ws(c),
{
    ('\t' <= c && c <= '\r') || c == ' ' || c == '\u{85}' || c == '\u{A0}' || c == '\u{1680}'
        || ('\u{2000}' <= c && c <= '\u{200A}') || c == '\u{2028}' || c == '\u{2029}'
        || c == '\u{202F}' || c == '\u{205F}' || c == '\u{3000}'
}

/// A set of characters that a scan looks for.
#[derive(Clone, Copy)]
pub enum Class {
    /// White space.
    Space,
    /// Anything but white space.
    NonSpace,
    /// One given character.
    Is(char),
    /// Any character but the given one.
    Other(char),
    /// `'+'`, `' '` or `'\t'`: what may stand before a duration in a boot summary.
    PlusOrBlank,
    /// Anything but `' '` and `'\t'`.
    NonBlank,
    /// Anything but a decimal digit or `'.'`.
    NonNumeric,
}

pub open spec fn in_class(c: char, k: Class) -> bool {
    match k {
        Class::Space => is_ws(c),
        Class::NonSpace => !is_ws(c),
        Class::Is(d) => c == d,
        Class::Other(d) => c != d,
        Class::PlusOrBlank => c == '+' || c == ' ' || c == '\t',
        Class::NonBlank => c != ' ' && c != '\t',
        Class::NonNumeric => !(('0' <= c && c <= '9') || c == '.'),
    }
}

pub fn is_in(c: char, k: Class) -> (b: bool)
    ensures
        b == in_class(c, k),
{
    match k {
        Class::Space => is_whitespace(c),
        Class::NonSpace => !is_whitespace(c),
        Class::Is(d) => c == d,
        Class::Other(d) => c != d,
        Class::PlusOrBlank => c == '+' || c == ' ' || c == '\t',
        Class::NonBlank => c != ' ' && c != '\t',
        Class::NonNumeric => !(('0' <= c && c <= '9') || c == '.'),
    }
}

/// The first index at or after `i` whose character is in `k`, or `s.len()` if there is none.
pub open spec fn first_from(s: Seq<char>, i: int, k: Class) -> int
    decreases s.len() - i,
{
    if i >= s.len() {
        s.len() as int
    } else if in_class(s[i], k) {
        i
    } else {
        first_from(s, i + 1, k)
    }
}

/// One past the last index before `j` whose character is in `k`, or 0 if there is none.
pub open spec fn after_last(s: Seq<char>, j: int, k: Class) -> int
    decreases j,
{
    if j <= 0 {
        0
    } else if in_class(s[j - 1], k) {
        j
    } else {
        after_last(s, j - 1, k)
    }
}

pub proof fn lemma_first_from(s: Seq<char>, i: int, k: Class)
    requires
        0 <= i <= s.len(),
    ensures
        i <= first_from(s, i, k) <= s.len(),
        forall|j: int| i <= j < first_from(s, i, k) ==> !in_class(#[trigger] s[j], k),
        first_from(s, i, k) < s.len() ==> in_class(s[first_from(s, i, k)], k),
    decreases s.len() - i,
{
    if i < s.len() && !in_class(s[i], k) {
        lemma_first_from(s, i + 1, k);
    }
}

pub proof fn lemma_after_last(s: Seq<char>, j: int, k: Class)
    requires
        0 <= j <= s.len(),
    ensures
        0 <= after_last(s, j, k) <= j,
        forall|m: int| after_last(s, j, k) <= m < j ==> !in_class(#[trigger] s[m], k),
        after_last(s, j, k) > 0 ==> in_class(s[after_last(s, j, k) - 1], k),
    decreases j,
{
    if j > 0 && !in_class(s[j - 1], k) {
        lemma_after_last(s, j - 1, k);
    }
}

/// Scans `v` from `i` for the first character in `k`.
pub fn first_in(v: &Vec<char>, i: usize, k: Class) -> (r: usize)
    requires
        i <= v.len(),
    ensures
        r == first_from(v@, i as int, k),
{
    let mut j = i;
    while j < v.len()
        invariant
            i <= j <= v.len(),
            first_from(v@, i as int, k) == first_from(v@, j as int, k),
        decreases v.len() - j,
    {
        if is_in(v[j], k) {
            return j;
        }
        j = j + 1;
    }
    j
}

/// Scans `v` backwards from `j` for the last character in `k`; one past its index, or 0.
pub fn after_last_in(v: &Vec<char>, j: usize, k: Class) -> (r: usize)
    requires
        j <= v.len(),
    ensures
        r == after_last(v@, j as int, k),
{
    let mut m = j;
    while m > 0
        invariant
            m <= j <= v.len(),
            after_last(v@, j as int, k) == after_last(v@, m as int, k),
        decreases m,
    {
        if is_in(v[m - 1], k) {
            return m;
        }
        m = m - 1;
    }
    0
}

/// The characters of `s`, in order.
pub fn chars_of(s: &str) -> (v: Vec<char>)
    ensures
        v@ == s@,
{
    let mut v: Vec<char> = Vec::new();
    for c in it: s.chars()
        invariant
            v@ == it.seq().take(it.index() as int),
            it.seq() == s@,
    {
        v.push(c);
    }
    v
}


/// `String::push`: appends one character at the end of the string.
#[verifier::external_body]
pub(crate) fn push_char(s: &mut String, c: char)
    ensures
        final(s)@ == old(s)@.push(c),
{
    s.push(c);
}

/// `String::pop`: removes the last character, if there is one, and returns it.
#[verifier::external_body]
pub(crate) fn pop_char(s: &mut String) -> (r: Option<char>)
    ensures
        old(s)@.len() > 0 ==> final(s)@ == old(s)@.drop_last() && r == Some(old(s)@.last()),
        old(s)@.len() == 0 ==> final(s)@ == old(s)@ && r is None,
{
    s.pop()
}

/// A `String` holding exactly the characters of `v`.
pub fn to_string(v: &Vec<char>) -> (s: String)
    ensures
        s@ == v@,
{
    let mut s = String::new();
    let mut i: usize = 0;
    while i < v.len()
        invariant
            i <= v.len(),
            s@ == v@.take(i as int),
        decreases v.len() - i,
    {
        push_char(&mut s, v[i]);
        i = i + 1;
        assert(s@ =~= v@.take(i as int));
    }
    assert(v@.take(i as int) =~= v@);
    s
}

/// The characters of `v` from index `a` up to, not including, index `b`.
pub fn slice_of(v: &Vec<char>, a: usize, b: usize) -> (r: Vec<char>)
    requires
        a <= b <= v.len(),
    ensures
        r@ == v@.subrange(a as int, b as int),
{
    let mut r: Vec<char> = Vec::new();
    let mut i = a;
    while i < b
        invariant
            a <= i <= b <= v.len(),
            r@ == v@.subrange(a as int, i as int),
        decreases b - i,
    {
        r.push(v[i]);
        i = i + 1;
        assert(r@ =~= v@.subrange(a as int, i as int));
    }
    r
}

/// `s` without its leading white space (`str::trim_start`).
pub open spec fn trim_start(s: Seq<char>) -> Seq<char> {
    s.subrange(first_from(s, 0, Class::NonSpace), s.len() as int)
}

/// `s` without its trailing white space (`str::trim_end`).
pub open spec fn trim_end(s: Seq<char>) -> Seq<char> {
    s.subrange(0, after_last(s, s.len() as int, Class::NonSpace))
}

/// `s` without leading and trailing white space (`str::trim`).
pub open spec fn trim(s: Seq<char>) -> Seq<char> {
    trim_end(trim_start(s))
}

pub fn trim_start_of(v: &Vec<char>) -> (r: Vec<char>)
    ensures
        r@ == trim_start(v@),
{
    let a = first_in(v, 0, Class::NonSpace);
    proof { lemma_first_from(v@, 0, Class::NonSpace); }
    slice_of(v, a, v.len())
}

pub fn trim_end_of(v: &Vec<char>) -> (r: Vec<char>)
    ensures
        r@ == trim_end(v@),
{
    let b = after_last_in(v, v.len(), Class::NonSpace);
    proof { lemma_after_last(v@, v@.len() as int, Class::NonSpace); }
    slice_of(v, 0, b)
}

pub fn trim_of(v: &Vec<char>) -> (r: Vec<char>)
    ensures
        r@ == trim(v@),
{
    let t = trim_start_of(v);
    trim_end_of(&t)
}

/// Whether `n` occurs in `h` starting at index `i`.
pub open spec fn matches_at(h: Seq<char>, n: Seq<char>, i: int) -> bool {
    0 <= i && i + n.len() <= h.len() && h.subrange(i, i + n.len()) == n
}

/// The first index at or after `i` where `n` occurs in `h` (`str::find` from `i`).
pub open spec fn find_from(h: Seq<char>, n: Seq<char>, i: int) -> Option<int>
    decreases h.len() + 1 - i,
{
    if i < 0 || i + n.len() > h.len() {
        None
    } else if matches_at(h, n, i) {
        Some(i)
    } else {
        find_from(h, n, i + 1)
    }
}

/// The first index where `n` occurs in `h` (`str::find`).
pub open spec fn find(h: Seq<char>, n: Seq<char>) -> Option<int> {
    find_from(h, n, 0)
}

/// Whether `n` occurs in `h` (`str::contains`).
pub open spec fn contains(h: Seq<char>, n: Seq<char>) -> bool {
    find(h, n) is Some
}

pub proof fn lemma_find_from(h: Seq<char>, n: Seq<char>, i: int)
    requires
        0 <= i,
    ensures
        find_from(h, n, i) matches Some(j) ==> i <= j && matches_at(h, n, j),
        forall|m: int| i <= m && (find_from(h, n, i) matches Some(j) ==> m < j) ==> !matches_at(h, n, m),
    decreases h.len() + 1 - i,
{
    if i + n.len() <= h.len() && !matches_at(h, n, i) {
        lemma_find_from(h, n, i + 1);
    }
}

/// Whether `n` occurs in `h` at index `i`.
pub fn matches_here(h: &Vec<char>, n: &Vec<char>, i: usize) -> (b: bool)
    ensures
        b == matches_at(h@, n@, i as int),
{
    if i > h.len() || n.len() > h.len() - i {
        return false;
    }
    let mut k: usize = 0;
    while k < n.len()
        invariant
            i + n.len() <= h.len(),
            k <= n.len(),
            forall|m: int| 0 <= m < k ==> h@[i + m] == n@[m],
        decreases n.len() - k,
    {
        if h[i + k] != n[k] {
            assert(h@.subrange(i as int, i + n.len())[k as int] != n@[k as int]);
            return false;
        }
        k = k + 1;
    }
    assert(h@.subrange(i as int, i + n.len()) =~= n@);
    true
}

/// The first index where `n` occurs in `h`.
pub fn find_in(h: &Vec<char>, n: &Vec<char>) -> (r: Option<usize>)
    ensures
        r matches Some(j) ==> find(h@, n@) == Some(j as int),
        r is None ==> find(h@, n@) is None,
{
    if n.len() > h.len() {
        return None;
    }
    if n.len() == 0 {
        assert(h@.subrange(0, 0) =~= n@);
        return Some(0);
    }
    let mut i: usize = 0;
    while i <= h.len() - n.len()
        invariant
            1 <= n.len() <= h.len(),
            i <= h.len() - n.len() + 1,
            find(h@, n@) == find_from(h@, n@, i as int),
        decreases h.len() - n.len() + 1 - i,
    {
        if matches_here(h, n, i) {
            return Some(i);
        }
        i = i + 1;
    }
    None
}

/// Whether `n` occurs in `h`.
pub fn contains_in(h: &Vec<char>, n: &Vec<char>) -> (b: bool)
    ensures
        b == contains(h@, n@),
{
    find_in(h, n).is_some()
}


/// The character sequences that the vectors of `vs` hold.
pub open spec fn texts(vs: Seq<Vec<char>>) -> Seq<Seq<char>> {
    vs.map_values(|v: Vec<char>| v@)
}

/// `l` without one trailing carriage return, if it ends in one.
pub open spec fn strip_cr(l: Seq<char>) -> Seq<char> {
    if l.len() > 0 && l.last() == '\r' {
        l.drop_last()
    } else {
        l
    }
}

/// The lines of `s` from index `p` on, as `str::lines` gives them: split after each
/// `'\n'`, the `'\n'` and a `'\r'` just before it removed, no empty last line.
pub open spec fn lines_from(s: Seq<char>, p: int) -> Seq<Seq<char>>
    decreases s.len() - p,
{
    if p < 0 || p >= s.len() {
        seq![]
    } else {
        let j = first_from(s, p, Class::Is('\n'));
        if j >= s.len() || j < p {
            seq![s.subrange(p, s.len() as int)]
        } else {
            seq![strip_cr(s.subrange(p, j))] + lines_from(s, j + 1)
        }
    }
}

/// The lines of `s` (`str::lines`).
pub open spec fn lines(s: Seq<char>) -> Seq<Seq<char>> {
    lines_from(s, 0)
}

/// The lines of `v`.
pub fn lines_of(v: &Vec<char>) -> (out: Vec<Vec<char>>)
    ensures
        texts(out@) == lines(v@),
{
    let mut out: Vec<Vec<char>> = Vec::new();
    let mut p: usize = 0;
    while p < v.len()
        invariant
            p <= v.len(),
            texts(out@) + lines_from(v@, p as int) == lines(v@),
        decreases v.len() - p,
    {
        let j = first_in(v, p, Class::Is('\n'));
        proof { lemma_first_from(v@, p as int, Class::Is('\n')); }
        let ghost before = texts(out@);
        if j == v.len() {
            let line = slice_of(v, p, j);
            out.push(line);
            assert(texts(out@) =~= before.push(v@.subrange(p as int, v@.len() as int)));
            assert(lines_from(v@, v@.len() as int) =~= Seq::<Seq<char>>::empty());
            assert(texts(out@) + lines_from(v@, v@.len() as int) =~= before + lines_from(
                v@,
                p as int,
            ));
            p = j;
        } else {
            let mut line = slice_of(v, p, j);
            if line.len() > 0 && line[line.len() - 1] == '\r' {
                line.pop();
            }
            assert(line@ == strip_cr(v@.subrange(p as int, j as int)));
            out.push(line);
            assert(texts(out@) =~= before.push(strip_cr(v@.subrange(p as int, j as int))));
            assert(texts(out@) + lines_from(v@, j + 1) =~= before + lines_from(v@, p as int));
            p = j + 1;
        }
    }
    assert(lines_from(v@, p as int) =~= Seq::<Seq<char>>::empty());
    assert(texts(out@) =~= texts(out@) + lines_from(v@, p as int));
    out
}

/// The white-space separated words of `s` from index `p` on (`str::split_whitespace`).
pub open spec fn words_from(s: Seq<char>, p: int) -> Seq<Seq<char>>
    decreases s.len() - p,
{
    if p < 0 || p >= s.len() {
        seq![]
    } else if is_ws(s[p]) {
        words_from(s, p + 1)
    } else {
        let k = first_from(s, p, Class::Space);
        if k <= p || k > s.len() {
            seq![]
        } else {
            seq![s.subrange(p, k)] + words_from(s, k)
        }
    }
}

/// The white-space separated words of `s` (`str::split_whitespace`).
pub open spec fn words(s: Seq<char>) -> Seq<Seq<char>> {
    words_from(s, 0)
}

/// The words of `v`.
pub fn words_of(v: &Vec<char>) -> (out: Vec<Vec<char>>)
    ensures
        texts(out@) == words(v@),
{
    let mut out: Vec<Vec<char>> = Vec::new();
    let mut p: usize = 0;
    while p < v.len()
        invariant
            p <= v.len(),
            texts(out@) + words_from(v@, p as int) == words(v@),
        decreases v.len() - p,
    {
        if is_whitespace(v[p]) {
            p = p + 1;
        } else {
            let k = first_in(v, p, Class::Space);
            proof { lemma_first_from(v@, p as int, Class::Space); }
            let ghost before = texts(out@);
            let w = slice_of(v, p, k);
            out.push(w);
            assert(texts(out@) =~= before.push(v@.subrange(p as int, k as int)));
            assert(texts(out@) + words_from(v@, k as int) =~= before + words_from(v@, p as int));
            p = k;
        }
    }
    assert(words_from(v@, p as int) =~= Seq::<Seq<char>>::empty());
    assert(texts(out@) =~= texts(out@) + words_from(v@, p as int));
    out
}

/// The pieces of `s` from index `p` on when split at its first `n - 1` white-space
/// characters; the last piece keeps the rest (`str::splitn(n, char::is_whitespace)`).
pub open spec fn split_from(s: Seq<char>, p: int, n: nat) -> Seq<Seq<char>>
    decreases n,
{
    let j = first_from(s, p, Class::Space);
    if n <= 1 || j >= s.len() || j < p {
        seq![s.subrange(p, s.len() as int)]
    } else {
        seq![s.subrange(p, j)] + split_from(s, j + 1, (n - 1) as nat)
    }
}

/// `str::splitn(n, char::is_whitespace)` on `s`: no piece at all for `n == 0`.
pub open spec fn splitn(s: Seq<char>, n: nat) -> Seq<Seq<char>> {
    if n == 0 {
        seq![]
    } else {
        split_from(s, 0, n)
    }
}

/// The pieces of `v` split at its first `n - 1` white-space characters.
pub fn splitn_of(v: &Vec<char>, n: usize) -> (out: Vec<Vec<char>>)
    ensures
        texts(out@) == splitn(v@, n as nat),
{
    let mut out: Vec<Vec<char>> = Vec::new();
    if n == 0 {
        assert(texts(out@) =~= Seq::<Seq<char>>::empty());
        return out;
    }
    let mut p: usize = 0;
    let mut left: usize = n;
    loop
        invariant
            p <= v.len(),
            1 <= left <= n,
            texts(out@) + split_from(v@, p as int, left as nat) == splitn(v@, n as nat),
        decreases left,
    {
        let j = first_in(v, p, Class::Space);
        proof { lemma_first_from(v@, p as int, Class::Space); }
        let ghost before = texts(out@);
        if left <= 1 || j >= v.len() {
            let last = slice_of(v, p, v.len());
            out.push(last);
            assert(texts(out@) =~= before + split_from(v@, p as int, left as nat));
            return out;
        }
        let piece = slice_of(v, p, j);
        out.push(piece);
        assert(texts(out@) + split_from(v@, j + 1, (left - 1) as nat) =~= before + split_from(
            v@,
            p as int,
            left as nat,
        ));
        p = j + 1;
        left = left - 1;
    }
}

/// The pieces of `parts` joined into one sequence with `sep` between neighbours (`join`).
pub open spec fn join(parts: Seq<Seq<char>>, sep: Seq<char>) -> Seq<char>
    decreases parts.len(),
{
    if parts.len() == 0 {
        seq![]
    } else if parts.len() == 1 {
        parts[0]
    } else {
        join(parts.drop_last(), sep) + sep + parts.last()
    }
}

/// The pieces `parts[from..to]` joined with the single character `sep` between neighbours.
pub fn join_range(parts: &Vec<Vec<char>>, from: usize, to: usize, sep: char) -> (r: Vec<char>)
    requires
        from <= to <= parts.len(),
    ensures
        r@ == join(texts(parts@).subrange(from as int, to as int), seq![sep]),
{
    let mut r: Vec<char> = Vec::new();
    let mut i = from;
    let ghost all = texts(parts@);
    assert(all.subrange(from as int, from as int) =~= Seq::<Seq<char>>::empty());
    while i < to
        invariant
            from <= i <= to <= parts.len(),
            all == texts(parts@),
            r@ == join(all.subrange(from as int, i as int), seq![sep]),
        decreases to - i,
    {
        if i > from {
            r.push(sep);
        }
        let mut k: usize = 0;
        let ghost mid = r@;
        while k < parts[i].len()
            invariant
                from <= i < parts.len(),
                k <= parts[i as int]@.len(),
                r@ == mid + parts[i as int]@.take(k as int),
            decreases parts[i as int]@.len() - k,
        {
            r.push(parts[i][k]);
            k = k + 1;
            assert(r@ =~= mid + parts[i as int]@.take(k as int));
        }
        assert(parts[i as int]@.take(k as int) =~= parts[i as int]@);
        let ghost next = all.subrange(from as int, i + 1);
        assert(next.drop_last() =~= all.subrange(from as int, i as int));
        assert(next.last() == all[i as int]);
        assert(r@ =~= join(next, seq![sep]));
        i = i + 1;
    }
    r
}

/// Appends the characters of `src` to `dst`.
pub fn push_all(dst: &mut Vec<char>, src: &Vec<char>)
    ensures
        final(dst)@ == old(dst)@ + src@,
{
    let ghost start = dst@;
    let mut i: usize = 0;
    while i < src.len()
        invariant
            i <= src.len(),
            dst@ == start + src@.take(i as int),
        decreases src.len() - i,
    {
        dst.push(src[i]);
        i = i + 1;
        assert(dst@ =~= start + src@.take(i as int));
    }
    assert(src@.take(i as int) =~= src@);
}

/// Whether `a` and `b` hold the same characters.
pub fn same_chars(a: &Vec<char>, b: &Vec<char>) -> (r: bool)
    ensures
        r == (a@ == b@),
{
    if a.len() != b.len() {
        return false;
    }
    let mut i: usize = 0;
    while i < a.len()
        invariant
            a.len() == b.len(),
            i <= a.len(),
            forall|m: int| 0 <= m < i ==> a@[m] == b@[m],
        decreases a.len() - i,
    {
        if a[i] != b[i] {
            return false;
        }
        i = i + 1;
    }
    assert(a@ =~= b@);
    true
}

/// What `str::to_lowercase` returns for a string: its lowercase equivalent under
/// Unicode's full case mapping, which can change the length.
pub uninterp spec fn lowercase(s: Seq<char>) -> Seq<char>;

/// One ASCII character in lower case: `'A'..='Z'` become `'a'..='z'`, the rest stay.
pub open spec fn ascii_lower_char(c: char) -> char {
    if 'A' <= c && c <= 'Z' {
        ((c as u32) + 32) as char
    } else {
        c
    }
}

/// Each character of `s` by [`ascii_lower_char`].
pub open spec fn ascii_lower(s: Seq<char>) -> Seq<char> {
    s.map_values(|c: char| ascii_lower_char(c))
}

/// Whether every character of `s` is ASCII.
pub open spec fn all_ascii(s: Seq<char>) -> bool {
    forall|i: int| 0 <= i < s.len() ==> (s[i] as u32) < 128
}

/// `str::to_lowercase`. The contract names the result; of it, it states only what
/// Unicode's case mapping does on ASCII text: upper-case letters become lower-case, all
/// other ASCII characters stay; and, as every character lowercases to one or more
/// characters, that the result is empty exactly when the text is. The mapping of other
/// characters is not written out here.
#[verifier::external_body]
pub(crate) fn to_lowercase(s: &str) -> (r: String)
    ensures
        r@ == lowercase(s@),
        all_ascii(s@) ==> r@ == ascii_lower(s@),
        r@.len() == 0 <==> s@.len() == 0,
{
    s.to_lowercase()
}


/// The character sequences that the strings of `v` hold.
pub open spec fn strings(v: Seq<String>) -> Seq<Seq<char>> {
    v.map_values(|s: String| s@)
}

/// A `String` holding the characters of `s`.
pub fn owned(s: &str) -> (r: String)
    ensures
        r@ == s@,
{
    to_string(&chars_of(s))
}

/// The lines of `s`, each as a `String`.
pub fn line_strings(s: &str) -> (r: Vec<String>)
    ensures
        strings(r@) == lines(s@),
{
    let ls = lines_of(&chars_of(s));
    let mut out: Vec<String> = Vec::new();
    let mut i: usize = 0;
    while i < ls.len()
        invariant
            i <= ls.len(),
            strings(out@) == texts(ls@).take(i as int),
        decreases ls.len() - i,
    {
        let l = to_string(&ls[i]);
        assert(l@ == texts(ls@)[i as int]);
        let ghost before = out@;
        out.push(l);
        assert(strings(out@) =~= strings(before).push(l@));
        assert(texts(ls@).take(i + 1) =~= texts(ls@).take(i as int).push(l@));
        i = i + 1;
    }
    assert(texts(ls@).take(i as int) =~= texts(ls@));
    out
}

/// The decimal digit for `d` below ten.
pub open spec fn digit_char(d: nat) -> char {
    ((48 + d) as u8) as char
}

/// The decimal numeral of `n`, without leading zeros (`u64::to_string`).
pub open spec fn decimal(n: nat) -> Seq<char>
    decreases n,
{
    if n < 10 {
        seq![digit_char(n)]
    } else {
        decimal(n / 10).push(digit_char(n % 10))
    }
}

/// The number that a sequence of decimal digits stands for.
pub open spec fn digits_value(ds: Seq<char>) -> nat
    decreases ds.len(),
{
    if ds.len() == 0 {
        0
    } else {
        digits_value(ds.drop_last()) * 10 + ((ds.last() as nat) - 48) as nat
    }
}

/// The decimal numeral of `n`.
pub fn decimal_of(n: u64) -> (r: Vec<char>)
    ensures
        r@ == decimal(n as nat),
    decreases n,
{
    let d = ((48 + n % 10) as u8) as char;
    if n < 10 {
        let mut v: Vec<char> = Vec::new();
        v.push(d);
        v
    } else {
        let mut v = decimal_of(n / 10);
        v.push(d);
        v
    }
}

/// The decimal numeral of `n`, as a `String`.
pub fn decimal_string(n: u64) -> (r: String)
    ensures
        r@ == decimal(n as nat),
{
    to_string(&decimal_of(n))
}

} // verus!
