//! Character-level text handling. Every text here is viewed as a `Seq<char>`;
//! the executable functions work on `&[char]` / `Vec<char>` copies of the
//! strings they are given, and the spec functions say what they compute in the
//! terms std documents for the `str` method of the same name.

use vstd::prelude::*;

verus! {

/// `String::push` appends one character.
pub assume_specification[ String::push ](s: &mut String, ch: char)
    ensures
        final(s)@ == old(s)@.push(ch),
;

// ───────────────────────────── conversions ─────────────────────────────

/// The characters of a string slice, in order.
pub fn to_chars(s: &str) -> (v: Vec<char>)
    ensures
        v@ == s@,
{
    let mut v: Vec<char> = Vec::new();
    for c in it: s.chars()
        invariant
            v@ == it.seq().take(it.index() as int),
            it.seq() == s@,
    {
        v.push(c);
    }
    v
}

/// A string holding exactly the given characters.
pub fn from_chars(v: &[char]) -> (s: String)
    ensures
        s@ == v@,
{
    let mut s = String::new();
    let mut i: usize = 0;
    while i < v.len()
        invariant
            i <= v@.len(),
            s@ == v@.take(i as int),
        decreases v@.len() - i,
    {
        s.push(v[i]);
        assert(v@.take(i + 1) =~= v@.take(i as int).push(v@[i as int]));
        i = i + 1;
    }
    assert(v@.take(v@.len() as int) =~= v@);
    s
}

/// Appends the characters of `v` to `s`.
pub fn push_chars(s: &mut String, v: &[char])
    ensures
        final(s)@ == old(s)@ + v@,
{
    let ghost s0 = s@;
    let mut i: usize = 0;
    while i < v.len()
        invariant
            i <= v@.len(),
            s@ == s0 + v@.take(i as int),
        decreases v@.len() - i,
    {
        s.push(v[i]);
        assert(v@.take(i + 1) =~= v@.take(i as int).push(v@[i as int]));
        i = i + 1;
    }
    assert(v@.take(v@.len() as int) =~= v@);
}

/// Appends a string slice to `s`.
pub fn push_str(s: &mut String, t: &str)
    ensures
        final(s)@ == old(s)@ + t@,
{
    let v = to_chars(t);
    push_chars(s, v.as_slice());
}

/// A copy of `s[a..b]`.
pub fn copy_range(s: &[char], a: usize, b: usize) -> (r: Vec<char>)
    requires
        a <= b <= s@.len(),
    ensures
        r@ == s@.subrange(a as int, b as int),
{
    let mut r: Vec<char> = Vec::new();
    let mut i: usize = a;
    while i < b
        invariant
            a <= i <= b,
            b <= s@.len(),
            r@ == s@.subrange(a as int, i as int),
        decreases b - i,
    {
        r.push(s[i]);
        assert(s@.subrange(a as int, i + 1) =~= s@.subrange(a as int, i as int).push(s@[i as int]));
        i = i + 1;
    }
    r
}

/// Whether two character sequences are equal.
pub fn chars_eq(a: &[char], b: &[char]) -> (r: bool)
    ensures
        r == (a@ == b@),
{
    if a.len() != b.len() {
        return false;
    }
    let mut i: usize = 0;
    while i < a.len()
        invariant
            i <= a@.len(),
            a@.len() == b@.len(),
            forall|j: int| 0 <= j < i ==> a@[j] == b@[j],
        decreases a@.len() - i,
    {
        if a[i] != b[i] {
            return false;
        }
        i = i + 1;
    }
    assert(a@ =~= b@);
    true
}

// ───────────────────────────── whitespace and case ─────────────────────────────

/// Unicode `White_Space`, the set `char::is_whitespace` and `str::trim` use.
pub open spec fn is_ws(c: char) -> bool {
    ||| ('\u{9}' <= c && c <= '\u{d}')
    ||| c == ' '
    ||| c == '\u{85}'
    ||| c == '\u{a0}'
    ||| c == '\u{1680}'
    ||| ('\u{2000}' <= c && c <= '\u{200a}')
    ||| c == '\u{2028}'
    ||| c == '\u{2029}'
    ||| c == '\u{202f}'
    ||| c == '\u{205f}'
    ||| c == '\u{3000}'
}

pub fn is_ws_exec(c: char) -> (r: bool)
    ensures
        r == is_ws(c),
{
    ('\u{9}' <= c && c <= '\u{d}') || c == ' ' || c == '\u{85}' || c == '\u{a0}' || c
        == '\u{1680}' || ('\u{2000}' <= c && c <= '\u{200a}') || c == '\u{2028}' || c
        == '\u{2029}' || c == '\u{202f}' || c == '\u{205f}' || c == '\u{3000}'
}

/// `s` with its leading whitespace removed.
pub open spec fn trim_start(s: Seq<char>) -> Seq<char>
    decreases s.len(),
{
    if s.len() > 0 && is_ws(s[0]) {
        trim_start(s.drop_first())
    } else {
        s
    }
}

/// `s` with its trailing whitespace removed.
pub open spec fn trim_end(s: Seq<char>) -> Seq<char>
    decreases s.len(),
{
    if s.len() > 0 && is_ws(s.last()) {
        trim_end(s.drop_last())
    } else {
        s
    }
}

/// `str::trim`: both ends.
pub open spec fn trim(s: Seq<char>) -> Seq<char> {
    trim_end(trim_start(s))
}

proof fn lemma_trim_start_skip(s: Seq<char>, i: int)
    requires
        0 <= i <= s.len(),
        forall|j: int| 0 <= j < i ==> is_ws(#[trigger] s[j]),
    ensures
        trim_start(s) == trim_start(s.skip(i)),
    decreases i,
{
    if i > 0 {
        assert(s.drop_first().skip(i - 1) =~= s.skip(i));
        lemma_trim_start_skip(s.drop_first(), i - 1);
    } else {
        assert(s.skip(0) =~= s);
    }
}

proof fn lemma_trim_end_take(s: Seq<char>, i: int)
    requires
        0 <= i <= s.len(),
        forall|j: int| i <= j < s.len() ==> is_ws(#[trigger] s[j]),
    ensures
        trim_end(s) == trim_end(s.take(i)),
    decreases s.len() - i,
{
    if i < s.len() {
        assert(s.drop_last().take(i) =~= s.take(i));
        lemma_trim_end_take(s.drop_last(), i);
    } else {
        assert(s.take(i) =~= s);
    }
}

/// A trimmed copy of `s`.
pub fn trim_exec(s: &[char]) -> (r: Vec<char>)
    ensures
        r@ == trim(s@),
{
    let mut a: usize = 0;
    while a < s.len() && is_ws_exec(s[a])
        invariant
            a <= s@.len(),
            forall|j: int| 0 <= j < a ==> is_ws(#[trigger] s@[j]),
        decreases s@.len() - a,
    {
        a = a + 1;
    }
    proof {
        lemma_trim_start_skip(s@, a as int);
    }
    let mut b: usize = s.len();
    while b > a && is_ws_exec(s[b - 1])
        invariant
            a <= b <= s@.len(),
            forall|j: int| b <= j < s@.len() ==> is_ws(#[trigger] s@[j]),
        decreases b,
    {
        b = b - 1;
    }
    let ghost t = s@.skip(a as int);
    proof {
        assert(trim_start(t) == t);
        assert forall|j: int| b - a <= j < t.len() implies is_ws(#[trigger] t[j]) by {
            assert(t[j] == s@[a + j]);
        }
        lemma_trim_end_take(t, b - a);
        assert(t.take(b - a) =~= s@.subrange(a as int, b as int));
    }
    copy_range(s, a, b)
}

/// ASCII lower case of one character.
pub open spec fn lower(c: char) -> char {
    if 'A' <= c && c <= 'Z' {
        ((c as u32) + 32) as char
    } else {
        c
    }
}

pub fn lower_exec(c: char) -> (r: char)
    ensures
        r == lower(c),
{
    if 'A' <= c && c <= 'Z' {
        ((c as u8) + 32) as char
    } else {
        c
    }
}

/// `to_ascii_lowercase` of a text.
pub open spec fn lower_seq(s: Seq<char>) -> Seq<char> {
    s.map_values(|c: char| lower(c))
}

pub fn to_lower(s: &[char]) -> (r: Vec<char>)
    ensures
        r@ == lower_seq(s@),
{
    let mut r: Vec<char> = Vec::new();
    let mut i: usize = 0;
    while i < s.len()
        invariant
            i <= s@.len(),
            r@ == lower_seq(s@.take(i as int)),
        decreases s@.len() - i,
    {
        r.push(lower_exec(s[i]));
        assert(lower_seq(s@.take(i + 1)) =~= lower_seq(s@.take(i as int)).push(lower(s@[i as int])));
        i = i + 1;
    }
    assert(s@.take(s@.len() as int) =~= s@);
    r
}

/// `eq_ignore_ascii_case`.
pub open spec fn eq_ignore_case(a: Seq<char>, b: Seq<char>) -> bool {
    lower_seq(a) == lower_seq(b)
}

pub fn eq_ignore_case_exec(a: &[char], b: &[char]) -> (r: bool)
    ensures
        r == eq_ignore_case(a@, b@),
{
    let la = to_lower(a);
    let lb = to_lower(b);
    chars_eq(la.as_slice(), lb.as_slice())
}

// ───────────────────────────── searching ─────────────────────────────

/// `p` occurs in `s` at index `i`.
pub open spec fn occurs_at(s: Seq<char>, p: Seq<char>, i: int) -> bool {
    0 <= i && i + p.len() <= s.len() && s.subrange(i, i + p.len()) == p
}

/// `str::starts_with`.
pub open spec fn starts_with(s: Seq<char>, p: Seq<char>) -> bool {
    occurs_at(s, p, 0)
}

/// `str::contains`.
pub open spec fn contains(s: Seq<char>, p: Seq<char>) -> bool {
    exists|i: int| occurs_at(s, p, i)
}

/// The index of the first occurrence of `p` in `s` at or after `from`.
pub open spec fn find_from(s: Seq<char>, p: Seq<char>, from: int) -> Option<int>
    decreases s.len() + 1 - from,
{
    if from < 0 || from + p.len() > s.len() {
        None
    } else if occurs_at(s, p, from) {
        Some(from)
    } else {
        find_from(s, p, from + 1)
    }
}

/// The index of the first occurrence of `p` in `s` (`str::find`).
pub open spec fn find(s: Seq<char>, p: Seq<char>) -> Option<int> {
    find_from(s, p, 0)
}

/// The index of the last occurrence of `p` in `s` (`str::rfind`).
pub open spec fn rfind_below(s: Seq<char>, p: Seq<char>, end: int) -> Option<int>
    decreases end,
{
    if end <= 0 {
        None
    } else if occurs_at(s, p, end - 1) {
        Some(end - 1)
    } else {
        rfind_below(s, p, end - 1)
    }
}

pub open spec fn rfind(s: Seq<char>, p: Seq<char>) -> Option<int> {
    rfind_below(s, p, s.len() as int + 1)
}

pub proof fn lemma_find_from(s: Seq<char>, p: Seq<char>, from: int)
    requires
        0 <= from,
    ensures
        find_from(s, p, from) matches Some(i) ==> from <= i && occurs_at(s, p, i) && (forall|
            j: int,
        | from <= j < i ==> !occurs_at(s, p, j)),
        find_from(s, p, from) is None ==> forall|j: int| from <= j ==> !occurs_at(s, p, j),
    decreases s.len() + 1 - from,
{
    if from + p.len() > s.len() {
    } else if occurs_at(s, p, from) {
    } else {
        lemma_find_from(s, p, from + 1);
    }
}

pub proof fn lemma_find(s: Seq<char>, p: Seq<char>)
    ensures
        find(s, p) matches Some(i) ==> 0 <= i && i + p.len() <= s.len() && occurs_at(s, p, i)
            && (forall|j: int| 0 <= j < i ==> !occurs_at(s, p, j)),
        find(s, p) is None <==> !contains(s, p),
{
    lemma_find_from(s, p, 0);
}

pub proof fn lemma_rfind_below(s: Seq<char>, p: Seq<char>, end: int)
    ensures
        rfind_below(s, p, end) matches Some(i) ==> i < end && occurs_at(s, p, i) && (forall|
            j: int,
        | i < j < end ==> !occurs_at(s, p, j)),
        rfind_below(s, p, end) is None ==> forall|j: int| j < end ==> !occurs_at(s, p, j),
    decreases end,
{
    if end > 0 && !occurs_at(s, p, end - 1) {
        lemma_rfind_below(s, p, end - 1);
    }
}

/// Whether `p` occurs in `s` at `i`.
pub fn occurs_at_exec(s: &[char], p: &[char], i: usize) -> (r: bool)
    ensures
        r == occurs_at(s@, p@, i as int),
{
    if i > s.len() || p.len() > s.len() - i {
        return false;
    }
    let mut k: usize = 0;
    while k < p.len()
        invariant
            k <= p@.len(),
            i + p@.len() <= s@.len(),
            s@.len() == s.len(),
            forall|j: int| 0 <= j < k ==> s@[i + j] == p@[j],
        decreases p@.len() - k,
    {
        assert(i + k < s@.len());
        if s[i + k] != p[k] {
            assert(s@.subrange(i as int, i + p@.len())[k as int] != p@[k as int]);
            return false;
        }
        k = k + 1;
    }
    assert(s@.subrange(i as int, i + p@.len()) =~= p@);
    true
}

/// `str::find` on characters.
pub fn find_exec(s: &[char], p: &[char]) -> (r: Option<usize>)
    ensures
        r matches Some(i) ==> find(s@, p@) == Some(i as int),
        r is None ==> find(s@, p@) is None,
{
    proof {
        lemma_find(s@, p@);
    }
    if p.len() > s.len() {
        proof {
            assert forall|j: int| !occurs_at(s@, p@, j) by {}
            assert(!contains(s@, p@));
        }
        return None;
    }
    if p.len() == 0 {
        proof {
            assert(s@.subrange(0, 0) =~= p@);
            assert(occurs_at(s@, p@, 0));
        }
        return Some(0);
    }
    let mut i: usize = 0;
    while i <= s.len() - p.len()
        invariant
            1 <= p@.len() <= s@.len(),
            i <= s@.len() - p@.len() + 1,
            forall|j: int| 0 <= j < i ==> !occurs_at(s@, p@, j),
        decreases s@.len() - p@.len() + 1 - i,
    {
        if occurs_at_exec(s, p, i) {
            proof {
                lemma_find(s@, p@);
                assert(contains(s@, p@));
                let f = find(s@, p@);
                assert(f is Some);
                let k = f->0;
                if k < i {
                    assert(!occurs_at(s@, p@, k));
                } else if k > i {
                    assert(!occurs_at(s@, p@, i as int));
                }
            }
            return Some(i);
        }
        i = i + 1;
    }
    proof {
        lemma_find(s@, p@);
        assert(!contains(s@, p@));
    }
    None
}

/// `str::rfind` on characters.
pub fn rfind_exec(s: &[char], p: &[char]) -> (r: Option<usize>)
    ensures
        r matches Some(i) ==> rfind(s@, p@) == Some(i as int),
        r is None ==> rfind(s@, p@) is None,
{
    proof {
        lemma_rfind_below(s@, p@, s@.len() as int + 1);
    }
    if p.len() > s.len() {
        proof {
            assert forall|j: int| !occurs_at(s@, p@, j) by {}
            if rfind(s@, p@) is Some {
                assert(occurs_at(s@, p@, rfind(s@, p@)->0));
            }
        }
        return None;
    }
    let mut i: usize = s.len() - p.len();
    if occurs_at_exec(s, p, i) {
        proof {
            let f = rfind(s@, p@);
            if f is None {
                assert(!occurs_at(s@, p@, i as int));
            }
            let k = f->0;
            if k > i {
                assert(!occurs_at(s@, p@, k));
            } else if k < i {
                assert(!occurs_at(s@, p@, i as int));
            }
        }
        return Some(i);
    }
    while i > 0
        invariant
            p@.len() <= s@.len(),
            i <= s@.len() - p@.len() + 1,
            forall|j: int| i <= j ==> !occurs_at(s@, p@, j),
        decreases i,
    {
        if occurs_at_exec(s, p, i - 1) {
            proof {
                lemma_rfind_below(s@, p@, s@.len() as int + 1);
                let f = rfind(s@, p@);
                if f is None {
                    assert(!occurs_at(s@, p@, i - 1));
                }
                let k = f->0;
                if k > i - 1 {
                    assert(!occurs_at(s@, p@, k));
                } else if k < i - 1 {
                    assert(!occurs_at(s@, p@, i - 1));
                }
            }
            return Some(i - 1);
        }
        i = i - 1;
    }
    proof {
        lemma_rfind_below(s@, p@, s@.len() as int + 1);
        if rfind(s@, p@) is Some {
            assert(occurs_at(s@, p@, rfind(s@, p@)->0));
        }
    }
    None
}

/// `str::contains` on characters.
pub fn contains_exec(s: &[char], p: &[char]) -> (r: bool)
    ensures
        r == contains(s@, p@),
{
    proof {
        lemma_find(s@, p@);
    }
    find_exec(s, p).is_some()
}

/// `str::contains` with a string-slice pattern.
pub fn contains_str(s: &[char], p: &str) -> (r: bool)
    ensures
        r == contains(s@, p@),
{
    let pv = to_chars(p);
    contains_exec(s, pv.as_slice())
}

/// `str::starts_with` with a string-slice pattern.
pub fn starts_with_str(s: &[char], p: &str) -> (r: bool)
    ensures
        r == starts_with(s@, p@),
{
    let pv = to_chars(p);
    occurs_at_exec(s, pv.as_slice(), 0)
}


// ───────────────────────────── lines ─────────────────────────────

/// The number of characters before the first `'\n'` (all of them if none).
pub open spec fn line_len(s: Seq<char>) -> nat
    decreases s.len(),
{
    if s.len() == 0 || s[0] == '\n' {
        0
    } else {
        1 + line_len(s.drop_first())
    }
}

/// A line without the `'\r'` of a `"\r\n"` ending.
pub open spec fn strip_cr(l: Seq<char>) -> Seq<char> {
    if l.len() > 0 && l.last() == '\r' {
        l.drop_last()
    } else {
        l
    }
}

/// `str::lines`: split at `'\n'`, a `'\r'` before it dropped, no empty
/// line after a final `'\n'`.
pub open spec fn lines(s: Seq<char>) -> Seq<Seq<char>>
    decreases s.len(),
{
    if s.len() == 0 {
        Seq::empty()
    } else if line_len(s) < s.len() {
        seq![strip_cr(s.take(line_len(s) as int))] + lines(s.skip(line_len(s) as int + 1))
    } else {
        seq![s]
    }
}

proof fn lemma_line_len(s: Seq<char>, k: int)
    requires
        0 <= k <= s.len(),
        forall|j: int| 0 <= j < k ==> #[trigger] s[j] != '\n',
        k == s.len() || s[k] == '\n',
    ensures
        line_len(s) == k,
    decreases k,
{
    if k > 0 {
        assert forall|j: int| 0 <= j < k - 1 implies #[trigger] s.drop_first()[j] != '\n' by {
            assert(s.drop_first()[j] == s[j + 1]);
        }
        lemma_line_len(s.drop_first(), k - 1);
    }
}

/// The texts held by a vector of character vectors.
pub open spec fn views(r: Seq<Vec<char>>) -> Seq<Seq<char>> {
    Seq::new(r.len(), |i: int| r[i]@)
}

/// The lines of `s`, each as its characters.
pub fn lines_exec(s: &[char]) -> (r: Vec<Vec<char>>)
    ensures
        views(r@) == lines(s@),
{
    let mut r: Vec<Vec<char>> = Vec::new();
    let mut start: usize = 0;
    let mut i: usize = 0;
    assert(s@.skip(0) =~= s@);
    assert(views(r@) + lines(s@) =~= lines(s@));
    while i < s.len()
        invariant
            start <= i <= s@.len(),
            forall|j: int| start <= j < i ==> #[trigger] s@[j] != '\n',
            views(r@) + lines(s@.skip(start as int)) == lines(s@),
        decreases s@.len() - i,
    {
        if s[i] == '\n' {
            let ghost t = s@.skip(start as int);
            proof {
                assert forall|j: int| 0 <= j < i - start implies #[trigger] t[j] != '\n' by {
                    assert(t[j] == s@[start + j]);
                }
                lemma_line_len(t, i - start);
                assert(t.take(i - start) =~= s@.subrange(start as int, i as int));
                assert(t.skip(i - start + 1) =~= s@.skip(i + 1));
            }
            let mut line = copy_range(s, start, i);
            if line.len() > 0 && line[line.len() - 1] == '\r' {
                line.pop();
            }
            proof {
                assert(line@ == strip_cr(s@.subrange(start as int, i as int)));
            }
            let ghost before = views(r@);
            r.push(line);
            proof {
                assert(views(r@) =~= before.push(strip_cr(t.take(i - start))));
                assert(lines(t) == seq![strip_cr(t.take(i - start))] + lines(s@.skip(i + 1)));
                assert(views(r@) + lines(s@.skip(i + 1)) =~= before + lines(t));
            }
            start = i + 1;
        }
        i = i + 1;
    }
    let ghost t = s@.skip(start as int);
    if start < s.len() {
        proof {
            assert forall|j: int| 0 <= j < t.len() implies #[trigger] t[j] != '\n' by {
                assert(t[j] == s@[start + j]);
            }
            lemma_line_len(t, t.len() as int);
        }
        let line = copy_range(s, start, s.len());
        let ghost before = views(r@);
        r.push(line);
        proof {
            assert(line@ =~= t);
            assert(views(r@) =~= before + lines(t));
        }
    } else {
        proof {
            assert(lines(t) =~= Seq::<Seq<char>>::empty());
            assert(views(r@) =~= views(r@) + lines(t));
        }
    }
    r
}


// ───────────────────────────── prefixes, suffixes, pieces ─────────────────────────────

/// `str::trim_start_matches` with a text pattern.
pub open spec fn trim_start_matches(s: Seq<char>, p: Seq<char>) -> Seq<char>
    decreases s.len(),
{
    if p.len() > 0 && starts_with(s, p) {
        trim_start_matches(s.skip(p.len() as int), p)
    } else {
        s
    }
}

pub fn trim_start_matches_exec(s: &[char], p: &str) -> (r: Vec<char>)
    ensures
        r@ == trim_start_matches(s@, p@),
{
    let pv = to_chars(p);
    let mut a: usize = 0;
    assert(s@.skip(0) =~= s@);
    let mut more = pv.len() > 0 && occurs_at_exec(s, pv.as_slice(), a);
    while more
        invariant
            a <= s@.len(),
            pv@ == p@,
            more == (p@.len() > 0 && occurs_at(s@, p@, a as int)),
            trim_start_matches(s@.skip(a as int), p@) == trim_start_matches(s@, p@),
        decreases s@.len() - a,
    {
        proof {
            assert(s@.skip(a as int).subrange(0, p@.len() as int) =~= s@.subrange(
                a as int,
                a + p@.len(),
            ));
            assert(s@.skip(a as int).skip(p@.len() as int) =~= s@.skip(a + p@.len()));
        }
        assert(s@.len() == s.len());
        a = a + pv.len();
        more = occurs_at_exec(s, pv.as_slice(), a);
    }
    proof {
        if p@.len() > 0 && a + p@.len() <= s@.len() {
            assert(s@.skip(a as int).subrange(0, p@.len() as int) =~= s@.subrange(
                a as int,
                a + p@.len(),
            ));
        }
    }
    copy_range(s, a, s.len())
}

/// `str::trim_end_matches` with a text pattern.
pub open spec fn trim_end_matches(s: Seq<char>, p: Seq<char>) -> Seq<char>
    decreases s.len(),
{
    if p.len() > 0 && p.len() <= s.len() && s.skip(s.len() - p.len()) == p {
        trim_end_matches(s.take(s.len() - p.len()), p)
    } else {
        s
    }
}

pub fn trim_end_matches_exec(s: &[char], p: &str) -> (r: Vec<char>)
    ensures
        r@ == trim_end_matches(s@, p@),
{
    let pv = to_chars(p);
    let mut b: usize = s.len();
    assert(s@.take(b as int) =~= s@);
    while pv.len() > 0 && pv.len() <= b && occurs_at_exec(s, pv.as_slice(), b - pv.len())
        invariant
            b <= s@.len(),
            pv@ == p@,
            trim_end_matches(s@.take(b as int), p@) == trim_end_matches(s@, p@),
        decreases b,
    {
        proof {
            let t = s@.take(b as int);
            assert(t.skip(t.len() - p@.len()) =~= s@.subrange(b - p@.len(), b as int));
            assert(t.take(t.len() - p@.len()) =~= s@.take(b - p@.len()));
        }
        b = b - pv.len();
    }
    proof {
        let t = s@.take(b as int);
        if pv@.len() > 0 && pv@.len() <= b {
            assert(t.skip(t.len() - p@.len()) =~= s@.subrange(b - p@.len(), b as int));
        }
    }
    copy_range(s, 0, b)
}

/// The text before the first occurrence of `p` (all of `s` if none):
/// `s.split(p).next()`.
pub open spec fn before(s: Seq<char>, p: Seq<char>) -> Seq<char> {
    match find(s, p) {
        Some(i) => s.take(i),
        None => s,
    }
}

/// The text after the first occurrence of `p`, if there is one.
pub open spec fn after(s: Seq<char>, p: Seq<char>) -> Option<Seq<char>> {
    match find(s, p) {
        Some(i) => Some(s.skip(i + p.len())),
        None => None,
    }
}

/// The second piece of `s.split(p)`: between its first and second
/// occurrences of `p`, or to the end.
pub open spec fn second_piece(s: Seq<char>, p: Seq<char>) -> Option<Seq<char>> {
    match after(s, p) {
        Some(r) => Some(before(r, p)),
        None => None,
    }
}

/// `s.rsplit(p).next()`: after the last occurrence of `p`, or all of `s`.
pub open spec fn after_last(s: Seq<char>, p: Seq<char>) -> Seq<char> {
    match rfind(s, p) {
        Some(i) => s.skip(i + p.len()),
        None => s,
    }
}

pub fn before_exec(s: &[char], p: &str) -> (r: Vec<char>)
    ensures
        r@ == before(s@, p@),
{
    let pv = to_chars(p);
    proof {
        lemma_find(s@, p@);
    }
    match find_exec(s, pv.as_slice()) {
        Some(i) => copy_range(s, 0, i),
        None => copy_range(s, 0, s.len()),
    }
}

pub fn after_exec(s: &[char], p: &str) -> (r: Option<Vec<char>>)
    ensures
        match r {
            Some(v) => after(s@, p@) == Some(v@),
            None => after(s@, p@) is None,
        },
{
    let pv = to_chars(p);
    proof {
        lemma_find(s@, p@);
    }
    match find_exec(s, pv.as_slice()) {
        Some(i) => {
            assert(i + pv@.len() <= s@.len());
            assert(s@.len() == s.len());
            Some(copy_range(s, i + pv.len(), s.len()))
        },
        None => None,
    }
}

pub fn second_piece_exec(s: &[char], p: &str) -> (r: Option<Vec<char>>)
    ensures
        match r {
            Some(v) => second_piece(s@, p@) == Some(v@),
            None => second_piece(s@, p@) is None,
        },
{
    match after_exec(s, p) {
        Some(rest) => Some(before_exec(rest.as_slice(), p)),
        None => None,
    }
}

pub fn after_last_exec(s: &[char], p: &str) -> (r: Vec<char>)
    ensures
        r@ == after_last(s@, p@),
{
    let pv = to_chars(p);
    proof {
        lemma_rfind_below(s@, p@, s@.len() as int + 1);
    }
    match rfind_exec(s, pv.as_slice()) {
        Some(i) => {
            assert(i + pv@.len() <= s@.len());
            assert(s@.len() == s.len());
            copy_range(s, i + pv.len(), s.len())
        },
        None => copy_range(s, 0, s.len()),
    }
}

/// `(k, v)` of `s.split_once(c)`.
pub open spec fn split_once(s: Seq<char>, c: char) -> Option<(Seq<char>, Seq<char>)> {
    match find(s, seq![c]) {
        Some(i) => Some((s.take(i), s.skip(i + 1))),
        None => None,
    }
}

pub fn split_once_exec(s: &[char], c: char) -> (r: Option<(Vec<char>, Vec<char>)>)
    ensures
        match r {
            Some((k, v)) => split_once(s@, c) == Some((k@, v@)),
            None => split_once(s@, c) is None,
        },
{
    let mut pv: Vec<char> = Vec::new();
    pv.push(c);
    assert(pv@ =~= seq![c]);
    proof {
        lemma_find(s@, seq![c]);
    }
    match find_exec(s, pv.as_slice()) {
        Some(i) => {
            assert(i + 1 <= s@.len());
            assert(s@.len() == s.len());
            Some((copy_range(s, 0, i), copy_range(s, i + 1, s.len())))
        },
        None => None,
    }
}

/// `s.split(|c| c == a || c == b)`: every piece, empty ones included.
pub open spec fn split2(s: Seq<char>, a: char, b: char) -> Seq<Seq<char>>
    decreases s.len(),
{
    if s.len() == 0 {
        seq![s]
    } else if s[0] == a || s[0] == b {
        seq![Seq::<char>::empty()] + split2(s.drop_first(), a, b)
    } else {
        let r = split2(s.drop_first(), a, b);
        seq![seq![s[0]] + r[0]] + r.drop_first()
    }
}

pub proof fn lemma_split2_len(s: Seq<char>, a: char, b: char)
    ensures
        split2(s, a, b).len() >= 1,
    decreases s.len(),
{
    if s.len() > 0 {
        lemma_split2_len(s.drop_first(), a, b);
    }
}

/// Splits at every `a` or `b`, working from the back.
pub fn split2_exec(s: &[char], a: char, b: char) -> (r: Vec<Vec<char>>)
    ensures
        views(r@) == split2(s@, a, b),
{
    // Built back to front: `acc` holds the pieces of `s[i..]` reversed, with
    // the piece being read in `cur` (reversed too).
    let mut i: usize = s.len();
    let mut pieces: Vec<Vec<char>> = Vec::new();
    let mut cur: Vec<char> = Vec::new();
    proof {
        assert(s@.skip(s@.len() as int) =~= Seq::<char>::empty());
    }
    while i > 0
        invariant
            i <= s@.len(),
            split2(s@.skip(i as int), a, b) == seq![cur@] + views(pieces@),
        decreases i,
    {
        let c = s[i - 1];
        let ghost t = s@.skip(i - 1);
        proof {
            assert(t.drop_first() =~= s@.skip(i as int));
            assert(t[0] == c);
            lemma_split2_len(s@.skip(i as int), a, b);
        }
        if c == a || c == b {
            let ghost old_pieces = views(pieces@);
            let ghost old_cur = cur@;
            pieces.insert(0, cur);
            cur = Vec::new();
            proof {
                assert(views(pieces@) =~= seq![old_cur] + old_pieces);
                assert(split2(t, a, b) =~= seq![cur@] + views(pieces@));
            }
        } else {
            let ghost old_cur = cur@;
            cur.insert(0, c);
            proof {
                let r = split2(s@.skip(i as int), a, b);
                assert(r[0] == old_cur);
                assert(r.drop_first() =~= views(pieces@));
                assert(cur@ =~= seq![c] + old_cur);
                assert(split2(t, a, b) =~= seq![cur@] + views(pieces@));
            }
        }
        i = i - 1;
    }
    let ghost old_pieces = views(pieces@);
    pieces.insert(0, cur);
    proof {
        assert(s@.skip(0) =~= s@);
        assert(views(pieces@) =~= seq![cur@] + old_pieces);
    }
    pieces
}

/// `s.split_whitespace()`.
pub open spec fn words(s: Seq<char>) -> Seq<Seq<char>>
    decreases s.len(),
{
    if s.len() == 0 {
        Seq::empty()
    } else if is_ws(s[0]) {
        words(s.drop_first())
    } else {
        let r = words(s.drop_first());
        if s.len() > 1 && !is_ws(s[1]) {
            seq![seq![s[0]] + r[0]] + r.drop_first()
        } else {
            seq![seq![s[0]]] + r
        }
    }
}

pub proof fn lemma_words_nonempty(s: Seq<char>)
    requires
        s.len() > 0,
        !is_ws(s[0]),
    ensures
        words(s).len() >= 1,
    decreases s.len(),
{
    if s.len() > 1 && !is_ws(s[1]) {
        lemma_words_nonempty(s.drop_first());
    }
}

pub fn words_exec(s: &[char]) -> (r: Vec<Vec<char>>)
    ensures
        views(r@) == words(s@),
{
    let mut i: usize = s.len();
    let mut ws: Vec<Vec<char>> = Vec::new();
    proof {
        assert(s@.skip(s@.len() as int) =~= Seq::<char>::empty());
    }
    while i > 0
        invariant
            i <= s@.len(),
            words(s@.skip(i as int)) == views(ws@),
        decreases i,
    {
        let c = s[i - 1];
        let ghost t = s@.skip(i - 1);
        proof {
            assert(t.drop_first() =~= s@.skip(i as int));
            assert(t[0] == c);
        }
        if !is_ws_exec(c) {
            if i < s.len() && !is_ws_exec(s[i]) {
                proof {
                    assert(t[1] == s@[i as int]);
                    lemma_words_nonempty(s@.skip(i as int));
                }
                let ghost old_ws = views(ws@);
                let ghost old_w = ws@[0]@;
                let mut w = ws.remove(0);
                w.insert(0, c);
                assert(w@ =~= seq![c] + old_w);
                let ghost rest = views(ws@);
                assert(rest =~= old_ws.drop_first());
                ws.insert(0, w);
                proof {
                    assert(views(ws@) =~= seq![seq![c] + old_ws[0]] + old_ws.drop_first());
                }
            } else {
                let ghost old_ws = views(ws@);
                let mut w: Vec<char> = Vec::new();
                w.push(c);
                ws.insert(0, w);
                proof {
                    assert(w@ =~= seq![c]);
                    assert(views(ws@) =~= seq![seq![c]] + old_ws);
                }
            }
        }
        i = i - 1;
    }
    proof {
        assert(s@.skip(0) =~= s@);
    }
    ws
}

// ───────────────────────────── joining ─────────────────────────────

/// `parts.join(sep)`.
pub open spec fn join(parts: Seq<Seq<char>>, sep: Seq<char>) -> Seq<char>
    decreases parts.len(),
{
    if parts.len() == 0 {
        Seq::empty()
    } else if parts.len() == 1 {
        parts[0]
    } else {
        join(parts.drop_last(), sep) + sep + parts.last()
    }
}

pub fn join_exec(parts: &Vec<Vec<char>>, sep: &str) -> (r: String)
    ensures
        r@ == join(views(parts@), sep@),
{
    let mut r = String::new();
    let mut i: usize = 0;
    while i < parts.len()
        invariant
            i <= parts@.len(),
            r@ == join(views(parts@).take(i as int), sep@),
        decreases parts@.len() - i,
    {
        let ghost vs = views(parts@);
        proof {
            assert(vs.take(i + 1).drop_last() =~= vs.take(i as int));
            assert(vs.take(i + 1).last() == parts@[i as int]@);
        }
        if i > 0 {
            push_str(&mut r, sep);
        } else {
            assert(vs.take(1) =~= seq![parts@[0]@]);
            assert(r@ + parts@[0]@ =~= parts@[0]@);
        }
        push_chars(&mut r, parts[i].as_slice());
        i = i + 1;
    }
    assert(views(parts@).take(parts@.len() as int) =~= views(parts@));
    r
}

// ───────────────────────────── paths ─────────────────────────────

/// A path separator; both are accepted on Windows.
pub open spec fn is_sep(c: char) -> bool {
    c == '/' || c == '\\'
}

/// `p` without trailing separators.
pub open spec fn trim_seps(p: Seq<char>) -> Seq<char>
    decreases p.len(),
{
    if p.len() > 0 && is_sep(p.last()) {
        trim_seps(p.drop_last())
    } else {
        p
    }
}

/// Where the last component of `p` starts.
pub open spec fn component_start(p: Seq<char>) -> int
    decreases p.len(),
{
    if p.len() == 0 {
        0
    } else if is_sep(p.last()) {
        p.len() as int
    } else {
        component_start(p.drop_last())
    }
}

/// `Path::file_name` for a path written with `/` or `\`: the last
/// component, trailing separators ignored; none for an empty path, a root,
/// `.` or `..`.
pub open spec fn file_name(p: Seq<char>) -> Option<Seq<char>> {
    let t = trim_seps(p);
    let c = t.skip(component_start(t));
    if c.len() == 0 || c == seq!['.'] || c == seq!['.', '.'] {
        None
    } else {
        Some(c)
    }
}

/// `Path::file_stem`: the file name before its last `.`, unless that `.` is
/// the first character.
pub open spec fn file_stem(p: Seq<char>) -> Option<Seq<char>> {
    match file_name(p) {
        Some(n) => match rfind(n, seq!['.']) {
            Some(i) => if i > 0 {
                Some(n.take(i))
            } else {
                Some(n)
            },
            None => Some(n),
        },
        None => None,
    }
}

proof fn lemma_trim_seps(p: Seq<char>, k: int)
    requires
        0 <= k <= p.len(),
        forall|j: int| k <= j < p.len() ==> is_sep(#[trigger] p[j]),
    ensures
        trim_seps(p) == trim_seps(p.take(k)),
    decreases p.len() - k,
{
    if k < p.len() {
        assert(p.drop_last().take(k) =~= p.take(k));
        lemma_trim_seps(p.drop_last(), k);
    } else {
        assert(p.take(k) =~= p);
    }
}

proof fn lemma_component_start(p: Seq<char>, k: int)
    requires
        0 <= k <= p.len(),
        forall|j: int| k <= j < p.len() ==> !is_sep(#[trigger] p[j]),
        k == 0 || is_sep(p[k - 1]),
    ensures
        component_start(p) == k,
    decreases p.len() - k,
{
    if k < p.len() {
        if k > 0 {
            assert(p.drop_last()[k - 1] == p[k - 1]);
        }
        lemma_component_start(p.drop_last(), k);
    } else if k > 0 {
    }
}

pub fn file_name_exec(p: &[char]) -> (r: Option<Vec<char>>)
    ensures
        match r {
            Some(v) => file_name(p@) == Some(v@),
            None => file_name(p@) is None,
        },
{
    let mut end: usize = p.len();
    while end > 0 && (p[end - 1] == '/' || p[end - 1] == '\\')
        invariant
            end <= p@.len(),
            forall|j: int| end <= j < p@.len() ==> is_sep(#[trigger] p@[j]),
        decreases end,
    {
        end = end - 1;
    }
    let ghost t = p@.take(end as int);
    proof {
        lemma_trim_seps(p@, end as int);
        assert(trim_seps(t) == t);
    }
    let mut start: usize = end;
    while start > 0 && !(p[start - 1] == '/' || p[start - 1] == '\\')
        invariant
            start <= end <= p@.len(),
            forall|j: int| start <= j < end ==> !is_sep(#[trigger] p@[j]),
        decreases start,
    {
        start = start - 1;
    }
    proof {
        assert forall|j: int| start <= j < t.len() implies !is_sep(#[trigger] t[j]) by {
            assert(t[j] == p@[j]);
        }
        if start > 0 {
            assert(t[start - 1] == p@[start - 1]);
        }
        lemma_component_start(t, start as int);
        assert(t.skip(start as int) =~= p@.subrange(start as int, end as int));
    }
    let c = copy_range(p, start, end);
    if c.len() == 0 || (c.len() == 1 && c[0] == '.') || (c.len() == 2 && c[0] == '.' && c[1]
        == '.') {
        proof {
            if c@.len() == 1 {
                assert(c@ =~= seq!['.']);
            }
            if c@.len() == 2 {
                assert(c@ =~= seq!['.', '.']);
            }
        }
        None
    } else {
        proof {
            if c@ == seq!['.'] {
                assert(c@[0] == '.');
            }
            if c@ == seq!['.', '.'] {
                assert(c@[0] == '.' && c@[1] == '.');
            }
        }
        Some(c)
    }
}

pub fn file_stem_exec(p: &[char]) -> (r: Option<Vec<char>>)
    ensures
        match r {
            Some(v) => file_stem(p@) == Some(v@),
            None => file_stem(p@) is None,
        },
{
    match file_name_exec(p) {
        Some(n) => {
            let mut dot: Vec<char> = Vec::new();
            dot.push('.');
            assert(dot@ =~= seq!['.']);
            proof {
                lemma_rfind_below(n@, dot@, n@.len() as int + 1);
            }
            match rfind_exec(n.as_slice(), dot.as_slice()) {
                Some(i) => if i > 0 {
                    Some(copy_range(n.as_slice(), 0, i))
                } else {
                    Some(n)
                },
                None => Some(n),
            }
        },
        None => None,
    }
}

/// A bare drive, such as `C:`.
pub open spec fn is_drive(dir: Seq<char>) -> bool {
    dir.len() == 2 && dir[1] == ':' && (('a' <= dir[0] && dir[0] <= 'z') || ('A' <= dir[0]
        && dir[0] <= 'Z'))
}

/// `dir` joined with a file name the way `Path::join` does on Windows, the
/// platform the installer runs on, for a relative name: a `\` goes between
/// them unless `dir` is empty, already ends in a separator, or is a bare
/// drive (`C:`).
pub open spec fn join_path(dir: Seq<char>, name: Seq<char>) -> Seq<char> {
    if dir.len() == 0 || is_sep(dir.last()) || is_drive(dir) {
        dir + name
    } else {
        dir + seq!['\\'] + name
    }
}

pub fn join_path_exec(dir: &str, name: &str) -> (r: String)
    ensures
        r@ == join_path(dir@, name@),
{
    let d = to_chars(dir);
    let mut r = from_chars(d.as_slice());
    let n = d.len();
    let drive = n == 2 && d[1] == ':' && (('a' <= d[0] && d[0] <= 'z') || ('A' <= d[0] && d[0]
        <= 'Z'));
    if n > 0 && !(d[n - 1] == '/' || d[n - 1] == '\\') && !drive {
        r.push('\\');
    }
    push_str(&mut r, name);
    r
}


// ───────────────────────────── finding lines ─────────────────────────────

/// A line holds every text of `all`, at least one of `any` (when `any` is not
/// empty) and none of `none`.
pub open spec fn line_ok(
    l: Seq<char>,
    all: Seq<Seq<char>>,
    any: Seq<Seq<char>>,
    none: Seq<Seq<char>>,
) -> bool {
    &&& forall|k: int| 0 <= k < all.len() ==> contains(l, #[trigger] all[k])
    &&& any.len() == 0 || exists|k: int| 0 <= k < any.len() && contains(l, #[trigger] any[k])
    &&& forall|k: int| 0 <= k < none.len() ==> !contains(l, #[trigger] none[k])
}

/// The first line that is `line_ok`.
pub open spec fn first_line(
    ls: Seq<Seq<char>>,
    all: Seq<Seq<char>>,
    any: Seq<Seq<char>>,
    none: Seq<Seq<char>>,
) -> Option<Seq<char>>
    decreases ls.len(),
{
    if ls.len() == 0 {
        None
    } else if line_ok(ls[0], all, any, none) {
        Some(ls[0])
    } else {
        first_line(ls.drop_first(), all, any, none)
    }
}

/// The last line that is `line_ok`.
pub open spec fn last_line(
    ls: Seq<Seq<char>>,
    all: Seq<Seq<char>>,
    any: Seq<Seq<char>>,
    none: Seq<Seq<char>>,
) -> Option<Seq<char>>
    decreases ls.len(),
{
    if ls.len() == 0 {
        None
    } else if line_ok(ls.last(), all, any, none) {
        Some(ls.last())
    } else {
        last_line(ls.drop_last(), all, any, none)
    }
}

/// Where no line is `line_ok`, there is no first one.
pub proof fn lemma_first_line_none(
    ls: Seq<Seq<char>>,
    all: Seq<Seq<char>>,
    any: Seq<Seq<char>>,
    none: Seq<Seq<char>>,
)
    requires
        forall|i: int| 0 <= i < ls.len() ==> !line_ok(#[trigger] ls[i], all, any, none),
    ensures
        first_line(ls, all, any, none) is None,
    decreases ls.len(),
{
    if ls.len() > 0 {
        assert(!line_ok(ls[0], all, any, none));
        assert forall|i: int| 0 <= i < ls.drop_first().len() implies !line_ok(
            #[trigger] ls.drop_first()[i],
            all,
            any,
            none,
        ) by {
            assert(ls.drop_first()[i] == ls[i + 1]);
        }
        lemma_first_line_none(ls.drop_first(), all, any, none);
    }
}

/// Lines put before others that already hold a matching line do not change
/// which line is the last match.
pub proof fn lemma_last_line_append(
    a: Seq<Seq<char>>,
    b: Seq<Seq<char>>,
    all: Seq<Seq<char>>,
    any: Seq<Seq<char>>,
    none: Seq<Seq<char>>,
)
    requires
        last_line(b, all, any, none) is Some,
    ensures
        last_line(a + b, all, any, none) == last_line(b, all, any, none),
    decreases b.len(),
{
    assert((a + b).last() == b.last());
    if !line_ok(b.last(), all, any, none) {
        assert((a + b).drop_last() =~= a + b.drop_last());
        lemma_last_line_append(a, b.drop_last(), all, any, none);
    }
}

/// No patterns.
pub fn pats0() -> (r: Vec<Vec<char>>)
    ensures
        views(r@) == Seq::<Seq<char>>::empty(),
{
    let r: Vec<Vec<char>> = Vec::new();
    assert(views(r@) =~= Seq::<Seq<char>>::empty());
    r
}

/// One pattern.
pub fn pats1(a: &str) -> (r: Vec<Vec<char>>)
    ensures
        views(r@) == seq![a@],
{
    let mut r: Vec<Vec<char>> = Vec::new();
    r.push(to_chars(a));
    assert(views(r@) =~= seq![a@]);
    r
}

/// Two patterns.
pub fn pats2(a: &str, b: &str) -> (r: Vec<Vec<char>>)
    ensures
        views(r@) == seq![a@, b@],
{
    let mut r: Vec<Vec<char>> = Vec::new();
    r.push(to_chars(a));
    r.push(to_chars(b));
    assert(views(r@) =~= seq![a@, b@]);
    r
}

/// Three patterns.
pub fn pats3(a: &str, b: &str, c: &str) -> (r: Vec<Vec<char>>)
    ensures
        views(r@) == seq![a@, b@, c@],
{
    let mut r: Vec<Vec<char>> = Vec::new();
    r.push(to_chars(a));
    r.push(to_chars(b));
    r.push(to_chars(c));
    assert(views(r@) =~= seq![a@, b@, c@]);
    r
}

pub fn line_ok_exec(
    l: &[char],
    all: &Vec<Vec<char>>,
    any: &Vec<Vec<char>>,
    none: &Vec<Vec<char>>,
) -> (r: bool)
    ensures
        r == line_ok(l@, views(all@), views(any@), views(none@)),
{
    let ghost va = views(all@);
    let ghost vy = views(any@);
    let ghost vn = views(none@);
    let mut i: usize = 0;
    while i < all.len()
        invariant
            i <= all@.len(),
            va == views(all@),
            forall|k: int| 0 <= k < i ==> contains(l@, #[trigger] va[k]),
        decreases all@.len() - i,
    {
        if !contains_exec(l, all[i].as_slice()) {
            assert(!contains(l@, va[i as int]));
            return false;
        }
        i = i + 1;
    }
    let mut found = any.len() == 0;
    let mut j: usize = 0;
    while j < any.len() && !found
        invariant
            j <= any@.len(),
            vy == views(any@),
            found ==> (vy.len() == 0 || exists|k: int| 0 <= k < vy.len() && contains(l@, #[trigger] vy[k])),
            !found ==> vy.len() > 0 && forall|k: int| 0 <= k < j ==> !contains(l@, #[trigger] vy[k]),
        decreases any@.len() - j,
    {
        if contains_exec(l, any[j].as_slice()) {
            assert(contains(l@, vy[j as int]));
            found = true;
        }
        j = j + 1;
    }
    if !found {
        return false;
    }
    let mut k: usize = 0;
    while k < none.len()
        invariant
            k <= none@.len(),
            vn == views(none@),
            forall|m: int| 0 <= m < k ==> !contains(l@, #[trigger] vn[m]),
        decreases none@.len() - k,
    {
        if contains_exec(l, none[k].as_slice()) {
            assert(contains(l@, vn[k as int]));
            return false;
        }
        k = k + 1;
    }
    true
}

pub fn first_line_exec(
    ls: &Vec<Vec<char>>,
    all: &Vec<Vec<char>>,
    any: &Vec<Vec<char>>,
    none: &Vec<Vec<char>>,
) -> (r: Option<Vec<char>>)
    ensures
        match r {
            Some(l) => first_line(views(ls@), views(all@), views(any@), views(none@)) == Some(l@),
            None => first_line(views(ls@), views(all@), views(any@), views(none@)) is None,
        },
{
    let ghost v = views(ls@);
    let mut i: usize = 0;
    assert(v.skip(0) =~= v);
    while i < ls.len()
        invariant
            i <= ls@.len(),
            v == views(ls@),
            first_line(v.skip(i as int), views(all@), views(any@), views(none@)) == first_line(
                v,
                views(all@),
                views(any@),
                views(none@),
            ),
        decreases ls@.len() - i,
    {
        assert(v.skip(i as int)[0] == ls@[i as int]@);
        assert(v.skip(i as int).drop_first() =~= v.skip(i + 1));
        if line_ok_exec(ls[i].as_slice(), all, any, none) {
            return Some(copy_range(ls[i].as_slice(), 0, ls[i].len()));
        }
        i = i + 1;
    }
    assert(v.skip(i as int) =~= Seq::<Seq<char>>::empty());
    None
}

pub fn last_line_exec(
    ls: &Vec<Vec<char>>,
    all: &Vec<Vec<char>>,
    any: &Vec<Vec<char>>,
    none: &Vec<Vec<char>>,
) -> (r: Option<Vec<char>>)
    ensures
        match r {
            Some(l) => last_line(views(ls@), views(all@), views(any@), views(none@)) == Some(l@),
            None => last_line(views(ls@), views(all@), views(any@), views(none@)) is None,
        },
{
    let ghost v = views(ls@);
    let mut i: usize = ls.len();
    assert(v.take(v.len() as int) =~= v);
    while i > 0
        invariant
            i <= ls@.len(),
            v == views(ls@),
            last_line(v.take(i as int), views(all@), views(any@), views(none@)) == last_line(
                v,
                views(all@),
                views(any@),
                views(none@),
            ),
        decreases i,
    {
        assert(v.take(i as int).last() == ls@[i - 1]@);
        assert(v.take(i as int).drop_last() =~= v.take(i - 1));
        if line_ok_exec(ls[i - 1].as_slice(), all, any, none) {
            return Some(copy_range(ls[i - 1].as_slice(), 0, ls[i - 1].len()));
        }
        i = i - 1;
    }
    assert(v.take(0) =~= Seq::<Seq<char>>::empty());
    None
}


// ───────────────────────────── strings ─────────────────────────────

/// The texts held by a vector of strings.
pub open spec fn strs(s: Seq<String>) -> Seq<Seq<char>> {
    Seq::new(s.len(), |i: int| s[i]@)
}

/// The characters of each string.
pub fn strings_to_chars(v: &Vec<String>) -> (r: Vec<Vec<char>>)
    ensures
        views(r@) == strs(v@),
{
    let mut r: Vec<Vec<char>> = Vec::new();
    let mut i: usize = 0;
    while i < v.len()
        invariant
            i <= v@.len(),
            views(r@) == strs(v@).take(i as int),
        decreases v@.len() - i,
    {
        let ghost before = views(r@);
        r.push(to_chars(v[i].as_str()));
        assert(views(r@) =~= before.push(v@[i as int]@));
        assert(strs(v@).take(i + 1) =~= strs(v@).take(i as int).push(v@[i as int]@));
        i = i + 1;
    }
    assert(strs(v@).take(v@.len() as int) =~= strs(v@));
    r
}

/// A string for each character vector.
pub fn chars_to_strings(v: &Vec<Vec<char>>) -> (r: Vec<String>)
    ensures
        strs(r@) == views(v@),
{
    let mut r: Vec<String> = Vec::new();
    let mut i: usize = 0;
    while i < v.len()
        invariant
            i <= v@.len(),
            strs(r@) == views(v@).take(i as int),
        decreases v@.len() - i,
    {
        let ghost before = strs(r@);
        r.push(from_chars(v[i].as_slice()));
        assert(strs(r@) =~= before.push(v@[i as int]@));
        assert(views(v@).take(i + 1) =~= views(v@).take(i as int).push(v@[i as int]@));
        i = i + 1;
    }
    assert(views(v@).take(v@.len() as int) =~= views(v@));
    r
}

} // verus!
