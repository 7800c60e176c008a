//! What writing knobs (or a game override) into a cfg text promises about
//! reading them back, and about the lines it does not touch.

use vstd::prelude::*;
use crate::feeder_cfg::{
    CfgRead, opt_view,
    apply_sets, bit, cfg_line, spec_fx_b, spec_fx_uniforms, clamp, knob_sets, kv_of_line, kv_pairs, lookup, prefix_index,
    read_ok, render, spec_get_i, spec_parse_kv, spec_patch, spec_set_line, CfgKnobs,
};
use crate::game_overrides::{
    bit_opt, int_opt, opt_set, override_sets, reset_every_opt, text_opt, work_resolution_opt,
    GameOverride,
};
use crate::num::{all_digits, dec, dec_int, lemma_dec_digits, lemma_parse_i32_dec, parse_i32};
use crate::text::{
    eq_ignore_case, find, is_ws, join, lemma_find, line_len, lines, lower, lower_seq, occurs_at,
    split_once, starts_with, strip_cr, trim, trim_end, trim_start,
};

verus! {

/// No whitespace (and so no line break) anywhere in `s`.
pub open spec fn no_ws(s: Seq<char>) -> bool {
    forall|i: int| 0 <= i < s.len() ==> !is_ws(#[trigger] s[i])
}

/// `c` does not occur in `s`.
pub open spec fn lacks(s: Seq<char>, c: char) -> bool {
    forall|i: int| 0 <= i < s.len() ==> #[trigger] s[i] != c
}

/// A key the cfg can hold: not empty, no whitespace, no `=`, and not the
/// start of a comment.
pub open spec fn good_key(k: Seq<char>) -> bool {
    &&& k.len() > 0
    &&& no_ws(k)
    &&& lacks(k, '=')
    &&& k[0] != '#'
    &&& k[0] != ';'
}

/// The key a cfg line holds is `k` (any case).
pub open spec fn holds_key(l: Seq<char>, k: Seq<char>) -> bool {
    kv_of_line(l) matches Some(kv) && eq_ignore_case(kv.0, k)
}

/// The first line that holds `k` starts with `k=` (any case), not with a
/// blank or as `k =`: every line that holds `k` has such a line at or
/// before it.
pub open spec fn plain_key(ls: Seq<Seq<char>>, k: Seq<char>) -> bool {
    forall|i: int|
        0 <= i < ls.len() && #[trigger] holds_key(ls[i], k) ==> exists|h: int|
            0 <= h <= i && #[trigger] holds_key(ls[h], k) && starts_with(
                lower_seq(ls[h]),
                lower_seq(k + seq!['=']),
            )
}

/// The first line that holds `k` is `k=v`.
pub open spec fn first_holds(ls: Seq<Seq<char>>, k: Seq<char>, v: Seq<char>) -> bool {
    exists|p: int|
        0 <= p < ls.len() && #[trigger] ls[p] == cfg_line(k, v) && forall|i: int|
            0 <= i < p ==> !holds_key(#[trigger] ls[i], k)
}

pub open spec fn all_lack_nl(ls: Seq<Seq<char>>) -> bool {
    forall|i: int| 0 <= i < ls.len() ==> lacks(#[trigger] ls[i], '\n')
}

// ───────────────────────────── trimming ─────────────────────────────

proof fn lemma_no_ws_trim(s: Seq<char>)
    requires
        no_ws(s),
    ensures
        trim(s) == s,
{
    if s.len() > 0 {
        assert(!is_ws(s[0]));
        assert(!is_ws(s.last()));
    }
}

/// `trim_start(s)` drops the leading whitespace, and only that.
proof fn lemma_trim_start_skip(s: Seq<char>) -> (a: int)
    ensures
        0 <= a <= s.len(),
        trim_start(s) == s.skip(a),
        forall|j: int| 0 <= j < a ==> is_ws(#[trigger] s[j]),
        a < s.len() ==> !is_ws(s[a]),
    decreases s.len(),
{
    if s.len() > 0 && is_ws(s[0]) {
        let b = lemma_trim_start_skip(s.drop_first());
        assert(s.drop_first().skip(b) =~= s.skip(b + 1));
        assert forall|j: int| 0 <= j < b + 1 implies is_ws(#[trigger] s[j]) by {
            if j > 0 {
                assert(s[j] == s.drop_first()[j - 1]);
            }
        }
        if b + 1 < s.len() {
            assert(s[b + 1] == s.drop_first()[b]);
        }
        b + 1
    } else {
        assert(s.skip(0) =~= s);
        0
    }
}

/// A whitespace character at the end does not change what `trim` gives.
proof fn lemma_trim_drop_ws_last(s: Seq<char>)
    requires
        s.len() > 0,
        is_ws(s.last()),
    ensures
        trim(s.drop_last()) == trim(s),
{
    let a = lemma_trim_start_skip(s);
    let b = lemma_trim_start_skip(s.drop_last());
    if a == s.len() {
        assert forall|j: int| 0 <= j < s.drop_last().len() implies is_ws(
            #[trigger] s.drop_last()[j],
        ) by {
            assert(s.drop_last()[j] == s[j]);
        }
        if b < s.drop_last().len() {
            assert(s.drop_last()[b] == s[b]);
        }
        assert(trim_start(s) =~= Seq::<char>::empty());
        assert(trim_start(s.drop_last()) =~= Seq::<char>::empty());
    } else {
        assert(a < s.len() - 1);
        if b < a {
            assert(s.drop_last()[b] == s[b]);
        }
        if a < b {
            assert(s.drop_last()[a] == s[a]);
        }
        assert(a == b);
        let x = s.skip(a);
        assert(s.drop_last().skip(a) =~= x.drop_last());
        assert(x.last() == s.last());
        assert(trim_end(x) == trim_end(x.drop_last()));
    }
}

/// The `'\r'` that `lines` drops does not change what a cfg line holds.
proof fn lemma_kv_strip_cr(l: Seq<char>)
    ensures
        kv_of_line(strip_cr(l)) == kv_of_line(l),
{
    if l.len() > 0 && l.last() == '\r' {
        lemma_trim_drop_ws_last(l);
    }
}

// ───────────────────────────── one written line ─────────────────────────────

/// What `k=v` holds, for a good key and a value without whitespace.
proof fn lemma_kv_of_cfg_line(k: Seq<char>, v: Seq<char>)
    requires
        good_key(k),
        no_ws(v),
    ensures
        kv_of_line(cfg_line(k, v)) == Some((k, v)),
{
    let l = cfg_line(k, v);
    assert forall|i: int| 0 <= i < l.len() implies !is_ws(#[trigger] l[i]) by {
        if i < k.len() {
            assert(l[i] == k[i]);
        } else if i > k.len() {
            assert(l[i] == v[i - k.len() - 1]);
        }
    }
    lemma_no_ws_trim(l);
    assert(l[0] == k[0]);
    lemma_find(l, seq!['=']);
    assert(l.subrange(k.len() as int, k.len() as int + 1) =~= seq!['=']);
    assert(occurs_at(l, seq!['='], k.len() as int));
    let f = find(l, seq!['=']);
    assert(f is Some);
    let i = f->0;
    assert(l.subrange(i, i + 1)[0] == l[i]);
    if i < k.len() {
        assert(l[i] == k[i]);
    }
    if i > k.len() {
        assert(!occurs_at(l, seq!['='], k.len() as int));
    }
    assert(i == k.len());
    assert(l.take(i) =~= k);
    assert(l.skip(i + 1) =~= v);
    assert(split_once(l, '=') == Some((k, v)));
    lemma_no_ws_trim(k);
    lemma_no_ws_trim(v);
}

/// A line `k=v` starts with `k2=` (any case) only when `k2` is `k`
/// (any case).
proof fn lemma_cfg_line_prefix(k: Seq<char>, v: Seq<char>, k2: Seq<char>)
    requires
        good_key(k),
        good_key(k2),
        starts_with(lower_seq(cfg_line(k, v)), lower_seq(k2 + seq!['='])),
    ensures
        eq_ignore_case(k, k2),
{
    let l = cfg_line(k, v);
    let p = k2 + seq!['='];
    let ll = lower_seq(l);
    let lp = lower_seq(p);
    assert(ll.subrange(0, lp.len() as int) == lp);
    if k2.len() < k.len() {
        assert(lp[k2.len() as int] == ll[k2.len() as int]);
        assert(l[k2.len() as int] == k[k2.len() as int]);
        assert(p[k2.len() as int] == '=');
        assert(false);
    } else if k2.len() > k.len() {
        assert(lp[k.len() as int] == ll[k.len() as int]);
        assert(l[k.len() as int] == '=');
        assert(p[k.len() as int] == k2[k.len() as int]);
        assert(false);
    } else {
        assert forall|i: int| 0 <= i < k.len() implies lower_seq(k)[i] == lower_seq(k2)[i] by {
            assert(lp[i] == ll[i]);
            assert(l[i] == k[i]);
            assert(p[i] == k2[i]);
        }
        assert(lower_seq(k) =~= lower_seq(k2));
    }
}

/// `k=v` starts with `k=` (any case).
proof fn lemma_cfg_line_starts(k: Seq<char>, v: Seq<char>, k2: Seq<char>)
    requires
        eq_ignore_case(k, k2),
    ensures
        starts_with(lower_seq(cfg_line(k, v)), lower_seq(k2 + seq!['='])),
{
    let l = cfg_line(k, v);
    let p = k2 + seq!['='];
    assert(lower_seq(k).len() == lower_seq(k2).len());
    assert(lower_seq(l).subrange(0, p.len() as int) =~= lower_seq(p)) by {
        assert forall|i: int| 0 <= i < p.len() implies lower_seq(l)[i] == lower_seq(p)[i] by {
            if i < k.len() {
                assert(lower_seq(k)[i] == lower_seq(k2)[i]);
            }
        }
    }
}

// ───────────────────────────── setting lines ─────────────────────────────

proof fn lemma_prefix_index_props(ls: Seq<Seq<char>>, p: Seq<char>)
    ensures
        prefix_index(ls, p) matches Some(i) ==> 0 <= i < ls.len() && starts_with(
            lower_seq(ls[i]),
            lower_seq(p),
        ) && forall|j: int| 0 <= j < i ==> !starts_with(lower_seq(#[trigger] ls[j]), lower_seq(p)),
        prefix_index(ls, p) is None ==> forall|j: int|
            0 <= j < ls.len() ==> !starts_with(lower_seq(#[trigger] ls[j]), lower_seq(p)),
    decreases ls.len(),
{
    if ls.len() > 0 {
        let r = ls.drop_first();
        lemma_prefix_index_props(r, p);
        if !starts_with(lower_seq(ls[0]), lower_seq(p)) {
            match prefix_index(r, p) {
                Some(i) => {
                    assert(ls[i + 1] == r[i]);
                    assert forall|j: int| 0 <= j < i + 1 implies !starts_with(
                        lower_seq(#[trigger] ls[j]),
                        lower_seq(p),
                    ) by {
                        if j > 0 {
                            assert(ls[j] == r[j - 1]);
                        }
                    }
                },
                None => {
                    assert forall|j: int| 0 <= j < ls.len() implies !starts_with(
                        lower_seq(#[trigger] ls[j]),
                        lower_seq(p),
                    ) by {
                        if j > 0 {
                            assert(ls[j] == r[j - 1]);
                        }
                    }
                },
            }
        }
    }
}

/// A line `k2=v2` that holds `k` starts with `k=`.
proof fn lemma_cfg_line_holding(k: Seq<char>, k2: Seq<char>, v2: Seq<char>)
    requires
        good_key(k2),
        no_ws(v2),
    ensures
        holds_key(cfg_line(k2, v2), k) <==> eq_ignore_case(k2, k),
        eq_ignore_case(k2, k) ==> prefixed(cfg_line(k2, v2), k),
{
    lemma_kv_of_cfg_line(k2, v2);
    if eq_ignore_case(k2, k) {
        lemma_cfg_line_starts(k2, v2, k);
    }
}

/// The witness for one line, after setting `k2`.
proof fn lemma_set_keeps_plain_at(
    ls: Seq<Seq<char>>,
    k: Seq<char>,
    k2: Seq<char>,
    v2: Seq<char>,
    i: int,
)
    requires
        plain_key(ls, k),
        good_key(k),
        good_key(k2),
        no_ws(v2),
        0 <= i < spec_set_line(ls, k2, v2).len(),
        holds_key(spec_set_line(ls, k2, v2)[i], k),
    ensures
        exists|h: int|
            0 <= h <= i && #[trigger] holds_key(spec_set_line(ls, k2, v2)[h], k) && prefixed(
                spec_set_line(ls, k2, v2)[h],
                k,
            ),
{
    let r = spec_set_line(ls, k2, v2);
    lemma_prefix_index_props(ls, k2 + seq!['=']);
    lemma_cfg_line_holding(k, k2, v2);
    let q: int = match prefix_index(ls, k2 + seq!['=']) {
        Some(q) => q,
        None => ls.len() as int,
    };
    assert(r[q] == cfg_line(k2, v2));
    if i == q {
        assert(holds_key(r[i], k) && prefixed(r[i], k));
    } else {
        assert(r[i] == ls[i]);
        assert(holds_key(ls[i], k));
        let h = choose|h: int|
            0 <= h <= i && #[trigger] holds_key(ls[h], k) && starts_with(
                lower_seq(ls[h]),
                lower_seq(k + seq!['=']),
            );
        if h == q {
            assert(prefixed(ls[q], k));
            lemma_two_prefixes(ls[q], k, k2);
            assert(eq_ignore_case(k2, k)) by {
                assert(lower_seq(k2) == lower_seq(k));
            }
            assert(holds_key(r[h], k) && prefixed(r[h], k));
        } else {
            assert(r[h] == ls[h]);
            assert(holds_key(r[h], k) && prefixed(r[h], k));
        }
    }
}

/// Setting `k2` keeps the first line that holds `k` starting with `k=`.
proof fn lemma_set_keeps_plain(ls: Seq<Seq<char>>, k: Seq<char>, k2: Seq<char>, v2: Seq<char>)
    requires
        plain_key(ls, k),
        good_key(k),
        good_key(k2),
        no_ws(v2),
    ensures
        plain_key(spec_set_line(ls, k2, v2), k),
{
    let r = spec_set_line(ls, k2, v2);
    assert forall|i: int| 0 <= i < r.len() && #[trigger] holds_key(r[i], k) implies exists|h: int|
        0 <= h <= i && #[trigger] holds_key(r[h], k) && starts_with(
            lower_seq(r[h]),
            lower_seq(k + seq!['=']),
        ) by {
        lemma_set_keeps_plain_at(ls, k, k2, v2, i);
    }
}

/// Setting `k` when every line holding `k` starts with `k=` makes `k=v` the
/// first line holding `k`.
proof fn lemma_set_makes_first(ls: Seq<Seq<char>>, k: Seq<char>, v: Seq<char>)
    requires
        plain_key(ls, k),
        good_key(k),
        no_ws(v),
    ensures
        first_holds(spec_set_line(ls, k, v), k, v),
{
    let r = spec_set_line(ls, k, v);
    let p = k + seq!['='];
    lemma_prefix_index_props(ls, p);
    match prefix_index(ls, p) {
        Some(i) => {
            assert(r[i] == cfg_line(k, v));
            assert forall|j: int| 0 <= j < i implies !holds_key(#[trigger] r[j], k) by {
                assert(r[j] == ls[j]);
                if holds_key(ls[j], k) {
                    let h = choose|h: int|
                        0 <= h <= j && #[trigger] holds_key(ls[h], k) && starts_with(
                            lower_seq(ls[h]),
                            lower_seq(p),
                        );
                    assert(starts_with(lower_seq(ls[h]), lower_seq(p)));
                }
            }
        },
        None => {
            let i = ls.len() as int;
            assert(r[i] == cfg_line(k, v));
            assert forall|j: int| 0 <= j < i implies !holds_key(#[trigger] r[j], k) by {
                assert(r[j] == ls[j]);
                if holds_key(ls[j], k) {
                    let h = choose|h: int|
                        0 <= h <= j && #[trigger] holds_key(ls[h], k) && starts_with(
                            lower_seq(ls[h]),
                            lower_seq(p),
                        );
                    assert(starts_with(lower_seq(ls[h]), lower_seq(p)));
                }
            }
        },
    }
}

/// Setting another key keeps `k=v` the first line holding `k`.
proof fn lemma_set_other_keeps_first(
    ls: Seq<Seq<char>>,
    k: Seq<char>,
    v: Seq<char>,
    k2: Seq<char>,
    v2: Seq<char>,
)
    requires
        first_holds(ls, k, v),
        good_key(k),
        good_key(k2),
        no_ws(v2),
        !eq_ignore_case(k, k2),
    ensures
        first_holds(spec_set_line(ls, k2, v2), k, v),
{
    let r = spec_set_line(ls, k2, v2);
    let p = choose|p: int|
        0 <= p < ls.len() && #[trigger] ls[p] == cfg_line(k, v) && forall|i: int|
            0 <= i < p ==> !holds_key(#[trigger] ls[i], k);
    lemma_kv_of_cfg_line(k2, v2);
    lemma_prefix_index_props(ls, k2 + seq!['=']);
    if let Some(q) = prefix_index(ls, k2 + seq!['=']) {
        if q == p {
            lemma_cfg_line_prefix(k, v, k2);
        }
    }
    assert(r[p] == cfg_line(k, v));
    assert forall|i: int| 0 <= i < p implies !holds_key(#[trigger] r[i], k) by {
        if r[i] != ls[i] {
            assert(r[i] == cfg_line(k2, v2));
            if holds_key(r[i], k) {
                assert(eq_ignore_case(k2, k));
                assert(lower_seq(k) == lower_seq(k2));
            }
        }
    }
}

proof fn lemma_set_keeps_lack_nl(ls: Seq<Seq<char>>, k: Seq<char>, v: Seq<char>)
    requires
        all_lack_nl(ls),
        no_ws(k),
        no_ws(v),
    ensures
        all_lack_nl(spec_set_line(ls, k, v)),
{
    let l = cfg_line(k, v);
    assert forall|i: int| 0 <= i < l.len() implies #[trigger] l[i] != '\n' by {
        if i < k.len() {
            assert(l[i] == k[i]);
            assert(!is_ws(k[i]));
        } else if i > k.len() {
            assert(l[i] == v[i - k.len() - 1]);
            assert(!is_ws(v[i - k.len() - 1]));
        }
    }
    let r = spec_set_line(ls, k, v);
    lemma_prefix_index_props(ls, k + seq!['=']);
    assert forall|i: int| 0 <= i < r.len() implies lacks(#[trigger] r[i], '\n') by {
        let fresh = match prefix_index(ls, k + seq!['=']) {
            Some(q) => i == q,
            None => i == ls.len(),
        };
        if fresh {
            assert(r[i] == l);
        } else {
            assert(r[i] == ls[i]);
        }
    }
}

// ───────────────────────────── reading lines back ─────────────────────────────

/// `lookup` finds the value of the first line that holds the key.
proof fn lemma_lookup_first(ls: Seq<Seq<char>>, k: Seq<char>, v: Seq<char>)
    requires
        first_holds(ls, k, v),
        good_key(k),
        no_ws(v),
    ensures
        lookup(kv_pairs(ls), k) == Some(v),
    decreases ls.len(),
{
    let p = choose|p: int|
        0 <= p < ls.len() && #[trigger] ls[p] == cfg_line(k, v) && forall|i: int|
            0 <= i < p ==> !holds_key(#[trigger] ls[i], k);
    lemma_kv_of_cfg_line(k, v);
    if p == 0 {
        assert(kv_pairs(ls) == seq![(k, v)] + kv_pairs(ls.drop_first()));
        assert((seq![(k, v)] + kv_pairs(ls.drop_first()))[0] == (k, v));
    } else {
        let r = ls.drop_first();
        assert(r[p - 1] == cfg_line(k, v));
        assert forall|i: int| 0 <= i < p - 1 implies !holds_key(#[trigger] r[i], k) by {
            assert(r[i] == ls[i + 1]);
        }
        lemma_lookup_first(r, k, v);
        assert(!holds_key(ls[0], k));
        match kv_of_line(ls[0]) {
            Some(kv) => {
                let m = seq![kv] + kv_pairs(r);
                assert(m[0] == kv);
                assert(m.drop_first() =~= kv_pairs(r));
            },
            None => {},
        }
    }
}

proof fn lemma_kv_pairs_push(ls: Seq<Seq<char>>, x: Seq<char>)
    ensures
        kv_pairs(ls.push(x)) == kv_pairs(ls) + match kv_of_line(x) {
            Some(kv) => seq![kv],
            None => Seq::empty(),
        },
    decreases ls.len(),
{
    if ls.len() == 0 {
        assert(ls.push(x).drop_first() =~= Seq::<Seq<char>>::empty());
        assert(kv_pairs(ls.push(x).drop_first()) == Seq::<(Seq<char>, Seq<char>)>::empty());
    } else {
        assert(ls.push(x).drop_first() =~= ls.drop_first().push(x));
        lemma_kv_pairs_push(ls.drop_first(), x);
        assert(ls.push(x)[0] == ls[0]);
    }
}

/// Lines with their `'\r'` dropped hold the same pairs.
proof fn lemma_kv_pairs_strip(ls: Seq<Seq<char>>)
    ensures
        kv_pairs(ls.map_values(|l: Seq<char>| strip_cr(l))) == kv_pairs(ls),
    decreases ls.len(),
{
    if ls.len() > 0 {
        let m = ls.map_values(|l: Seq<char>| strip_cr(l));
        assert(m.drop_first() =~= ls.drop_first().map_values(|l: Seq<char>| strip_cr(l)));
        lemma_kv_pairs_strip(ls.drop_first());
        lemma_kv_strip_cr(ls[0]);
    }
}

/// `join` seen from the front.
proof fn lemma_join_front(ls: Seq<Seq<char>>, sep: Seq<char>)
    requires
        ls.len() >= 2,
    ensures
        join(ls, sep) == ls[0] + sep + join(ls.drop_first(), sep),
    decreases ls.len(),
{
    if ls.len() > 2 {
        lemma_join_front(ls.drop_last(), sep);
        assert(ls.drop_last().drop_first() =~= ls.drop_first().drop_last());
        assert(ls.drop_first().last() == ls.last());
        assert(ls.drop_last()[0] == ls[0]);
        let a = ls[0];
        let m = join(ls.drop_first().drop_last(), sep);
        assert(join(ls, sep) == join(ls.drop_last(), sep) + sep + ls.last());
        assert(join(ls.drop_last(), sep) == a + sep + m);
        assert(join(ls.drop_first(), sep) == m + sep + ls.last());
        assert(a + sep + m + sep + ls.last() =~= a + sep + (m + sep + ls.last()));
    } else {
        assert(ls.drop_last() =~= seq![ls[0]]);
        assert(ls.drop_first() =~= seq![ls[1]]);
        assert(join(ls.drop_last(), sep) == ls[0]);
        assert(join(ls.drop_first(), sep) == ls[1]);
    }
}

/// A line without `'\n'`, then `'\n'`, then the rest.
proof fn lemma_lines_cons(a: Seq<char>, b: Seq<char>)
    requires
        lacks(a, '\n'),
    ensures
        lines(a + seq!['\n'] + b) == seq![strip_cr(a)] + lines(b),
{
    let s = a + seq!['\n'] + b;
    assert forall|j: int| 0 <= j < a.len() implies #[trigger] s[j] != '\n' by {
        assert(s[j] == a[j]);
    }
    lemma_line_len_at(s, a.len() as int);
    assert(s.take(a.len() as int) =~= a);
    assert(s.skip(a.len() as int + 1) =~= b);
}

proof fn lemma_line_len_at(s: Seq<char>, k: int)
    requires
        0 <= k < s.len(),
        forall|j: int| 0 <= j < k ==> #[trigger] s[j] != '\n',
        s[k] == '\n',
    ensures
        line_len(s) == k,
    decreases k,
{
    if k > 0 {
        assert forall|j: int| 0 <= j < k - 1 implies #[trigger] s.drop_first()[j] != '\n' by {
            assert(s.drop_first()[j] == s[j + 1]);
        }
        lemma_line_len_at(s.drop_first(), k - 1);
    }
}

/// Every line joined and ended with `'\n'` reads back as those lines (less
/// any `'\r'` at their end).
proof fn lemma_lines_of_joined(ls: Seq<Seq<char>>)
    requires
        ls.len() > 0,
        all_lack_nl(ls),
    ensures
        lines(join(ls, seq!['\n']) + seq!['\n']) == ls.map_values(|l: Seq<char>| strip_cr(l)),
    decreases ls.len(),
{
    if ls.len() == 1 {
        lemma_lines_cons(ls[0], Seq::empty());
        assert(ls[0] + seq!['\n'] + Seq::<char>::empty() =~= ls[0] + seq!['\n']);
        assert(lines(Seq::<char>::empty()) =~= Seq::<Seq<char>>::empty());
        assert(seq![strip_cr(ls[0])] + Seq::<Seq<char>>::empty() =~= ls.map_values(
            |l: Seq<char>| strip_cr(l),
        ));
    } else {
        let r = ls.drop_first();
        assert forall|i: int| 0 <= i < r.len() implies lacks(#[trigger] r[i], '\n') by {
            assert(r[i] == ls[i + 1]);
        }
        lemma_lines_of_joined(r);
        lemma_join_front(ls, seq!['\n']);
        assert(join(ls, seq!['\n']) + seq!['\n'] =~= ls[0] + seq!['\n'] + (join(r, seq!['\n'])
            + seq!['\n']));
        assert(lacks(ls[0], '\n'));
        lemma_lines_cons(ls[0], join(r, seq!['\n']) + seq!['\n']);
        assert(seq![strip_cr(ls[0])] + r.map_values(|l: Seq<char>| strip_cr(l)) =~= ls.map_values(
            |l: Seq<char>| strip_cr(l),
        ));
    }
}

proof fn lemma_join_last(ls: Seq<Seq<char>>, sep: Seq<char>)
    requires
        ls.len() > 0,
        ls.last().len() > 0,
    ensures
        join(ls, sep).len() > 0,
        join(ls, sep).last() == ls.last().last(),
{
}

/// Reading back what `render` wrote gives the pairs of the lines it was
/// given.
proof fn lemma_render_pairs(ls: Seq<Seq<char>>)
    requires
        all_lack_nl(ls),
    ensures
        kv_pairs(lines(render(ls))) == kv_pairs(ls),
{
    let j = join(ls, "\n"@);
    assert("\n"@ =~= seq!['\n']) by {
        reveal_strlit("\n");
    }
    if ls.len() == 0 {
        assert(render(ls) =~= seq!['\n']);
        lemma_lines_cons(Seq::empty(), Seq::empty());
        assert(Seq::<char>::empty() + seq!['\n'] + Seq::<char>::empty() =~= seq!['\n']);
        assert(strip_cr(Seq::<char>::empty()) =~= Seq::<char>::empty());
        assert(lines(Seq::<char>::empty()) =~= Seq::<Seq<char>>::empty());
        assert(kv_of_line(Seq::<char>::empty()) is None);
        let one: Seq<Seq<char>> = seq![Seq::<char>::empty()];
        assert(one.drop_first() =~= Seq::<Seq<char>>::empty());
        assert(lines(render(ls)) == one);
        assert(kv_pairs(one) == kv_pairs(one.drop_first()));
        assert(kv_pairs(lines(render(ls))) == kv_pairs(ls));
    } else if j.len() > 0 && j.last() == '\n' {
        // Only an empty last line leaves the text ending in '\n'.
        if ls.last().len() > 0 {
            lemma_join_last(ls, "\n"@);
            assert(lacks(ls.last(), '\n'));
            assert(ls.last()[ls.last().len() - 1] != '\n');
        }
        if ls.len() == 1 {
            assert(j == ls[0]);
        }
        assert(ls.len() >= 2);
        let front = ls.drop_last();
        assert forall|i: int| 0 <= i < front.len() implies lacks(#[trigger] front[i], '\n') by {
            assert(front[i] == ls[i]);
        }
        assert(j =~= join(front, seq!['\n']) + seq!['\n']);
        lemma_lines_of_joined(front);
        lemma_kv_pairs_strip(front);
        assert(ls =~= front.push(ls.last()));
        lemma_kv_pairs_push(front, ls.last());
        assert(ls.last() =~= Seq::<char>::empty());
        assert(trim(Seq::<char>::empty()) =~= Seq::<char>::empty());
        assert(kv_of_line(ls.last()) is None);
        assert(kv_pairs(front) + Seq::<(Seq<char>, Seq<char>)>::empty() =~= kv_pairs(front));
        assert(render(ls) == j);
        assert(kv_pairs(lines(render(ls))) == kv_pairs(ls));
    } else {
        assert(render(ls) == j.push('\n'));
        assert(j.push('\n') =~= join(ls, seq!['\n']) + seq!['\n']);
        lemma_lines_of_joined(ls);
        lemma_kv_pairs_strip(ls);
        assert(kv_pairs(lines(render(ls))) == kv_pairs(ls));
    }
}

proof fn lemma_lines_lack_nl(s: Seq<char>)
    ensures
        all_lack_nl(lines(s)),
    decreases s.len(),
{
    if s.len() > 0 {
        let n = line_len(s);
        lemma_line_len_bound(s);
        if n < s.len() {
            lemma_lines_lack_nl(s.skip(n as int + 1));
            let first = strip_cr(s.take(n as int));
            assert(lacks(s.take(n as int), '\n'));
            assert(lacks(first, '\n'));
            let ls = lines(s);
            assert forall|i: int| 0 <= i < ls.len() implies lacks(#[trigger] ls[i], '\n') by {
                if i > 0 {
                    assert(ls[i] == lines(s.skip(n as int + 1))[i - 1]);
                }
            }
        }
    }
}

proof fn lemma_line_len_bound(s: Seq<char>)
    ensures
        line_len(s) <= s.len(),
        forall|j: int| 0 <= j < line_len(s) ==> #[trigger] s[j] != '\n',
        line_len(s) < s.len() ==> s[line_len(s) as int] == '\n',
    decreases s.len(),
{
    if s.len() > 0 && s[0] != '\n' {
        lemma_line_len_bound(s.drop_first());
        assert forall|j: int| 0 <= j < line_len(s) implies #[trigger] s[j] != '\n' by {
            if j > 0 {
                assert(s[j] == s.drop_first()[j - 1]);
            }
        }
    }
}

// ───────────────────────────── setting again ─────────────────────────────

/// `l` starts with `k=`, ignoring ASCII case.
pub open spec fn prefixed(l: Seq<char>, k: Seq<char>) -> bool {
    starts_with(lower_seq(l), lower_seq(k + seq!['=']))
}

/// The first line that starts with `k=` (any case) is `k=v`.
pub open spec fn set_holds(ls: Seq<Seq<char>>, k: Seq<char>, v: Seq<char>) -> bool {
    prefix_index(ls, k + seq!['=']) matches Some(p) && ls[p] == cfg_line(k, v)
}

/// Good keys, no two the same in any case.
pub open spec fn distinct_keys(sets: Seq<(Seq<char>, Seq<char>)>) -> bool {
    &&& forall|i: int| 0 <= i < sets.len() ==> good_key(#[trigger] sets[i].0)
    &&& forall|i: int, j: int|
        0 <= i < j < sets.len() ==> !eq_ignore_case(#[trigger] sets[i].0, #[trigger] sets[j].0)
}

/// No line ends with `'\r'`.
pub open spec fn no_cr_end(ls: Seq<Seq<char>>) -> bool {
    forall|i: int| 0 <= i < ls.len() ==> !(#[trigger] ls[i].len() > 0 && ls[i].last() == '\r')
}

/// The list is empty or its last line is not.
pub open spec fn last_not_blank(ls: Seq<Seq<char>>) -> bool {
    ls.len() == 0 || ls.last().len() > 0
}

/// The last two lines are both blank.
pub open spec fn ends_two_blank(ls: Seq<Seq<char>>) -> bool {
    ls.len() >= 2 && ls.last().len() == 0 && ls[ls.len() - 2].len() == 0
}

/// A line starts with `k=` and with `k2=` (any case) only when `k` and `k2`
/// are the same key (any case).
proof fn lemma_two_prefixes(l: Seq<char>, k: Seq<char>, k2: Seq<char>)
    requires
        good_key(k),
        good_key(k2),
        prefixed(l, k),
        prefixed(l, k2),
    ensures
        eq_ignore_case(k, k2),
{
    let ll = lower_seq(l);
    let p = k + seq!['='];
    let p2 = k2 + seq!['='];
    let lp = lower_seq(p);
    let lp2 = lower_seq(p2);
    assert(ll.subrange(0, lp.len() as int) == lp);
    assert(ll.subrange(0, lp2.len() as int) == lp2);
    if k2.len() < k.len() {
        assert(lp2[k2.len() as int] == ll[k2.len() as int]);
        assert(lp[k2.len() as int] == ll[k2.len() as int]);
        assert(p2[k2.len() as int] == '=');
        assert(p[k2.len() as int] == k[k2.len() as int]);
        assert(false);
    } else if k2.len() > k.len() {
        assert(lp2[k.len() as int] == ll[k.len() as int]);
        assert(lp[k.len() as int] == ll[k.len() as int]);
        assert(p[k.len() as int] == '=');
        assert(p2[k.len() as int] == k2[k.len() as int]);
        assert(false);
    } else {
        assert forall|i: int| 0 <= i < k.len() implies lower_seq(k)[i] == lower_seq(k2)[i] by {
            assert(lp[i] == ll[i]);
            assert(lp2[i] == ll[i]);
            assert(p[i] == k[i]);
            assert(p2[i] == k2[i]);
        }
        assert(lower_seq(k) =~= lower_seq(k2));
    }
}

/// Setting another key changes no line that starts with `k=`, and makes
/// none: the first such line stays where it is, as it is.
proof fn lemma_set_other_prefix(ls: Seq<Seq<char>>, k: Seq<char>, k2: Seq<char>, v2: Seq<char>)
    requires
        good_key(k),
        good_key(k2),
        !eq_ignore_case(k, k2),
    ensures
        prefix_index(spec_set_line(ls, k2, v2), k + seq!['=']) == prefix_index(ls, k + seq!['=']),
        prefix_index(ls, k + seq!['=']) matches Some(p) ==> spec_set_line(ls, k2, v2)[p] == ls[p],
{
    let r = spec_set_line(ls, k2, v2);
    let pk = k + seq!['='];
    lemma_prefix_index_props(ls, k2 + seq!['=']);
    lemma_prefix_index_props(ls, pk);
    lemma_prefix_index_props(r, pk);
    let q: int = match prefix_index(ls, k2 + seq!['=']) {
        Some(q) => q,
        None => ls.len() as int,
    };
    assert(r.len() >= ls.len());
    assert(r[q] == cfg_line(k2, v2));
    if prefixed(cfg_line(k2, v2), k) {
        lemma_cfg_line_prefix(k2, v2, k);
        assert(eq_ignore_case(k, k2));
    }
    assert(!prefixed(r[q], k));
    if q < ls.len() && prefixed(ls[q], k) {
        lemma_two_prefixes(ls[q], k, k2);
    }
    assert(forall|j: int| 0 <= j < r.len() && j != q ==> #[trigger] r[j] == ls[j]);
    match prefix_index(ls, pk) {
        Some(p) => {
            assert(p != q);
            assert(r[p] == ls[p]);
            match prefix_index(r, pk) {
                Some(i) => {
                    if i < p {
                        if i != q {
                            assert(r[i] == ls[i]);
                        }
                    } else if i > p {
                        assert(prefixed(r[p], k));
                    }
                },
                None => {
                    assert(prefixed(r[p], k));
                },
            }
        },
        None => {
            match prefix_index(r, pk) {
                Some(i) => {
                    if i != q {
                        assert(r[i] == ls[i]);
                    }
                },
                None => {},
            }
        },
    }
}

/// After setting `k` to `v`, the first line that starts with `k=` is `k=v`.
proof fn lemma_set_then_holds(ls: Seq<Seq<char>>, k: Seq<char>, v: Seq<char>)
    requires
        good_key(k),
    ensures
        set_holds(spec_set_line(ls, k, v), k, v),
{
    let r = spec_set_line(ls, k, v);
    let pk = k + seq!['='];
    lemma_prefix_index_props(ls, pk);
    lemma_prefix_index_props(r, pk);
    lemma_cfg_line_starts(k, v, k);
    let q: int = match prefix_index(ls, pk) {
        Some(q) => q,
        None => ls.len() as int,
    };
    assert(r[q] == cfg_line(k, v));
    assert(prefixed(r[q], k));
    assert(forall|j: int| 0 <= j < q ==> #[trigger] r[j] == ls[j]);
    match prefix_index(r, pk) {
        Some(i) => {
            if i < q {
                assert(r[i] == ls[i]);
            }
        },
        None => {},
    }
}

/// Setting `k` to `v` where the first `k=` line already is `k=v` changes
/// nothing.
proof fn lemma_set_stable(ls: Seq<Seq<char>>, k: Seq<char>, v: Seq<char>)
    requires
        set_holds(ls, k, v),
    ensures
        spec_set_line(ls, k, v) == ls,
{
    lemma_prefix_index_props(ls, k + seq!['=']);
    let p = prefix_index(ls, k + seq!['='])->0;
    assert(ls.update(p, cfg_line(k, v)) =~= ls);
}

/// After setting each pair in turn, each first `key=` line holds its value.
proof fn lemma_apply_sets_holds(ls: Seq<Seq<char>>, sets: Seq<(Seq<char>, Seq<char>)>)
    requires
        distinct_keys(sets),
    ensures
        forall|i: int|
            0 <= i < sets.len() ==> set_holds(apply_sets(ls, sets), #[trigger] sets[i].0, sets[i].1),
    decreases sets.len(),
{
    if sets.len() > 0 {
        let front = sets.drop_last();
        assert(distinct_keys(front)) by {
            assert forall|i: int| 0 <= i < front.len() implies good_key(#[trigger] front[i].0) by {
                assert(front[i] == sets[i]);
            }
            assert forall|i: int, j: int| 0 <= i < j < front.len() implies !eq_ignore_case(
                #[trigger] front[i].0,
                #[trigger] front[j].0,
            ) by {
                assert(front[i] == sets[i] && front[j] == sets[j]);
            }
        }
        lemma_apply_sets_holds(ls, front);
        let a = apply_sets(ls, front);
        let (k, v) = sets.last();
        assert(sets[sets.len() - 1] == (k, v));
        lemma_set_then_holds(a, k, v);
        assert forall|i: int| 0 <= i < sets.len() implies set_holds(
            apply_sets(ls, sets),
            #[trigger] sets[i].0,
            sets[i].1,
        ) by {
            if i < sets.len() - 1 {
                assert(front[i] == sets[i]);
                assert(set_holds(a, front[i].0, front[i].1));
                lemma_set_other_prefix(a, sets[i].0, k, v);
            }
        }
    }
}

/// Setting pairs whose first `key=` lines already hold them changes nothing.
proof fn lemma_apply_sets_stable(ls: Seq<Seq<char>>, sets: Seq<(Seq<char>, Seq<char>)>)
    requires
        forall|i: int| 0 <= i < sets.len() ==> set_holds(ls, #[trigger] sets[i].0, sets[i].1),
    ensures
        apply_sets(ls, sets) == ls,
    decreases sets.len(),
{
    if sets.len() > 0 {
        let front = sets.drop_last();
        assert forall|i: int| 0 <= i < front.len() implies set_holds(
            ls,
            #[trigger] front[i].0,
            front[i].1,
        ) by {
            assert(front[i] == sets[i]);
        }
        lemma_apply_sets_stable(ls, front);
        assert(sets[sets.len() - 1] == sets.last());
        lemma_set_stable(ls, sets.last().0, sets.last().1);
    }
}

/// How many of the keys have no `key=` line in `ls` (any case).
pub open spec fn absent_count(ls: Seq<Seq<char>>, sets: Seq<(Seq<char>, Seq<char>)>) -> nat
    decreases sets.len(),
{
    if sets.len() == 0 {
        0
    } else {
        absent_count(ls, sets.drop_last()) + if prefix_index(ls, sets.last().0 + seq!['='])
            is None {
            1nat
        } else {
            0nat
        }
    }
}

/// Setting keys other than `k` leaves the first `k=` line where it is.
proof fn lemma_apply_others_prefix(
    ls: Seq<Seq<char>>,
    sets: Seq<(Seq<char>, Seq<char>)>,
    k: Seq<char>,
)
    requires
        good_key(k),
        forall|i: int| 0 <= i < sets.len() ==> good_key(#[trigger] sets[i].0),
        forall|i: int| 0 <= i < sets.len() ==> !eq_ignore_case(k, #[trigger] sets[i].0),
    ensures
        prefix_index(apply_sets(ls, sets), k + seq!['=']) == prefix_index(ls, k + seq!['=']),
    decreases sets.len(),
{
    if sets.len() > 0 {
        let front = sets.drop_last();
        assert forall|i: int| 0 <= i < front.len() implies good_key(#[trigger] front[i].0)
            && !eq_ignore_case(k, front[i].0) by {
            assert(front[i] == sets[i]);
        }
        lemma_apply_others_prefix(ls, front, k);
        assert(sets[sets.len() - 1] == sets.last());
        lemma_set_other_prefix(apply_sets(ls, front), k, sets.last().0, sets.last().1);
    }
}

/// Setting adds one line for each key that has no `key=` line yet, and
/// none for the others.
proof fn lemma_apply_sets_len(ls: Seq<Seq<char>>, sets: Seq<(Seq<char>, Seq<char>)>)
    requires
        distinct_keys(sets),
    ensures
        apply_sets(ls, sets).len() == ls.len() + absent_count(ls, sets),
    decreases sets.len(),
{
    if sets.len() > 0 {
        let front = sets.drop_last();
        assert(distinct_keys(front)) by {
            assert forall|i: int| 0 <= i < front.len() implies good_key(#[trigger] front[i].0) by {
                assert(front[i] == sets[i]);
            }
            assert forall|i: int, j: int| 0 <= i < j < front.len() implies !eq_ignore_case(
                #[trigger] front[i].0,
                #[trigger] front[j].0,
            ) by {
                assert(front[i] == sets[i] && front[j] == sets[j]);
            }
        }
        lemma_apply_sets_len(ls, front);
        let k = sets.last().0;
        assert(sets[sets.len() - 1] == sets.last());
        assert forall|i: int| 0 <= i < front.len() implies good_key(#[trigger] front[i].0)
            && !eq_ignore_case(k, front[i].0) by {
            assert(front[i] == sets[i]);
            assert(!eq_ignore_case(sets[i].0, sets[sets.len() - 1].0));
        }
        lemma_apply_others_prefix(ls, front, k);
        let a = apply_sets(ls, front);
        assert(apply_sets(ls, sets) == spec_set_line(a, k, sets.last().1));
        assert(prefix_index(a, k + seq!['=']) == prefix_index(ls, k + seq!['=']));
        lemma_prefix_index_props(a, k + seq!['=']);
        if prefix_index(a, k + seq!['=']) is None {
            assert(spec_set_line(a, k, sets.last().1).len() == a.len() + 1);
        } else {
            assert(spec_set_line(a, k, sets.last().1).len() == a.len());
        }
        assert(absent_count(ls, sets) == absent_count(ls, front) + if prefix_index(ls, k + seq!['='])
            is None {
            1nat
        } else {
            0nat
        });
    }
}

/// Setting keeps a line list's last line not blank, and no line ending in
/// `'\r'`, when the value does not end in `'\r'`.
proof fn lemma_set_shape(ls: Seq<Seq<char>>, k: Seq<char>, v: Seq<char>)
    requires
        good_key(k),
        no_ws(v),
    ensures
        spec_set_line(ls, k, v).len() > 0,
        last_not_blank(ls) ==> last_not_blank(spec_set_line(ls, k, v)),
        !ends_two_blank(ls) ==> !ends_two_blank(spec_set_line(ls, k, v)),
        no_cr_end(ls) ==> no_cr_end(spec_set_line(ls, k, v)),
{
    let r = spec_set_line(ls, k, v);
    let l = cfg_line(k, v);
    lemma_prefix_index_props(ls, k + seq!['=']);
    assert(l.len() > 0);
    assert(!(l.last() == '\r')) by {
        if v.len() > 0 {
            assert(l.last() == v[v.len() - 1]);
            assert(!is_ws(v[v.len() - 1]));
        } else {
            assert(l.last() == '=');
        }
    }
    let q: int = match prefix_index(ls, k + seq!['=']) {
        Some(q) => q,
        None => ls.len() as int,
    };
    assert(r[q] == l);
    assert(forall|j: int| 0 <= j < r.len() && j != q ==> #[trigger] r[j] == ls[j]);
    if no_cr_end(ls) {
        assert forall|i: int| 0 <= i < r.len() implies !(#[trigger] r[i].len() > 0 && r[i].last()
            == '\r') by {
            if i != q {
                assert(r[i] == ls[i]);
            }
        }
    }
    if last_not_blank(ls) {
        if r.len() - 1 != q {
            assert(r.last() == ls.last());
        }
    }
    if !ends_two_blank(ls) && r.len() >= 2 && r.len() - 1 != q && r.len() - 2 != q {
        assert(r.len() == ls.len());
        assert(r.last() == ls.last());
        assert(r[r.len() - 2] == ls[ls.len() - 2]);
    }
}

/// Setting pairs keeps the shape `lemma_set_shape` keeps.
proof fn lemma_apply_sets_shape(ls: Seq<Seq<char>>, sets: Seq<(Seq<char>, Seq<char>)>)
    requires
        readable_sets(sets),
    ensures
        sets.len() > 0 ==> apply_sets(ls, sets).len() > 0,
        last_not_blank(ls) ==> last_not_blank(apply_sets(ls, sets)),
        !ends_two_blank(ls) ==> !ends_two_blank(apply_sets(ls, sets)),
        no_cr_end(ls) ==> no_cr_end(apply_sets(ls, sets)),
        all_lack_nl(ls) ==> all_lack_nl(apply_sets(ls, sets)),
        apply_sets(ls, sets).len() >= ls.len(),
    decreases sets.len(),
{
    if sets.len() > 0 {
        let front = sets.drop_last();
        assert(readable_sets(front)) by {
            assert forall|i: int| 0 <= i < front.len() implies good_key(#[trigger] front[i].0)
                && no_ws(front[i].1) by {
                assert(front[i] == sets[i]);
            }
            assert forall|i: int, j: int| 0 <= i < j < front.len() implies !eq_ignore_case(
                #[trigger] front[i].0,
                #[trigger] front[j].0,
            ) by {
                assert(front[i] == sets[i] && front[j] == sets[j]);
            }
        }
        lemma_apply_sets_shape(ls, front);
        assert(sets[sets.len() - 1] == sets.last());
        lemma_set_shape(apply_sets(ls, front), sets.last().0, sets.last().1);
        lemma_prefix_index_props(apply_sets(ls, front), sets.last().0 + seq!['=']);
        if all_lack_nl(ls) {
            lemma_set_keeps_lack_nl(apply_sets(ls, front), sets.last().0, sets.last().1);
        }
    }
}

/// `render` always ends its text with `'\n'`.
proof fn lemma_render_ends(ls: Seq<Seq<char>>)
    ensures
        render(ls).len() > 0,
        render(ls).last() == '\n',
{
}

/// Lines that hold no `'\n'` and end in no `'\r'`, the last not blank, read
/// back from what `render` wrote as themselves.
proof fn lemma_lines_of_render(ls: Seq<Seq<char>>)
    requires
        ls.len() > 0,
        all_lack_nl(ls),
        no_cr_end(ls),
        last_not_blank(ls),
    ensures
        lines(render(ls)) == ls,
{
    assert("\n"@ =~= seq!['\n']) by {
        reveal_strlit("\n");
    }
    let j = join(ls, seq!['\n']);
    lemma_join_last(ls, seq!['\n']);
    assert(lacks(ls.last(), '\n'));
    assert(ls.last()[ls.last().len() - 1] != '\n');
    assert(render(ls) == j.push('\n'));
    assert(j.push('\n') =~= j + seq!['\n']);
    lemma_lines_of_joined(ls);
    assert(ls.map_values(|l: Seq<char>| strip_cr(l)) =~= ls) by {
        assert forall|i: int| 0 <= i < ls.len() implies strip_cr(#[trigger] ls[i]) == ls[i] by {
            assert(!(ls[i].len() > 0 && ls[i].last() == '\r'));
        }
    }
}

/// Where the first `k=` line lies before the last line, dropping the last
/// line leaves it first.
proof fn lemma_prefix_index_drop_last(ls: Seq<Seq<char>>, p: Seq<char>)
    requires
        prefix_index(ls, p) matches Some(i) && i < ls.len() - 1,
    ensures
        prefix_index(ls.drop_last(), p) == prefix_index(ls, p),
{
    let m = ls.drop_last();
    let i = prefix_index(ls, p)->0;
    lemma_prefix_index_props(ls, p);
    lemma_prefix_index_props(m, p);
    assert(m[i] == ls[i]);
    match prefix_index(m, p) {
        Some(j) => {
            assert(m[j] == ls[j]);
        },
        None => {},
    }
}

/// `"\n"` reads back as one blank line, and one blank line renders as
/// `"\n"`.
proof fn lemma_one_blank()
    ensures
        lines(seq!['\n']) == seq![Seq::<char>::empty()],
        render(seq![Seq::<char>::empty()]) == seq!['\n'],
        render(Seq::<Seq<char>>::empty()) == seq!['\n'],
{
    assert("\n"@ =~= seq!['\n']) by {
        reveal_strlit("\n");
    }
    lemma_lines_cons(Seq::empty(), Seq::empty());
    assert(Seq::<char>::empty() + seq!['\n'] + Seq::<char>::empty() =~= seq!['\n']);
    assert(strip_cr(Seq::<char>::empty()) =~= Seq::<char>::empty());
    assert(lines(Seq::<char>::empty()) =~= Seq::<Seq<char>>::empty());
    let one: Seq<Seq<char>> = seq![Seq::<char>::empty()];
    assert(seq![Seq::<char>::empty()] + Seq::<Seq<char>>::empty() =~= one);
    assert(join(one, "\n"@) == Seq::<char>::empty());
    assert(render(one) =~= seq!['\n']);
    assert(render(Seq::<Seq<char>>::empty()) =~= seq!['\n']);
}

/// Patching a cfg that was just patched with the same pairs gives the same
/// text. This holds when no line of the cfg ends in `'\r'` and the cfg does
/// not end in two blank lines (else the second pass drops that `'\r'`, or
/// one of those blank lines). Where the patched lines do not end in a blank
/// line, the text reads back as those lines.
pub proof fn law_patch_twice_is_patch_once(prev: Seq<char>, sets: Seq<(Seq<char>, Seq<char>)>)
    requires
        readable_sets(sets),
        no_cr_end(lines(prev)),
        !ends_two_blank(lines(prev)),
    ensures
        apply_sets(lines(prev), sets).len() > 0 && last_not_blank(apply_sets(lines(prev), sets))
            ==> lines(spec_patch(prev, sets)) == apply_sets(lines(prev), sets),
        spec_patch(spec_patch(prev, sets), sets) == spec_patch(prev, sets),
{
    let ls = lines(prev);
    let l = apply_sets(ls, sets);
    lemma_lines_lack_nl(prev);
    lemma_apply_sets_shape(ls, sets);
    assert(distinct_keys(sets));
    lemma_apply_sets_holds(ls, sets);
    lemma_one_blank();
    let one: Seq<Seq<char>> = seq![Seq::<char>::empty()];
    if l.len() == 0 {
        assert(sets.len() == 0);
        assert(lines(render(l)) == one);
        assert(apply_sets(one, sets) == one);
    } else if last_not_blank(l) {
        lemma_lines_of_render(l);
        lemma_apply_sets_stable(l, sets);
    } else if l.len() == 1 {
        assert(l[0] =~= Seq::<char>::empty());
        assert(l =~= one);
        lemma_apply_sets_stable(l, sets);
    } else {
        let m = l.drop_last();
        assert(m[m.len() - 1] == l[l.len() - 2]);
        assert(last_not_blank(m));
        assert(all_lack_nl(m)) by {
            assert forall|i: int| 0 <= i < m.len() implies lacks(#[trigger] m[i], '\n') by {
                assert(m[i] == l[i]);
            }
        }
        assert(no_cr_end(m)) by {
            assert forall|i: int| 0 <= i < m.len() implies !(#[trigger] m[i].len() > 0
                && m[i].last() == '\r') by {
                assert(m[i] == l[i]);
            }
        }
        lemma_lines_of_render(m);
        assert("\n"@ =~= seq!['\n']) by {
            reveal_strlit("\n");
        }
        lemma_join_last(m, seq!['\n']);
        assert(lacks(m.last(), '\n'));
        assert(m.last()[m.last().len() - 1] != '\n');
        assert(l.drop_last() == m);
        assert(join(l, seq!['\n']) == join(m, seq!['\n']) + seq!['\n'] + l.last());
        assert(l.last() =~= Seq::<char>::empty());
        assert(join(l, seq!['\n']) =~= join(m, seq!['\n']).push('\n'));
        assert(render(l) == render(m));
        assert forall|i: int| 0 <= i < sets.len() implies set_holds(
            m,
            #[trigger] sets[i].0,
            sets[i].1,
        ) by {
            assert(set_holds(l, sets[i].0, sets[i].1));
            lemma_prefix_index_props(l, sets[i].0 + seq!['=']);
            let p = prefix_index(l, sets[i].0 + seq!['='])->0;
            assert(l[p] == cfg_line(sets[i].0, sets[i].1));
            assert(cfg_line(sets[i].0, sets[i].1).len() > 0);
            assert(p < l.len() - 1);
            lemma_prefix_index_drop_last(l, sets[i].0 + seq!['=']);
            assert(m[p] == l[p]);
        }
        lemma_apply_sets_stable(m, sets);
    }
}

// ───────────────────────────── the laws ─────────────────────────────

/// The keys of a list of `(key, value)`.
pub open spec fn keys_of(sets: Seq<(Seq<char>, Seq<char>)>) -> Seq<Seq<char>> {
    sets.map_values(|kv: (Seq<char>, Seq<char>)| kv.0)
}

/// Sets that can be read back: good keys, no two the same key in any
/// case, values without whitespace.
pub open spec fn readable_sets(sets: Seq<(Seq<char>, Seq<char>)>) -> bool {
    &&& forall|i: int| 0 <= i < sets.len() ==> good_key(#[trigger] sets[i].0)
    &&& forall|i: int| 0 <= i < sets.len() ==> no_ws(#[trigger] sets[i].1)
    &&& forall|i: int, j: int|
        0 <= i < j < sets.len() ==> !eq_ignore_case(#[trigger] sets[i].0, #[trigger] sets[j].0)
}

proof fn lemma_apply_sets(ls: Seq<Seq<char>>, sets: Seq<(Seq<char>, Seq<char>)>)
    requires
        readable_sets(sets),
        all_lack_nl(ls),
        forall|i: int| 0 <= i < sets.len() ==> plain_key(ls, #[trigger] sets[i].0),
    ensures
        all_lack_nl(apply_sets(ls, sets)),
        forall|i: int| 0 <= i < sets.len() ==> plain_key(apply_sets(ls, sets), #[trigger] sets[i].0),
        forall|i: int|
            0 <= i < sets.len() ==> first_holds(
                apply_sets(ls, sets),
                #[trigger] sets[i].0,
                sets[i].1,
            ),
    decreases sets.len(),
{
    if sets.len() > 0 {
        let front = sets.drop_last();
        let (k, v) = sets.last();
        assert forall|i: int, j: int|
            0 <= i < j < front.len() implies !eq_ignore_case(
            #[trigger] front[i].0,
            #[trigger] front[j].0,
        ) by {
            assert(front[i] == sets[i]);
            assert(front[j] == sets[j]);
        }
        assert forall|i: int| 0 <= i < front.len() implies good_key(#[trigger] front[i].0) by {
            assert(front[i] == sets[i]);
        }
        assert forall|i: int| 0 <= i < front.len() implies no_ws(#[trigger] front[i].1) by {
            assert(front[i] == sets[i]);
        }
        assert forall|i: int| 0 <= i < front.len() implies plain_key(ls, #[trigger] front[i].0) by {
            assert(front[i] == sets[i]);
        }
        lemma_apply_sets(ls, front);
        let mid = apply_sets(ls, front);
        let last_i = sets.len() - 1;
        assert(sets[last_i] == (k, v));
        assert(good_key(k) && no_ws(v));
        assert(plain_key(ls, k));
        // `k` is plain in `mid` too: every set so far was of a good key.
        lemma_plain_through(ls, front, k);
        lemma_set_keeps_lack_nl(mid, k, v);
        let r = apply_sets(ls, sets);
        assert forall|i: int| 0 <= i < sets.len() implies plain_key(r, #[trigger] sets[i].0) by {
            if i < last_i {
                assert(front[i] == sets[i]);
                lemma_set_keeps_plain(mid, sets[i].0, k, v);
            } else {
                lemma_set_keeps_plain(mid, k, k, v);
            }
        }
        assert forall|i: int| 0 <= i < sets.len() implies first_holds(
            r,
            #[trigger] sets[i].0,
            sets[i].1,
        ) by {
            if i < last_i {
                assert(front[i] == sets[i]);
                lemma_set_other_keeps_first(mid, sets[i].0, sets[i].1, k, v);
            } else {
                lemma_set_makes_first(mid, k, v);
            }
        }
    }
}

proof fn lemma_plain_through(ls: Seq<Seq<char>>, sets: Seq<(Seq<char>, Seq<char>)>, k: Seq<char>)
    requires
        plain_key(ls, k),
        good_key(k),
        forall|i: int| 0 <= i < sets.len() ==> good_key(#[trigger] sets[i].0),
        forall|i: int| 0 <= i < sets.len() ==> no_ws(#[trigger] sets[i].1),
    ensures
        plain_key(apply_sets(ls, sets), k),
    decreases sets.len(),
{
    if sets.len() > 0 {
        let front = sets.drop_last();
        assert forall|i: int| 0 <= i < front.len() implies good_key(#[trigger] front[i].0) by {
            assert(front[i] == sets[i]);
        }
        assert forall|i: int| 0 <= i < front.len() implies no_ws(#[trigger] front[i].1) by {
            assert(front[i] == sets[i]);
        }
        lemma_plain_through(ls, front, k);
        assert(sets.last() == sets[sets.len() - 1]);
        lemma_set_keeps_plain(apply_sets(ls, front), k, sets.last().0, sets.last().1);
    }
}

/// What is written is what is read: after the `(key, value)` pairs of
/// `sets` are written into a cfg text, reading each key gives its value,
/// when the keys are plain cfg keys (no two the same in any case), the
/// values hold no whitespace, and the first line of the text that holds
/// each of those keys starts with `key=` (any case).
pub proof fn law_patch_reads_back(prev: Seq<char>, sets: Seq<(Seq<char>, Seq<char>)>, i: int)
    requires
        readable_sets(sets),
        forall|j: int| 0 <= j < sets.len() ==> plain_key(lines(prev), #[trigger] sets[j].0),
        0 <= i < sets.len(),
    ensures
        lookup(kv_pairs(lines(render(apply_sets(lines(prev), sets)))), sets[i].0) == Some(
            sets[i].1,
        ),
{
    lemma_lines_lack_nl(prev);
    lemma_apply_sets(lines(prev), sets);
    let r = apply_sets(lines(prev), sets);
    lemma_render_pairs(r);
    lemma_lookup_first(r, sets[i].0, sets[i].1);
}

/// Lines that start with none of the keys written stay where they were.
pub proof fn law_patch_keeps_other_lines(
    ls: Seq<Seq<char>>,
    sets: Seq<(Seq<char>, Seq<char>)>,
    i: int,
)
    requires
        0 <= i < ls.len(),
        forall|j: int|
            0 <= j < sets.len() ==> !starts_with(
                lower_seq(ls[i]),
                lower_seq(#[trigger] sets[j].0 + seq!['=']),
            ),
    ensures
        apply_sets(ls, sets).len() >= ls.len(),
        apply_sets(ls, sets)[i] == ls[i],
    decreases sets.len(),
{
    if sets.len() > 0 {
        let front = sets.drop_last();
        assert forall|j: int| 0 <= j < front.len() implies !starts_with(
            lower_seq(ls[i]),
            lower_seq(#[trigger] front[j].0 + seq!['=']),
        ) by {
            assert(front[j] == sets[j]);
        }
        law_patch_keeps_other_lines(ls, front, i);
        let mid = apply_sets(ls, front);
        let (k, v) = sets.last();
        assert(sets[sets.len() - 1] == (k, v));
        lemma_prefix_index_props(mid, k + seq!['=']);
        if let Some(q) = prefix_index(mid, k + seq!['=']) {
            if q == i {
                assert(mid[i] == ls[i]);
            }
        }
    }
}


/// The keys saving the knobs writes, in order.
pub open spec fn knob_keys() -> Seq<Seq<char>> {
    seq![
        "work_resolution"@,
        "work_upscale"@,
        "work_sharpness"@,
        "ofa_enabled"@,
        "ofa_grid"@,
        "ofa_perf"@,
        "reset_mode"@,
        "reset_every"@,
        "light_stab"@,
        "light_stab_strength"@,
        "engine_velocity"@,
        "evaluate_stride"@,
        "log_detail"@,
        "quality_preset"@,
        "auto_profile_applied"@,
    ]
}

proof fn lemma_dec_int_no_ws(n: int)
    ensures
        no_ws(dec_int(n)),
{
    let m = if n < 0 {
        -n
    } else {
        n
    };
    lemma_dec_digits(m as nat);
    let d = dec(m as nat);
    if n < 0 {
        let s = seq!['-'] + d;
        assert forall|i: int| 0 <= i < s.len() implies !is_ws(#[trigger] s[i]) by {
            if i > 0 {
                assert(s[i] == d[i - 1]);
                assert(crate::num::is_digit(d[i - 1]));
            }
        }
    } else {
        assert forall|i: int| 0 <= i < d.len() implies !is_ws(#[trigger] d[i]) by {
            assert(crate::num::is_digit(d[i]));
        }
    }
}

proof fn lemma_knob_keys_good()
    ensures
        forall|i: int| 0 <= i < knob_keys().len() ==> good_key(#[trigger] knob_keys()[i]),
        forall|i: int, j: int|
            0 <= i < j < knob_keys().len() ==> !eq_ignore_case(
                #[trigger] knob_keys()[i],
                #[trigger] knob_keys()[j],
            ),
{
    reveal_strlit("work_resolution");
    reveal_strlit("work_upscale");
    reveal_strlit("work_sharpness");
    reveal_strlit("ofa_enabled");
    reveal_strlit("ofa_grid");
    reveal_strlit("ofa_perf");
    reveal_strlit("reset_mode");
    reveal_strlit("reset_every");
    reveal_strlit("light_stab");
    reveal_strlit("light_stab_strength");
    reveal_strlit("engine_velocity");
    reveal_strlit("evaluate_stride");
    reveal_strlit("log_detail");
    reveal_strlit("quality_preset");
    reveal_strlit("auto_profile_applied");
    let ks = knob_keys();
    assert forall|i: int| 0 <= i < ks.len() implies good_key(#[trigger] ks[i]) by {
        let k = ks[i];
        assert forall|j: int| 0 <= j < k.len() implies !is_ws(#[trigger] k[j]) && k[j] != '=' by {}
    }
    assert forall|i: int, j: int| 0 <= i < j < ks.len() implies !eq_ignore_case(
        #[trigger] ks[i],
        #[trigger] ks[j],
    ) by {
        let a = ks[i];
        let b = ks[j];
        if a.len() == b.len() {
            let d: int = if a[0] != b[0] {
                0
            } else if a[1] != b[1] {
                1
            } else if a[2] != b[2] {
                2
            } else if a[3] != b[3] {
                3
            } else if a[4] != b[4] {
                4
            } else if a[5] != b[5] {
                5
            } else if a[6] != b[6] {
                6
            } else {
                7
            };
            assert(lower_seq(a)[d] != lower_seq(b)[d]);
        } else {
            assert(lower_seq(a).len() != lower_seq(b).len());
        }
    }
}

/// Saving the knobs and reading the cfg back gives the knobs again
/// (`work_resolution` held to 50..100, `evaluate_stride` to 1..4), when the
/// fractional knobs are written without whitespace and the first line of
/// the cfg that holds each knob's key starts with `key=` (any case).
pub proof fn law_saved_knobs_read_back(prev: Seq<char>, k: CfgKnobs, r: crate::feeder_cfg::CfgRead)
    requires
        no_ws(k.work_sharpness@),
        no_ws(k.light_stab_strength@),
        forall|j: int| 0 <= j < knob_keys().len() ==> plain_key(lines(prev), #[trigger] knob_keys()[j]),
        read_ok(r, spec_patch(prev, knob_sets(k))),
    ensures
        r.work_resolution == clamp(k.work_resolution, 50, 100),
        r.work_upscale == k.work_upscale,
        r.work_sharpness matches Some(t) && t@ == k.work_sharpness@,
        r.ofa_enabled == k.ofa_enabled,
        r.ofa_grid == k.ofa_grid,
        r.ofa_perf == k.ofa_perf,
        r.reset_mode == k.reset_mode,
        r.light_stab == k.light_stab,
        r.light_stab_strength matches Some(t) && t@ == k.light_stab_strength@,
        r.engine_velocity == k.engine_velocity,
        r.evaluate_stride == clamp(k.evaluate_stride, 1, 4),
        r.log_detail == k.log_detail,
{
    let sets = knob_sets(k);
    lemma_knob_keys_good();
    assert(keys_of(sets) =~= knob_keys());
    assert forall|i: int| 0 <= i < sets.len() implies #[trigger] sets[i].0 == knob_keys()[i] by {
        assert(keys_of(sets)[i] == sets[i].0);
    }
    lemma_dec_int_no_ws(clamp(k.work_resolution, 50, 100) as int);
    lemma_dec_int_no_ws(k.work_upscale as int);
    lemma_dec_int_no_ws(k.ofa_grid as int);
    lemma_dec_int_no_ws(k.ofa_perf as int);
    lemma_dec_int_no_ws(k.reset_mode as int);
    lemma_dec_int_no_ws(clamp(k.evaluate_stride, 1, 4) as int);
    lemma_dec_int_no_ws(k.log_detail as int);
    reveal_strlit("custom");
    assert(no_ws(bit(k.ofa_enabled)));
    assert(no_ws(bit(k.reset_mode == 1)));
    assert(no_ws(bit(k.light_stab)));
    assert(no_ws(bit(k.engine_velocity)));
    assert(no_ws(bit(true)));
    assert forall|i: int| 0 <= i < sets.len() implies no_ws(#[trigger] sets[i].1) by {}
    assert(readable_sets(sets));
    let m = spec_parse_kv(spec_patch(prev, sets));
    assert forall|i: int| 0 <= i < sets.len() implies lookup(m, #[trigger] sets[i].0) == Some(
        sets[i].1,
    ) by {
        law_patch_reads_back(prev, sets, i);
    }
    assert(lookup(m, sets[0].0) == Some(sets[0].1));
    assert(lookup(m, sets[1].0) == Some(sets[1].1));
    assert(lookup(m, sets[2].0) == Some(sets[2].1));
    assert(lookup(m, sets[3].0) == Some(sets[3].1));
    assert(lookup(m, sets[4].0) == Some(sets[4].1));
    assert(lookup(m, sets[5].0) == Some(sets[5].1));
    assert(lookup(m, sets[6].0) == Some(sets[6].1));
    assert(lookup(m, sets[8].0) == Some(sets[8].1));
    assert(lookup(m, sets[9].0) == Some(sets[9].1));
    assert(lookup(m, sets[10].0) == Some(sets[10].1));
    assert(lookup(m, sets[11].0) == Some(sets[11].1));
    assert(lookup(m, sets[12].0) == Some(sets[12].1));
    lemma_parse_i32_dec(clamp(k.work_resolution, 50, 100));
    lemma_parse_i32_dec(k.work_upscale);
    lemma_parse_i32_dec(k.ofa_grid);
    lemma_parse_i32_dec(k.ofa_perf);
    lemma_parse_i32_dec(k.reset_mode);
    lemma_parse_i32_dec(clamp(k.evaluate_stride, 1, 4));
    lemma_parse_i32_dec(k.log_detail);
    lemma_parse_i32_dec(0);
    lemma_parse_i32_dec(1);
    assert(dec_int(0) =~= seq!['0']);
    assert(dec_int(1) =~= seq!['1']);
    assert(bit(false) == dec_int(0));
    assert(bit(true) == dec_int(1));
}


// ───────────────────────────── overrides ─────────────────────────────

/// The keys an override may set, in the order it sets them.
pub open spec fn override_keys() -> Seq<Seq<char>> {
    seq![
        "ofa_enabled"@,
        "ofa_grid"@,
        "ofa_perf"@,
        "engine_velocity"@,
        "early_color"@,
        "early_color_cand"@,
        "async_feed"@,
        "reset_mode"@,
        "reset_every"@,
        "light_stab"@,
        "light_stab_strength"@,
        "light_stab_max_delta"@,
        "work_resolution"@,
        "auto_profile_applied"@,
    ]
}

/// Each key an override may set, with the value it sets there, if any.
pub open spec fn override_entries(o: GameOverride) -> Seq<(Seq<char>, Option<Seq<char>>)> {
    seq![
        ("ofa_enabled"@, bit_opt(o.ofa_enabled)),
        ("ofa_grid"@, int_opt(o.ofa_grid)),
        ("ofa_perf"@, int_opt(o.ofa_perf)),
        ("engine_velocity"@, bit_opt(o.engine_velocity)),
        ("early_color"@, bit_opt(o.early_color)),
        ("early_color_cand"@, int_opt(o.early_color_cand)),
        ("async_feed"@, bit_opt(o.async_feed)),
        ("reset_mode"@, int_opt(o.reset_mode)),
        ("reset_every"@, reset_every_opt(o.reset_mode)),
        ("light_stab"@, bit_opt(o.light_stab)),
        ("light_stab_strength"@, text_opt(o.light_stab_strength)),
        ("light_stab_max_delta"@, text_opt(o.light_stab_max_delta)),
        ("work_resolution"@, work_resolution_opt(o.work_resolution)),
        ("auto_profile_applied"@, int_opt(o.auto_profile_applied)),
    ]
}

/// The entries among the first `n` that set a value, as `(key, value)`.
pub open spec fn present_upto(es: Seq<(Seq<char>, Option<Seq<char>>)>, n: int) -> Seq<
    (Seq<char>, Seq<char>),
>
    decreases n,
{
    if n <= 0 {
        Seq::empty()
    } else {
        present_upto(es, n - 1) + opt_set(es[n - 1].0, es[n - 1].1)
    }
}

proof fn lemma_override_sets_present(o: GameOverride)
    ensures
        override_sets(o) == present_upto(override_entries(o), 14),
{
    let e = override_entries(o);
    assert(present_upto(e, 0) == Seq::<(Seq<char>, Seq<char>)>::empty());
    assert(present_upto(e, 1) =~= opt_set(e[0].0, e[0].1));
    assert(present_upto(e, 2) == present_upto(e, 1) + opt_set(e[1].0, e[1].1));
    assert(present_upto(e, 3) == present_upto(e, 2) + opt_set(e[2].0, e[2].1));
    assert(present_upto(e, 4) == present_upto(e, 3) + opt_set(e[3].0, e[3].1));
    assert(present_upto(e, 5) == present_upto(e, 4) + opt_set(e[4].0, e[4].1));
    assert(present_upto(e, 6) == present_upto(e, 5) + opt_set(e[5].0, e[5].1));
    assert(present_upto(e, 7) == present_upto(e, 6) + opt_set(e[6].0, e[6].1));
    assert(present_upto(e, 8) == present_upto(e, 7) + opt_set(e[7].0, e[7].1));
    assert(present_upto(e, 9) == present_upto(e, 8) + opt_set(e[8].0, e[8].1));
    assert(present_upto(e, 10) == present_upto(e, 9) + opt_set(e[9].0, e[9].1));
    assert(present_upto(e, 11) == present_upto(e, 10) + opt_set(e[10].0, e[10].1));
    assert(present_upto(e, 12) == present_upto(e, 11) + opt_set(e[11].0, e[11].1));
    assert(present_upto(e, 13) == present_upto(e, 12) + opt_set(e[12].0, e[12].1));
    assert(present_upto(e, 14) == present_upto(e, 13) + opt_set(e[13].0, e[13].1));
}

/// Distinct good keys and whitespace-free values make the present entries
/// readable sets, each taken from an entry.
proof fn lemma_present_readable(es: Seq<(Seq<char>, Option<Seq<char>>)>, n: int)
    requires
        0 <= n <= es.len(),
        forall|i: int| 0 <= i < es.len() ==> good_key(#[trigger] es[i].0),
        forall|i: int, j: int|
            0 <= i < j < es.len() ==> !eq_ignore_case(#[trigger] es[i].0, #[trigger] es[j].0),
        forall|i: int| 0 <= i < es.len() ==> (#[trigger] es[i].1 matches Some(v) ==> no_ws(v)),
    ensures
        readable_sets(present_upto(es, n)),
        forall|i: int|
            0 <= i < present_upto(es, n).len() ==> exists|j: int|
                0 <= j < n && (#[trigger] present_upto(es, n)[i]).0 == es[j].0 && es[j].1 == Some(
                    present_upto(es, n)[i].1,
                ),
    decreases n,
{
    if n > 0 {
        lemma_present_readable(es, n - 1);
        let p = present_upto(es, n - 1);
        let q = present_upto(es, n);
        let (k, v) = es[n - 1];
        if v is Some {
            assert(q == p.push((k, v->0)));
            assert forall|i: int|
                0 <= i < q.len() implies exists|j: int|
                    0 <= j < n && (#[trigger] q[i]).0 == es[j].0 && es[j].1 == Some(q[i].1) by {
                if i < p.len() {
                    assert(q[i] == p[i]);
                    let j = choose|j: int|
                        0 <= j < n - 1 && (#[trigger] p[i]).0 == es[j].0 && es[j].1 == Some(p[i].1);
                    assert(0 <= j < n && q[i].0 == es[j].0 && es[j].1 == Some(q[i].1));
                } else {
                    assert(q[i] == (k, v->0));
                    assert(es[n - 1].1 == Some(q[i].1));
                }
            }
            assert forall|i: int, j: int|
                0 <= i < j < q.len() implies !eq_ignore_case(#[trigger] q[i].0, #[trigger] q[j].0) by {
                let a = choose|a: int|
                    0 <= a < n && (#[trigger] q[i]).0 == es[a].0 && es[a].1 == Some(q[i].1);
                let b = choose|b: int|
                    0 <= b < n && (#[trigger] q[j]).0 == es[b].0 && es[b].1 == Some(q[j].1);
                if j < p.len() {
                    assert(q[i] == p[i] && q[j] == p[j]);
                } else {
                    assert(q[i] == p[i]);
                    assert(b == n - 1) by {
                        if b != n - 1 {
                            assert(eq_ignore_case(es[b].0, es[n - 1].0)) by {
                                assert(q[j].0 == k);
                            }
                            if b < n - 1 {
                                assert(!eq_ignore_case(es[b].0, es[n - 1].0));
                            }
                        }
                    }
                    if a == n - 1 {
                        let c = choose|c: int|
                            0 <= c < n - 1 && (#[trigger] p[i]).0 == es[c].0 && es[c].1 == Some(
                                p[i].1,
                            );
                        assert(!eq_ignore_case(es[c].0, es[n - 1].0));
                    } else {
                        assert(a < b);
                    }
                }
            }
            assert(readable_sets(q));
        } else {
            assert(q =~= p);
        }
    }
}

proof fn lemma_override_keys_good()
    ensures
        forall|i: int| 0 <= i < override_keys().len() ==> good_key(#[trigger] override_keys()[i]),
        forall|i: int, j: int|
            0 <= i < j < override_keys().len() ==> !eq_ignore_case(
                #[trigger] override_keys()[i],
                #[trigger] override_keys()[j],
            ),
{
    reveal_strlit("ofa_enabled");
    reveal_strlit("ofa_grid");
    reveal_strlit("ofa_perf");
    reveal_strlit("engine_velocity");
    reveal_strlit("early_color");
    reveal_strlit("early_color_cand");
    reveal_strlit("async_feed");
    reveal_strlit("reset_mode");
    reveal_strlit("reset_every");
    reveal_strlit("light_stab");
    reveal_strlit("light_stab_strength");
    reveal_strlit("light_stab_max_delta");
    reveal_strlit("work_resolution");
    reveal_strlit("auto_profile_applied");
    let ks = override_keys();
    assert forall|i: int| 0 <= i < ks.len() implies good_key(#[trigger] ks[i]) by {
        let k = ks[i];
        assert forall|j: int| 0 <= j < k.len() implies !is_ws(#[trigger] k[j]) && k[j] != '=' by {}
    }
    assert forall|i: int, j: int| 0 <= i < j < ks.len() implies !eq_ignore_case(
        #[trigger] ks[i],
        #[trigger] ks[j],
    ) by {
        let a = ks[i];
        let b = ks[j];
        if a.len() == b.len() {
            let d: int = if a[0] != b[0] {
                0
            } else {
                4
            };
            assert(lower_seq(a)[d] != lower_seq(b)[d]);
        } else {
            assert(lower_seq(a).len() != lower_seq(b).len());
        }
    }
}

/// Where an entry sets a value, the present entries hold it.
proof fn lemma_present_holds(es: Seq<(Seq<char>, Option<Seq<char>>)>, n: int, k: int)
    requires
        0 <= k < n <= es.len(),
        es[k].1 is Some,
    ensures
        present_upto(es, n).contains((es[k].0, es[k].1->0)),
    decreases n,
{
    let p = present_upto(es, n - 1);
    let q = present_upto(es, n);
    if k == n - 1 {
        assert(q == p.push((es[k].0, es[k].1->0)));
        assert(q[p.len() as int] == (es[k].0, es[k].1->0));
    } else {
        lemma_present_holds(es, n - 1, k);
        let i = choose|i: int| 0 <= i < p.len() && p[i] == (es[k].0, es[k].1->0);
        assert(q[i] == p[i]);
    }
}

/// The sets of an override are readable, and each of its keys is one of
/// `override_keys`.
proof fn lemma_override_readable(o: GameOverride)
    requires
        o.light_stab_strength matches Some(t) ==> no_ws(t@),
        o.light_stab_max_delta matches Some(t) ==> no_ws(t@),
    ensures
        readable_sets(override_sets(o)),
        forall|i: int|
            0 <= i < override_sets(o).len() ==> exists|j: int|
                0 <= j < 14 && (#[trigger] override_sets(o)[i]).0 == override_keys()[j]
                    && override_entries(o)[j].1 == Some(override_sets(o)[i].1),
{
    let es = override_entries(o);
    lemma_override_sets_present(o);
    lemma_override_keys_good();
    assert forall|i: int| 0 <= i < es.len() implies #[trigger] es[i].0 == override_keys()[i] by {}
    if let Some(n) = o.ofa_grid {
        lemma_dec_int_no_ws(n as int);
    }
    if let Some(n) = o.ofa_perf {
        lemma_dec_int_no_ws(n as int);
    }
    if let Some(n) = o.early_color_cand {
        lemma_dec_int_no_ws(n as int);
    }
    if let Some(n) = o.reset_mode {
        lemma_dec_int_no_ws(n as int);
    }
    if let Some(n) = o.work_resolution {
        lemma_dec_int_no_ws(clamp(n, 50, 100) as int);
    }
    if let Some(n) = o.auto_profile_applied {
        lemma_dec_int_no_ws(n as int);
    }
    assert(no_ws(bit(true)));
    assert(no_ws(bit(false)));
    assert forall|i: int| 0 <= i < es.len() implies (#[trigger] es[i].1 matches Some(v) ==> no_ws(
        v,
    )) by {}
    lemma_present_readable(es, 14);
}

/// Each value an override sets is what a read of the patched cfg finds
/// under its key.
proof fn lemma_override_lookup(cfg: Seq<char>, o: GameOverride)
    requires
        o.light_stab_strength matches Some(t) ==> no_ws(t@),
        o.light_stab_max_delta matches Some(t) ==> no_ws(t@),
        forall|j: int|
            0 <= j < override_keys().len() ==> plain_key(lines(cfg), #[trigger] override_keys()[j]),
    ensures
        forall|i: int|
            0 <= i < override_sets(o).len() ==> lookup(
                spec_parse_kv(spec_patch(cfg, override_sets(o))),
                (#[trigger] override_sets(o)[i]).0,
            ) == Some(override_sets(o)[i].1),
        forall|k: int|
            0 <= k < 14 && (#[trigger] override_entries(o)[k]).1 is Some ==> lookup(
                spec_parse_kv(spec_patch(cfg, override_sets(o))),
                override_keys()[k],
            ) == Some(override_entries(o)[k].1->0),
{
    let es = override_entries(o);
    let sets = override_sets(o);
    lemma_override_readable(o);
    lemma_override_sets_present(o);
    assert forall|j: int| 0 <= j < sets.len() implies plain_key(lines(cfg), #[trigger] sets[j].0) by {
        let a = choose|a: int|
            0 <= a < 14 && (#[trigger] sets[j]).0 == override_keys()[a] && es[a].1 == Some(
                sets[j].1,
            );
        assert(plain_key(lines(cfg), override_keys()[a]));
    }
    let m = spec_parse_kv(spec_patch(cfg, sets));
    assert forall|i: int| 0 <= i < sets.len() implies lookup(m, (#[trigger] sets[i]).0) == Some(
        sets[i].1,
    ) by {
        law_patch_reads_back(cfg, sets, i);
    }
    assert forall|k: int| 0 <= k < 14 && (#[trigger] es[k]).1 is Some implies lookup(
        m,
        override_keys()[k],
    ) == Some(es[k].1->0) by {
        lemma_present_holds(es, 14, k);
        let i = choose|i: int| 0 <= i < sets.len() && sets[i] == (es[k].0, es[k].1->0);
        assert(lookup(m, sets[i].0) == Some(sets[i].1));
    }
}

/// After Install applies a game override, reading the cfg gives back every
/// key the override set, and the Feeder knobs it set are what the Feeder
/// reads. This holds when the override's fractional values are written
/// without whitespace and the first line of the cfg that holds each of its
/// keys starts with `key=` (any case).
pub proof fn law_override_reads_back(cfg: Seq<char>, o: GameOverride, r: crate::feeder_cfg::CfgRead)
    requires
        o.light_stab_strength matches Some(t) ==> no_ws(t@),
        o.light_stab_max_delta matches Some(t) ==> no_ws(t@),
        forall|j: int|
            0 <= j < override_keys().len() ==> plain_key(lines(cfg), #[trigger] override_keys()[j]),
        read_ok(r, spec_patch(cfg, override_sets(o))),
    ensures
        forall|i: int|
            0 <= i < override_sets(o).len() ==> lookup(
                spec_parse_kv(spec_patch(cfg, override_sets(o))),
                (#[trigger] override_sets(o)[i]).0,
            ) == Some(override_sets(o)[i].1),
        o.ofa_enabled matches Some(b) ==> r.ofa_enabled == b,
        o.ofa_grid matches Some(v) ==> r.ofa_grid == v,
        o.ofa_perf matches Some(v) ==> r.ofa_perf == v,
        o.engine_velocity matches Some(b) ==> r.engine_velocity == b,
        o.reset_mode matches Some(v) ==> r.reset_mode == v,
        o.light_stab matches Some(b) ==> r.light_stab == b,
        o.light_stab_strength matches Some(t) ==> r.light_stab_strength matches Some(u) && u@ == t@,
        o.work_resolution matches Some(v) ==> r.work_resolution == clamp(v, 50, 100),
{
    let es = override_entries(o);
    let m = spec_parse_kv(spec_patch(cfg, override_sets(o)));
    lemma_override_lookup(cfg, o);
    lemma_parse_i32_dec(0);
    lemma_parse_i32_dec(1);
    assert(dec_int(0) =~= seq!['0']);
    assert(dec_int(1) =~= seq!['1']);
    assert(bit(false) == dec_int(0));
    assert(bit(true) == dec_int(1));
    if let Some(b) = o.ofa_enabled {
        assert(es[0].1 is Some);
    }
    if let Some(v) = o.ofa_grid {
        assert(es[1].1 is Some);
        lemma_parse_i32_dec(v);
    }
    if let Some(v) = o.ofa_perf {
        assert(es[2].1 is Some);
        lemma_parse_i32_dec(v);
    }
    if let Some(b) = o.engine_velocity {
        assert(es[3].1 is Some);
    }
    if let Some(v) = o.reset_mode {
        assert(es[7].1 is Some);
        lemma_parse_i32_dec(v);
    }
    if let Some(b) = o.light_stab {
        assert(es[9].1 is Some);
    }
    if let Some(t) = o.light_stab_strength {
        assert(es[10].1 is Some);
    }
    if let Some(v) = o.work_resolution {
        assert(es[12].1 is Some);
        lemma_parse_i32_dec(clamp(v, 50, 100));
    }
}

/// Patching with an override always leaves a text ending in `'\n'`; an
/// override that sets nothing leaves the cfg's lines as they were, joined
/// with `'\n'` and ended with one.
pub proof fn law_override_patch_ends_and_empty(cfg: Seq<char>, o: GameOverride)
    ensures
        spec_patch(cfg, override_sets(o)).len() > 0,
        spec_patch(cfg, override_sets(o)).last() == '\n',
        (o.ofa_enabled is None && o.ofa_grid is None && o.ofa_perf is None && o.engine_velocity
            is None && o.early_color is None && o.early_color_cand is None && o.async_feed is None
            && o.reset_mode is None && o.light_stab is None && o.light_stab_strength is None
            && o.light_stab_max_delta is None && o.work_resolution is None
            && o.auto_profile_applied is None) ==> spec_patch(cfg, override_sets(o)) == render(
            lines(cfg),
        ),
{
    lemma_render_ends(apply_sets(lines(cfg), override_sets(o)));
    if o.ofa_enabled is None && o.ofa_grid is None && o.ofa_perf is None && o.engine_velocity
        is None && o.early_color is None && o.early_color_cand is None && o.async_feed is None
        && o.reset_mode is None && o.light_stab is None && o.light_stab_strength is None
        && o.light_stab_max_delta is None && o.work_resolution is None
        && o.auto_profile_applied is None {
        assert(override_sets(o) =~= Seq::<(Seq<char>, Seq<char>)>::empty());
    }
}

/// Patching with an override keeps every cfg line that starts with none of
/// the override's keys (any case) where it was, as it was, and adds one
/// line for each key it sets that the cfg has no `key=` line for, and no
/// other line.
pub proof fn law_override_patch_keeps_and_counts(cfg: Seq<char>, o: GameOverride)
    requires
        o.light_stab_strength matches Some(t) ==> no_ws(t@),
        o.light_stab_max_delta matches Some(t) ==> no_ws(t@),
    ensures
        apply_sets(lines(cfg), override_sets(o)).len() == lines(cfg).len() + absent_count(
            lines(cfg),
            override_sets(o),
        ),
        forall|i: int|
            0 <= i < lines(cfg).len() && (forall|j: int|
                0 <= j < 14 ==> !prefixed(lines(cfg)[i], #[trigger] override_keys()[j]))
                ==> #[trigger] apply_sets(lines(cfg), override_sets(o))[i] == lines(cfg)[i],
{
    let ls = lines(cfg);
    let sets = override_sets(o);
    lemma_override_readable(o);
    assert(distinct_keys(sets));
    lemma_apply_sets_len(ls, sets);
    assert forall|i: int|
        0 <= i < ls.len() && (forall|j: int|
            0 <= j < 14 ==> !prefixed(ls[i], #[trigger] override_keys()[j])) implies #[trigger]
        apply_sets(ls, sets)[i] == ls[i] by {
        assert forall|j: int| 0 <= j < sets.len() implies !starts_with(
            lower_seq(ls[i]),
            lower_seq(#[trigger] sets[j].0 + seq!['=']),
        ) by {
            let a = choose|a: int|
                0 <= a < 14 && (#[trigger] sets[j]).0 == override_keys()[a]
                    && override_entries(o)[a].1 == Some(sets[j].1);
            assert(!prefixed(ls[i], override_keys()[a]));
        }
        law_patch_keeps_other_lines(ls, sets, i);
    }
}

/// Patching a cfg twice with the same override gives the text of patching
/// it once. This holds when the override's fractional values hold no
/// whitespace, no line of the cfg ends in `'\r'`, and the cfg does not end
/// in two blank lines.
pub proof fn law_override_patch_twice(cfg: Seq<char>, o: GameOverride)
    requires
        o.light_stab_strength matches Some(t) ==> no_ws(t@),
        o.light_stab_max_delta matches Some(t) ==> no_ws(t@),
        no_cr_end(lines(cfg)),
        !ends_two_blank(lines(cfg)),
    ensures
        spec_patch(spec_patch(cfg, override_sets(o)), override_sets(o)) == spec_patch(
            cfg,
            override_sets(o),
        ),
{
    lemma_override_readable(o);
    law_patch_twice_is_patch_once(cfg, override_sets(o));
}

/// The FX uniforms the Setup panel saves read back as saved: each mask,
/// read as a switch, is the mask whatever the default, and each threshold is
/// the text written for it.
pub proof fn law_fx_uniforms_read_back(
    appearance_mask: bool,
    appearance_threshold: Seq<char>,
    lighting_mask: bool,
    lighting_threshold: Seq<char>,
    detail_mask: bool,
    detail_threshold: Seq<char>,
    default: bool,
)
    ensures
        ({
            let u = spec_fx_uniforms(
                appearance_mask,
                appearance_threshold,
                lighting_mask,
                lighting_threshold,
                detail_mask,
                detail_threshold,
            );
            &&& u.len() == 6
            &&& u[0].0 == "APPEARANCE_MASK"@ && spec_fx_b(Some(u[0].1), default) == appearance_mask
            &&& u[1].0 == "APPEARANCE_THRESHOLD"@ && u[1].1 == appearance_threshold
            &&& u[2].0 == "LIGHTING_MASK"@ && spec_fx_b(Some(u[2].1), default) == lighting_mask
            &&& u[3].0 == "LIGHTING_THRESHOLD"@ && u[3].1 == lighting_threshold
            &&& u[4].0 == "DETAIL_MASK"@ && spec_fx_b(Some(u[4].1), default) == detail_mask
            &&& u[5].0 == "DETAIL_THRESHOLD"@ && u[5].1 == detail_threshold
        }),
{
    reveal_strlit("true");
    assert(!eq_ignore_case(seq!['0'], "true"@)) by {
        assert(lower_seq(seq!['0']).len() != lower_seq("true"@).len());
    }
    assert(seq!['0'] != seq!['1']) by {
        assert(seq!['0'][0] != seq!['1'][0]);
    }
}

/// No `(key, value)` pair of the cfg text has `k` for its key (any case).
pub open spec fn key_absent(text: Seq<char>, k: Seq<char>) -> bool {
    forall|i: int|
        0 <= i < spec_parse_kv(text).len() ==> !eq_ignore_case(
            #[trigger] spec_parse_kv(text)[i].0,
            k,
        )
}

proof fn lemma_lookup_absent(m: Seq<(Seq<char>, Seq<char>)>, k: Seq<char>)
    requires
        forall|i: int| 0 <= i < m.len() ==> !eq_ignore_case(#[trigger] m[i].0, k),
    ensures
        lookup(m, k) is None,
    decreases m.len(),
{
    if m.len() > 0 {
        assert(!eq_ignore_case(m[0].0, k));
        assert forall|i: int| 0 <= i < m.drop_first().len() implies !eq_ignore_case(
            #[trigger] m.drop_first()[i].0,
            k,
        ) by {
            assert(m.drop_first()[i] == m[i + 1]);
        }
        lemma_lookup_absent(m.drop_first(), k);
    }
}

/// A knob the cfg does not set reads as the Feeder's stock value: OFA off,
/// LightStab off, engine velocity on, work resolution 100, no work upscale,
/// OFA grid 2 and perf 10, reset mode 2, evaluate stride 1, log detail 1,
/// no fractional text and no automatic profile.
pub proof fn law_missing_knobs_read_stock(text: Seq<char>, r: CfgRead)
    requires
        read_ok(r, text),
    ensures
        key_absent(text, "ofa_enabled"@) ==> !r.ofa_enabled,
        key_absent(text, "light_stab"@) ==> !r.light_stab,
        key_absent(text, "engine_velocity"@) ==> r.engine_velocity,
        key_absent(text, "work_resolution"@) ==> r.work_resolution == 100,
        key_absent(text, "work_upscale"@) ==> r.work_upscale == 0,
        key_absent(text, "ofa_grid"@) ==> r.ofa_grid == 2,
        key_absent(text, "ofa_perf"@) ==> r.ofa_perf == 10,
        key_absent(text, "reset_mode"@) ==> r.reset_mode == 2,
        key_absent(text, "evaluate_stride"@) ==> r.evaluate_stride == 1,
        key_absent(text, "log_detail"@) ==> r.log_detail == 1,
        key_absent(text, "work_sharpness"@) ==> r.work_sharpness is None,
        key_absent(text, "light_stab_strength"@) ==> r.light_stab_strength is None,
        key_absent(text, "auto_profile"@) ==> r.auto_profile@.len() == 0,
{
    let m = spec_parse_kv(text);
    if key_absent(text, "ofa_enabled"@) {
        lemma_lookup_absent(m, "ofa_enabled"@);
    }
    if key_absent(text, "light_stab"@) {
        lemma_lookup_absent(m, "light_stab"@);
    }
    if key_absent(text, "engine_velocity"@) {
        lemma_lookup_absent(m, "engine_velocity"@);
    }
    if key_absent(text, "work_resolution"@) {
        lemma_lookup_absent(m, "work_resolution"@);
    }
    if key_absent(text, "work_upscale"@) {
        lemma_lookup_absent(m, "work_upscale"@);
    }
    if key_absent(text, "ofa_grid"@) {
        lemma_lookup_absent(m, "ofa_grid"@);
    }
    if key_absent(text, "ofa_perf"@) {
        lemma_lookup_absent(m, "ofa_perf"@);
    }
    if key_absent(text, "reset_mode"@) {
        lemma_lookup_absent(m, "reset_mode"@);
    }
    if key_absent(text, "evaluate_stride"@) {
        lemma_lookup_absent(m, "evaluate_stride"@);
    }
    if key_absent(text, "log_detail"@) {
        lemma_lookup_absent(m, "log_detail"@);
    }
    if key_absent(text, "work_sharpness"@) {
        lemma_lookup_absent(m, "work_sharpness"@);
        assert(opt_view(r.work_sharpness) is None);
    }
    if key_absent(text, "light_stab_strength"@) {
        lemma_lookup_absent(m, "light_stab_strength"@);
        assert(opt_view(r.light_stab_strength) is None);
    }
    if key_absent(text, "auto_profile"@) {
        lemma_lookup_absent(m, "auto_profile"@);
    }
}

} // verus!
