//! The text of `dlss5-feed.cfg`: reading the Feeder knobs out of it and
//! writing them back into it, line by line, keeping every other line.
//!
//! The cfg is `key=value` lines; blank lines and lines starting with `#` or
//! `;` are comments. Keys are matched without regard to ASCII case. The
//! fractional knobs are carried as the text written for them; turning that
//! text into a number, and a number into text, is the caller's part.

use vstd::prelude::*;
use crate::num::{dec_i64, dec_int, parse_i32, parse_i32_exec};
use crate::text::{
    chars_eq, eq_ignore_case, eq_ignore_case_exec, from_chars, join, join_path, join_path_exec,
    lines, lines_exec, lower_seq, push_chars, push_str, split_once, split_once_exec, starts_with,
    strs, to_chars, to_lower, trim, trim_exec, views, occurs_at_exec,
};

verus! {

/// The Feeder's cfg file, beside the game exe.
pub const CFG_NAME: &'static str = "dlss5-feed.cfg";

/// The cfg file of a game folder.
pub fn cfg_path(game_dir: &str) -> (r: String)
    ensures
        r@ == join_path(game_dir@, CFG_NAME@),
{
    join_path_exec(game_dir, CFG_NAME)
}

// ───────────────────────────── reading ─────────────────────────────

/// The `(key, value)` a cfg line holds: trimmed, not blank, not a comment,
/// split at its first `=`, both sides trimmed.
pub open spec fn kv_of_line(l: Seq<char>) -> Option<(Seq<char>, Seq<char>)> {
    let s = trim(l);
    if s.len() == 0 || s[0] == '#' || s[0] == ';' {
        None
    } else {
        match split_once(s, '=') {
            Some((k, v)) => Some((trim(k), trim(v))),
            None => None,
        }
    }
}

/// The `(key, value)` pairs of a list of lines, in order.
pub open spec fn kv_pairs(ls: Seq<Seq<char>>) -> Seq<(Seq<char>, Seq<char>)>
    decreases ls.len(),
{
    if ls.len() == 0 {
        Seq::empty()
    } else {
        match kv_of_line(ls[0]) {
            Some(kv) => seq![kv] + kv_pairs(ls.drop_first()),
            None => kv_pairs(ls.drop_first()),
        }
    }
}

/// The `(key, value)` pairs of a cfg text.
pub open spec fn spec_parse_kv(text: Seq<char>) -> Seq<(Seq<char>, Seq<char>)> {
    kv_pairs(lines(text))
}

/// The value of the first pair whose key is `key`, ignoring ASCII case.
pub open spec fn lookup(map: Seq<(Seq<char>, Seq<char>)>, key: Seq<char>) -> Option<Seq<char>>
    decreases map.len(),
{
    if map.len() == 0 {
        None
    } else if eq_ignore_case(map[0].0, key) {
        Some(map[0].1)
    } else {
        lookup(map.drop_first(), key)
    }
}

/// An integer knob: the first value for `key`, when it is an `i32`, else
/// `default`.
pub open spec fn spec_get_i(map: Seq<(Seq<char>, Seq<char>)>, key: Seq<char>, default: i32) -> i32 {
    match lookup(map, key) {
        Some(v) => match parse_i32(v) {
            Some(n) => n,
            None => default,
        },
        None => default,
    }
}

/// A text knob: the first value for `key`, or empty.
pub open spec fn spec_get_s(map: Seq<(Seq<char>, Seq<char>)>, key: Seq<char>) -> Seq<char> {
    match lookup(map, key) {
        Some(v) => v,
        None => Seq::empty(),
    }
}

/// A switch among the FX uniforms: `1` or `true` (any case) is on, anything
/// else off, and a missing one keeps `default`.
pub open spec fn spec_fx_b(value: Option<Seq<char>>, default: bool) -> bool {
    match value {
        Some(v) => v == seq!['1'] || eq_ignore_case(v, "true"@),
        None => default,
    }
}

pub open spec fn pair_views(m: Seq<(String, String)>) -> Seq<(Seq<char>, Seq<char>)> {
    Seq::new(m.len(), |i: int| (m[i].0@, m[i].1@))
}

fn kv_of_line_exec(l: &[char]) -> (r: Option<(Vec<char>, Vec<char>)>)
    ensures
        match r {
            Some((k, v)) => kv_of_line(l@) == Some((k@, v@)),
            None => kv_of_line(l@) is None,
        },
{
    let s = trim_exec(l);
    if s.len() == 0 || s[0] == '#' || s[0] == ';' {
        return None;
    }
    match split_once_exec(s.as_slice(), '=') {
        Some((k, v)) => Some((trim_exec(k.as_slice()), trim_exec(v.as_slice()))),
        None => None,
    }
}

/// The `(key, value)` pairs of a cfg text, in order.
pub fn parse_kv(text: &str) -> (r: Vec<(String, String)>)
    ensures
        pair_views(r@) == spec_parse_kv(text@),
{
    let tc = to_chars(text);
    let ls = lines_exec(tc.as_slice());
    let ghost vs = views(ls@);
    let mut r: Vec<(String, String)> = Vec::new();
    let mut i: usize = 0;
    assert(vs.skip(0) =~= vs);
    assert(pair_views(r@) + kv_pairs(vs) =~= kv_pairs(vs));
    while i < ls.len()
        invariant
            i <= ls@.len(),
            vs == views(ls@),
            vs == lines(text@),
            pair_views(r@) + kv_pairs(vs.skip(i as int)) == kv_pairs(vs),
        decreases ls@.len() - i,
    {
        assert(vs.skip(i as int)[0] == ls@[i as int]@);
        assert(vs.skip(i as int).drop_first() =~= vs.skip(i + 1));
        match kv_of_line_exec(ls[i].as_slice()) {
            Some((k, v)) => {
                let ghost before = pair_views(r@);
                r.push((from_chars(k.as_slice()), from_chars(v.as_slice())));
                assert(pair_views(r@) =~= before.push((k@, v@)));
                assert(pair_views(r@) + kv_pairs(vs.skip(i + 1)) =~= before + kv_pairs(
                    vs.skip(i as int),
                ));
            },
            None => {},
        }
        i = i + 1;
    }
    assert(vs.skip(i as int) =~= Seq::<Seq<char>>::empty());
    assert(pair_views(r@) + kv_pairs(vs.skip(i as int)) =~= pair_views(r@));
    r
}

fn lookup_exec(map: &Vec<(String, String)>, key: &str) -> (r: Option<Vec<char>>)
    ensures
        match r {
            Some(v) => lookup(pair_views(map@), key@) == Some(v@),
            None => lookup(pair_views(map@), key@) is None,
        },
{
    let ghost m = pair_views(map@);
    let kc = to_chars(key);
    let mut i: usize = 0;
    assert(m.skip(0) =~= m);
    while i < map.len()
        invariant
            i <= map@.len(),
            m == pair_views(map@),
            kc@ == key@,
            lookup(m.skip(i as int), key@) == lookup(m, key@),
        decreases map@.len() - i,
    {
        assert(m.skip(i as int)[0] == (map@[i as int].0@, map@[i as int].1@));
        assert(m.skip(i as int).drop_first() =~= m.skip(i + 1));
        let k = to_chars(map[i].0.as_str());
        if eq_ignore_case_exec(k.as_slice(), kc.as_slice()) {
            return Some(to_chars(map[i].1.as_str()));
        }
        i = i + 1;
    }
    assert(m.skip(i as int) =~= Seq::<(Seq<char>, Seq<char>)>::empty());
    None
}

/// An integer knob: the first value for `key`, when it is an `i32`, else
/// `default`.
pub fn get_i(map: &Vec<(String, String)>, key: &str, default: i32) -> (r: i32)
    ensures
        r == spec_get_i(pair_views(map@), key@, default),
{
    match lookup_exec(map, key) {
        Some(v) => match parse_i32_exec(v.as_slice()) {
            Some(n) => n,
            None => default,
        },
        None => default,
    }
}

/// A text knob: the first value for `key`, or empty.
pub fn get_s(map: &Vec<(String, String)>, key: &str) -> (r: String)
    ensures
        r@ == spec_get_s(pair_views(map@), key@),
{
    match lookup_exec(map, key) {
        Some(v) => from_chars(v.as_slice()),
        None => String::new(),
    }
}

/// A switch among the FX uniforms (`value` is what the preset holds for
/// it): `1` or `true` (any case) is on, anything else off, and a missing one
/// keeps `default`.
pub fn fx_b(value: Option<&str>, default: bool) -> (r: bool)
    ensures
        r == spec_fx_b(
            match value {
                Some(v) => Some(v@),
                None => None,
            },
            default,
        ),
{
    match value {
        Some(v) => {
            let vc = to_chars(v);
            let one = to_chars("1");
            let tr = to_chars("true");
            proof {
                reveal_strlit("1");
            }
            assert(one@ =~= seq!['1']);
            chars_eq(vc.as_slice(), one.as_slice()) || eq_ignore_case_exec(vc.as_slice(), tr.as_slice())
        },
        None => default,
    }
}

/// The stock value of `work_resolution` (percent of the frame).
pub const WORK_RESOLUTION_STOCK: i32 = 100;

/// The stock value of `work_upscale`.
pub const WORK_UPSCALE_STOCK: i32 = 0;

/// The stock value of `ofa_grid`.
pub const OFA_GRID_STOCK: i32 = 2;

/// The stock value of `ofa_perf`.
pub const OFA_PERF_STOCK: i32 = 10;

/// The stock value of `reset_mode`.
pub const RESET_MODE_STOCK: i32 = 2;

/// The stock value of `evaluate_stride`.
pub const EVALUATE_STRIDE_STOCK: i32 = 1;

/// The stock value of `log_detail`.
pub const LOG_DETAIL_STOCK: i32 = 1;

/// `v.clamp(lo, hi)`.
pub open spec fn clamp(v: i32, lo: i32, hi: i32) -> i32 {
    if v < lo {
        lo
    } else if v > hi {
        hi
    } else {
        v
    }
}

pub fn clamp_i32(v: i32, lo: i32, hi: i32) -> (r: i32)
    requires
        lo <= hi,
    ensures
        r == clamp(v, lo, hi),
{
    if v < lo {
        lo
    } else if v > hi {
        hi
    } else {
        v
    }
}

/// The Feeder knobs a cfg holds. The fractional ones are the text found for
/// them, if any.
#[derive(Debug, Clone)]
pub struct CfgRead {
    pub work_resolution: i32,
    pub work_upscale: i32,
    pub work_sharpness: Option<String>,
    pub ofa_enabled: bool,
    pub ofa_grid: i32,
    pub ofa_perf: i32,
    pub reset_mode: i32,
    pub light_stab: bool,
    pub light_stab_strength: Option<String>,
    pub engine_velocity: bool,
    pub evaluate_stride: i32,
    pub log_detail: i32,
    pub auto_profile: String,
}

pub open spec fn opt_view(o: Option<String>) -> Option<Seq<char>> {
    match o {
        Some(s) => Some(s@),
        None => None,
    }
}

/// What reading a cfg text gives, knob by knob.
pub open spec fn read_ok(r: CfgRead, text: Seq<char>) -> bool {
    let m = spec_parse_kv(text);
    &&& r.work_resolution == clamp(spec_get_i(m, "work_resolution"@, WORK_RESOLUTION_STOCK), 50, 100)
    &&& r.work_upscale == spec_get_i(m, "work_upscale"@, WORK_UPSCALE_STOCK)
    &&& opt_view(r.work_sharpness) == lookup(m, "work_sharpness"@)
    &&& r.ofa_enabled == (spec_get_i(m, "ofa_enabled"@, 0) != 0)
    &&& r.ofa_grid == spec_get_i(m, "ofa_grid"@, OFA_GRID_STOCK)
    &&& r.ofa_perf == spec_get_i(m, "ofa_perf"@, OFA_PERF_STOCK)
    &&& r.reset_mode == spec_get_i(m, "reset_mode"@, RESET_MODE_STOCK)
    &&& r.light_stab == (spec_get_i(m, "light_stab"@, 0) != 0)
    &&& opt_view(r.light_stab_strength) == lookup(m, "light_stab_strength"@)
    &&& r.engine_velocity == (spec_get_i(m, "engine_velocity"@, 1) != 0)
    &&& r.evaluate_stride == clamp(spec_get_i(m, "evaluate_stride"@, EVALUATE_STRIDE_STOCK), 1, 4)
    &&& r.log_detail == spec_get_i(m, "log_detail"@, LOG_DETAIL_STOCK)
    &&& r.auto_profile@ == spec_get_s(m, "auto_profile"@)
}

/// The Feeder knobs in a cfg text; a knob that is missing or unreadable
/// keeps its stock value, `work_resolution` is held to 50..100 and
/// `evaluate_stride` to 1..4.
pub fn read_knobs(text: &str) -> (r: CfgRead)
    ensures
        read_ok(r, text@),
{
    let kv = parse_kv(text);
    let ws = match lookup_exec(&kv, "work_sharpness") {
        Some(v) => Some(from_chars(v.as_slice())),
        None => None,
    };
    let lss = match lookup_exec(&kv, "light_stab_strength") {
        Some(v) => Some(from_chars(v.as_slice())),
        None => None,
    };
    CfgRead {
        work_resolution: clamp_i32(get_i(&kv, "work_resolution", WORK_RESOLUTION_STOCK), 50, 100),
        work_upscale: get_i(&kv, "work_upscale", WORK_UPSCALE_STOCK),
        work_sharpness: ws,
        ofa_enabled: get_i(&kv, "ofa_enabled", 0) != 0,
        ofa_grid: get_i(&kv, "ofa_grid", OFA_GRID_STOCK),
        ofa_perf: get_i(&kv, "ofa_perf", OFA_PERF_STOCK),
        reset_mode: get_i(&kv, "reset_mode", RESET_MODE_STOCK),
        light_stab: get_i(&kv, "light_stab", 0) != 0,
        light_stab_strength: lss,
        engine_velocity: get_i(&kv, "engine_velocity", 1) != 0,
        evaluate_stride: clamp_i32(get_i(&kv, "evaluate_stride", EVALUATE_STRIDE_STOCK), 1, 4),
        log_detail: get_i(&kv, "log_detail", LOG_DETAIL_STOCK),
        auto_profile: get_s(&kv, "auto_profile"),
    }
}

// ───────────────────────────── writing ─────────────────────────────

/// The first line that starts with `p`, ignoring ASCII case.
pub open spec fn prefix_index(ls: Seq<Seq<char>>, p: Seq<char>) -> Option<int>
    decreases ls.len(),
{
    if ls.len() == 0 {
        None
    } else if starts_with(lower_seq(ls[0]), lower_seq(p)) {
        Some(0)
    } else {
        match prefix_index(ls.drop_first(), p) {
            Some(i) => Some(i + 1),
            None => None,
        }
    }
}

/// `key=value`.
pub open spec fn cfg_line(key: Seq<char>, value: Seq<char>) -> Seq<char> {
    key + seq!['='] + value
}

/// The lines with `key=value` in place of the first line that starts with
/// `key=` (any case), or added at the end when there is none.
pub open spec fn spec_set_line(ls: Seq<Seq<char>>, key: Seq<char>, value: Seq<char>) -> Seq<
    Seq<char>,
> {
    match prefix_index(ls, key + seq!['=']) {
        Some(i) => ls.update(i, cfg_line(key, value)),
        None => ls.push(cfg_line(key, value)),
    }
}

/// `spec_set_line` for each `(key, value)` in turn.
pub open spec fn apply_sets(ls: Seq<Seq<char>>, sets: Seq<(Seq<char>, Seq<char>)>) -> Seq<
    Seq<char>,
>
    decreases sets.len(),
{
    if sets.len() == 0 {
        ls
    } else {
        spec_set_line(apply_sets(ls, sets.drop_last()), sets.last().0, sets.last().1)
    }
}

/// The lines joined with `\n`, ending in a `\n`.
pub open spec fn render(ls: Seq<Seq<char>>) -> Seq<char> {
    let j = join(ls, "\n"@);
    if j.len() > 0 && j.last() == '\n' {
        j
    } else {
        j.push('\n')
    }
}

/// The text of `prev` with each `(key, value)` of `sets` set in turn.
pub open spec fn spec_patch(prev: Seq<char>, sets: Seq<(Seq<char>, Seq<char>)>) -> Seq<char> {
    render(apply_sets(lines(prev), sets))
}

proof fn lemma_prefix_index(ls: Seq<Seq<char>>, p: Seq<char>)
    ensures
        prefix_index(ls, p) matches Some(i) ==> 0 <= i < ls.len() && starts_with(
            lower_seq(ls[i]),
            lower_seq(p),
        ) && forall|j: int| 0 <= j < i ==> !starts_with(lower_seq(#[trigger] ls[j]), lower_seq(p)),
        prefix_index(ls, p) is None ==> forall|j: int|
            0 <= j < ls.len() ==> !starts_with(lower_seq(#[trigger] ls[j]), lower_seq(p)),
    decreases ls.len(),
{
    if ls.len() > 0 {
        let r = ls.drop_first();
        lemma_prefix_index(r, p);
        if !starts_with(lower_seq(ls[0]), lower_seq(p)) {
            match prefix_index(r, p) {
                Some(i) => {
                    assert(ls[i + 1] == r[i]);
                    assert forall|j: int| 0 <= j < i + 1 implies !starts_with(
                        lower_seq(#[trigger] ls[j]),
                        lower_seq(p),
                    ) by {
                        if j > 0 {
                            assert(ls[j] == r[j - 1]);
                        }
                    }
                },
                None => {
                    assert forall|j: int| 0 <= j < ls.len() implies !starts_with(
                        lower_seq(#[trigger] ls[j]),
                        lower_seq(p),
                    ) by {
                        if j > 0 {
                            assert(ls[j] == r[j - 1]);
                        }
                    }
                },
            }
        }
    }
}

/// Puts `key=value` in place of the first line that starts with `key=`
/// (any case), or adds it at the end.
pub fn set_line(lines: &mut Vec<String>, key: &str, value: String)
    ensures
        strs(final(lines)@) == spec_set_line(strs(old(lines)@), key@, value@),
{
    let mut prefix = String::from_str(key);
    prefix.push('=');
    let pc = to_chars(prefix.as_str());
    let pl = to_lower(pc.as_slice());
    let mut line = String::from_str(key);
    line.push('=');
    push_str(&mut line, value.as_str());
    assert(line@ =~= cfg_line(key@, value@));
    assert(pc@ =~= key@ + seq!['=']);
    let ghost ls = strs(lines@);
    proof {
        lemma_prefix_index(ls, key@ + seq!['=']);
    }
    let mut i: usize = 0;
    while i < lines.len()
        invariant
            i <= lines@.len(),
            ls == strs(lines@),
            ls == strs(old(lines)@),
            pl@ == lower_seq(key@ + seq!['=']),
            line@ == cfg_line(key@, value@),
            forall|j: int| 0 <= j < i ==> !starts_with(lower_seq(#[trigger] ls[j]), pl@),
        decreases lines@.len() - i,
    {
        let lc = to_chars(lines[i].as_str());
        let low = to_lower(lc.as_slice());
        assert(ls[i as int] == lines@[i as int]@);
        if occurs_at_exec(low.as_slice(), pl.as_slice(), 0) {
            proof {
                lemma_prefix_index(ls, key@ + seq!['=']);
                let k = prefix_index(ls, key@ + seq!['=']);
                if k is None {
                    assert(!starts_with(lower_seq(ls[i as int]), pl@));
                } else {
                    let kk = k->0;
                    if kk < i {
                        assert(!starts_with(lower_seq(ls[kk]), pl@));
                    } else if kk > i {
                        assert(!starts_with(lower_seq(ls[i as int]), pl@));
                    }
                }
                assert(prefix_index(ls, key@ + seq!['=']) == Some(i as int));
            }
            lines[i] = line;
            assert(strs(lines@) =~= ls.update(i as int, cfg_line(key@, value@)));
            assert(strs(lines@) == spec_set_line(ls, key@, value@));
            return;
        }
        i = i + 1;
    }
    proof {
        lemma_prefix_index(ls, key@ + seq!['=']);
        if prefix_index(ls, key@ + seq!['=']) is Some {
            let kk = prefix_index(ls, key@ + seq!['='])->0;
            assert(!starts_with(lower_seq(ls[kk]), pl@));
        }
    }
    lines.push(line);
    assert(strs(lines@) =~= ls.push(cfg_line(key@, value@)));
}

pub open spec fn set_views(sets: Seq<(&'static str, String)>) -> Seq<(Seq<char>, Seq<char>)> {
    Seq::new(sets.len(), |i: int| (sets[i].0@, sets[i].1@))
}

/// The text of `prev` with each `(key, value)` of `sets` set in turn, lines
/// joined with `\n` and ending in one.
pub fn patch(prev: &str, sets: &Vec<(&'static str, String)>) -> (r: String)
    ensures
        r@ == spec_patch(prev@, set_views(sets@)),
{
    let pc = to_chars(prev);
    let lv = lines_exec(pc.as_slice());
    let mut ls = crate::text::chars_to_strings(&lv);
    let ghost sv = set_views(sets@);
    let mut i: usize = 0;
    assert(sv.take(0) =~= Seq::<(Seq<char>, Seq<char>)>::empty());
    while i < sets.len()
        invariant
            i <= sets@.len(),
            sv == set_views(sets@),
            strs(ls@) == apply_sets(lines(prev@), sv.take(i as int)),
        decreases sets@.len() - i,
    {
        let (k, v) = (sets[i].0, sets[i].1.clone());
        set_line(&mut ls, k, v);
        assert(sv.take(i + 1).drop_last() =~= sv.take(i as int));
        i = i + 1;
    }
    assert(sv.take(sets@.len() as int) =~= sv);
    let lv2 = crate::text::strings_to_chars(&ls);
    let mut out = crate::text::join_exec(&lv2, "\n");
    let oc = to_chars(out.as_str());
    if !(oc.len() > 0 && oc[oc.len() - 1] == '\n') {
        out.push('\n');
    }
    out
}

/// `0` or `1` for a switch.
pub open spec fn bit(b: bool) -> Seq<char> {
    if b {
        seq!['1']
    } else {
        seq!['0']
    }
}

fn bit_exec(b: bool) -> (r: String)
    ensures
        r@ == bit(b),
{
    let mut s = String::new();
    s.push(if b {
        '1'
    } else {
        '0'
    });
    assert(s@ =~= bit(b));
    s
}

fn int_text(n: i32) -> (r: String)
    ensures
        r@ == dec_int(n as int),
{
    from_chars(dec_i64(n as i64).as_slice())
}

/// The Feeder knobs the Setup panel edits, as they are written: the
/// fractional ones as the text to write (`work_sharpness` with two decimals,
/// `light_stab_strength` with three).
#[derive(Debug, Clone)]
pub struct CfgKnobs {
    pub work_resolution: i32,
    pub work_upscale: i32,
    pub work_sharpness: String,
    pub ofa_enabled: bool,
    pub ofa_grid: i32,
    pub ofa_perf: i32,
    pub reset_mode: i32,
    pub light_stab: bool,
    pub light_stab_strength: String,
    pub engine_velocity: bool,
    pub evaluate_stride: i32,
    pub log_detail: i32,
}

/// What saving the knobs sets, in order. A manual edit also marks the cfg
/// custom, so the automatic profile does not fight the user.
pub open spec fn knob_sets(k: CfgKnobs) -> Seq<(Seq<char>, Seq<char>)> {
    seq![
        ("work_resolution"@, dec_int(clamp(k.work_resolution, 50, 100) as int)),
        ("work_upscale"@, dec_int(k.work_upscale as int)),
        ("work_sharpness"@, k.work_sharpness@),
        ("ofa_enabled"@, bit(k.ofa_enabled)),
        ("ofa_grid"@, dec_int(k.ofa_grid as int)),
        ("ofa_perf"@, dec_int(k.ofa_perf as int)),
        ("reset_mode"@, dec_int(k.reset_mode as int)),
        ("reset_every"@, bit(k.reset_mode == 1)),
        ("light_stab"@, bit(k.light_stab)),
        ("light_stab_strength"@, k.light_stab_strength@),
        ("engine_velocity"@, bit(k.engine_velocity)),
        ("evaluate_stride"@, dec_int(clamp(k.evaluate_stride, 1, 4) as int)),
        ("log_detail"@, dec_int(k.log_detail as int)),
        ("quality_preset"@, "custom"@),
        ("auto_profile_applied"@, seq!['1']),
    ]
}

/// The cfg text with the knobs written into it (`prev` is the cfg as it is,
/// or the seed text for a cfg that does not exist yet).
pub fn knobs_cfg_text(prev: &str, k: &CfgKnobs) -> (r: String)
    ensures
        r@ == spec_patch(prev@, knob_sets(*k)),
{
    let mut sets: Vec<(&'static str, String)> = Vec::new();
    sets.push(("work_resolution", int_text(clamp_i32(k.work_resolution, 50, 100))));
    sets.push(("work_upscale", int_text(k.work_upscale)));
    sets.push(("work_sharpness", k.work_sharpness.clone()));
    sets.push(("ofa_enabled", bit_exec(k.ofa_enabled)));
    sets.push(("ofa_grid", int_text(k.ofa_grid)));
    sets.push(("ofa_perf", int_text(k.ofa_perf)));
    sets.push(("reset_mode", int_text(k.reset_mode)));
    sets.push(("reset_every", bit_exec(k.reset_mode == 1)));
    sets.push(("light_stab", bit_exec(k.light_stab)));
    sets.push(("light_stab_strength", k.light_stab_strength.clone()));
    sets.push(("engine_velocity", bit_exec(k.engine_velocity)));
    sets.push(("evaluate_stride", int_text(clamp_i32(k.evaluate_stride, 1, 4))));
    sets.push(("log_detail", int_text(k.log_detail)));
    sets.push(("quality_preset", String::from_str("custom")));
    sets.push(("auto_profile_applied", bit_exec(true)));
    assert(set_views(sets@) =~= knob_sets(*k));
    patch(prev, &sets)
}

/// The FX uniforms of `DLSS5_Feed.fx` that the Setup panel edits, as
/// `(name, value)`: each mask as `1`/`0`, each threshold as the text given.
pub open spec fn spec_fx_uniforms(
    appearance_mask: bool,
    appearance_threshold: Seq<char>,
    lighting_mask: bool,
    lighting_threshold: Seq<char>,
    detail_mask: bool,
    detail_threshold: Seq<char>,
) -> Seq<(Seq<char>, Seq<char>)> {
    seq![
        ("APPEARANCE_MASK"@, bit(appearance_mask)),
        ("APPEARANCE_THRESHOLD"@, appearance_threshold),
        ("LIGHTING_MASK"@, bit(lighting_mask)),
        ("LIGHTING_THRESHOLD"@, lighting_threshold),
        ("DETAIL_MASK"@, bit(detail_mask)),
        ("DETAIL_THRESHOLD"@, detail_threshold),
    ]
}

pub fn fx_uniforms(
    appearance_mask: bool,
    appearance_threshold: String,
    lighting_mask: bool,
    lighting_threshold: String,
    detail_mask: bool,
    detail_threshold: String,
) -> (r: Vec<(&'static str, String)>)
    ensures
        set_views(r@) == spec_fx_uniforms(
            appearance_mask,
            appearance_threshold@,
            lighting_mask,
            lighting_threshold@,
            detail_mask,
            detail_threshold@,
        ),
{
    let ghost at = appearance_threshold@;
    let ghost lt = lighting_threshold@;
    let ghost dt = detail_threshold@;
    let mut r: Vec<(&'static str, String)> = Vec::new();
    r.push(("APPEARANCE_MASK", bit_exec(appearance_mask)));
    r.push(("APPEARANCE_THRESHOLD", appearance_threshold));
    r.push(("LIGHTING_MASK", bit_exec(lighting_mask)));
    r.push(("LIGHTING_THRESHOLD", lighting_threshold));
    r.push(("DETAIL_MASK", bit_exec(detail_mask)));
    r.push(("DETAIL_THRESHOLD", detail_threshold));
    assert(set_views(r@) =~= spec_fx_uniforms(appearance_mask, at, lighting_mask, lt, detail_mask, dt));
    r
}

} // verus!
