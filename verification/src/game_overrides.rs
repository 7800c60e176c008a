//! Local curated per-game Feeder cfg quirks, matched by exe stem or path
//! substring at Install. Loading the curated list is the caller's part; what
//! matches, and what an override does to a cfg, is decided here.

use vstd::prelude::*;
use crate::feeder_cfg::{bit, clamp, patch, set_views, spec_patch};
use crate::num::{dec_i64, dec_int};
use crate::text::{
    contains, contains_exec, occurs_at, file_stem, file_stem_exec, from_chars, join, join_exec, lower_seq,
    push_str, strs, to_chars, to_lower, views,
};

verus! {

/// Printed Install tip when `taa_off` is set: the tool does not edit the
/// game's Engine.ini.
pub const UE_TAA_OFF_TIP: &'static str = "\
Unreal tip: turn TAA / TSR off in the game's graphics options (or set r.AntiAliasingMethod=0 \
yourself) so Feeder is not stacking on the engine's temporal AA. This tool does not edit Engine.ini.";

/// One curated override. The fractional knobs are held as the text written
/// for them (three decimals).
#[derive(Debug, Clone)]
pub struct GameOverride {
    pub match_exe: Vec<String>,
    pub match_path: Vec<String>,
    pub note: String,
    pub ofa_enabled: Option<bool>,
    pub ofa_grid: Option<i32>,
    pub ofa_perf: Option<i32>,
    pub engine_velocity: Option<bool>,
    pub early_color: Option<bool>,
    pub early_color_cand: Option<i32>,
    pub async_feed: Option<bool>,
    pub reset_mode: Option<i32>,
    pub light_stab: Option<bool>,
    pub light_stab_strength: Option<String>,
    pub light_stab_max_delta: Option<String>,
    pub work_resolution: Option<i32>,
    pub auto_profile_applied: Option<i32>,
    /// If true, Install logs a printed instruction to disable TAA (never
    /// writes Engine.ini).
    pub taa_off: Option<bool>,
    /// Shown on Setup after Install.
    pub setup_tip: Option<String>,
    /// Games with own DLSS: prefer another engine, do not force the Feeder.
    pub prefer_native_engine: Option<bool>,
}

impl GameOverride {
    /// An override that matches nothing and sets nothing.
    pub fn empty() -> (o: GameOverride)
        ensures
            o.match_exe@.len() == 0,
            o.match_path@.len() == 0,
            o.note@.len() == 0,
            o.ofa_enabled is None && o.ofa_grid is None && o.ofa_perf is None
                && o.engine_velocity is None && o.early_color is None && o.early_color_cand
                is None && o.async_feed is None && o.reset_mode is None && o.light_stab is None
                && o.light_stab_strength is None && o.light_stab_max_delta is None
                && o.work_resolution is None && o.auto_profile_applied is None && o.taa_off
                is None && o.setup_tip is None && o.prefer_native_engine is None,
    {
        GameOverride {
            match_exe: Vec::new(),
            match_path: Vec::new(),
            note: String::new(),
            ofa_enabled: None,
            ofa_grid: None,
            ofa_perf: None,
            engine_velocity: None,
            early_color: None,
            early_color_cand: None,
            async_feed: None,
            reset_mode: None,
            light_stab: None,
            light_stab_strength: None,
            light_stab_max_delta: None,
            work_resolution: None,
            auto_profile_applied: None,
            taa_off: None,
            setup_tip: None,
            prefer_native_engine: None,
        }
    }
}

// ───────────────────────────── matching ─────────────────────────────

/// The exe's stem matches a pattern (any case) when they are equal or
/// either holds the other.
pub open spec fn spec_stem_matches(exe: Seq<char>, patterns: Seq<Seq<char>>) -> bool {
    match file_stem(exe) {
        Some(stem) => exists|i: int|
            0 <= i < patterns.len() && {
                let s = lower_seq(stem);
                let p = lower_seq(#[trigger] patterns[i]);
                s == p || contains(s, p) || contains(p, s)
            },
        None => false,
    }
}

/// The exe's path holds a pattern (any case).
pub open spec fn spec_path_matches(exe: Seq<char>, patterns: Seq<Seq<char>>) -> bool {
    exists|i: int|
        0 <= i < patterns.len() && contains(lower_seq(exe), lower_seq(#[trigger] patterns[i]))
}

pub open spec fn override_matches(o: GameOverride, exe: Seq<char>) -> bool {
    ||| strs(o.match_exe@).len() > 0 && spec_stem_matches(exe, strs(o.match_exe@))
    ||| strs(o.match_path@).len() > 0 && spec_path_matches(exe, strs(o.match_path@))
}

pub fn stem_matches(exe: &str, patterns: &Vec<String>) -> (r: bool)
    ensures
        r == spec_stem_matches(exe@, strs(patterns@)),
{
    let ec = to_chars(exe);
    let stem = match file_stem_exec(ec.as_slice()) {
        Some(s) => s,
        None => {
            return false;
        },
    };
    let sl = to_lower(stem.as_slice());
    let ghost ps = strs(patterns@);
    let mut i: usize = 0;
    while i < patterns.len()
        invariant
            i <= patterns@.len(),
            ps == strs(patterns@),
            file_stem(exe@) == Some(stem@),
            sl@ == lower_seq(stem@),
            forall|j: int|
                0 <= j < i ==> !{
                    let p = lower_seq(#[trigger] ps[j]);
                    sl@ == p || contains(sl@, p) || contains(p, sl@)
                },
        decreases patterns@.len() - i,
    {
        let pc = to_chars(patterns[i].as_str());
        let pl = to_lower(pc.as_slice());
        assert(ps[i as int] == patterns@[i as int]@);
        if crate::text::chars_eq(sl.as_slice(), pl.as_slice()) || contains_exec(
            sl.as_slice(),
            pl.as_slice(),
        ) || contains_exec(pl.as_slice(), sl.as_slice()) {
            return true;
        }
        i = i + 1;
    }
    false
}

pub fn path_matches(exe: &str, patterns: &Vec<String>) -> (r: bool)
    ensures
        r == spec_path_matches(exe@, strs(patterns@)),
{
    let ec = to_chars(exe);
    let el = to_lower(ec.as_slice());
    let ghost ps = strs(patterns@);
    let mut i: usize = 0;
    while i < patterns.len()
        invariant
            i <= patterns@.len(),
            ps == strs(patterns@),
            el@ == lower_seq(exe@),
            forall|j: int| 0 <= j < i ==> !contains(el@, lower_seq(#[trigger] ps[j])),
        decreases patterns@.len() - i,
    {
        let pc = to_chars(patterns[i].as_str());
        let pl = to_lower(pc.as_slice());
        assert(ps[i as int] == patterns@[i as int]@);
        if contains_exec(el.as_slice(), pl.as_slice()) {
            return true;
        }
        i = i + 1;
    }
    false
}

/// Where the first override in `list` that matches this game exe stands.
fn match_index(list: &Vec<GameOverride>, exe: &str) -> (r: Option<usize>)
    ensures
        match r {
            Some(i) => i < list@.len() && override_matches(list@[i as int], exe@) && forall|j: int|
                0 <= j < i ==> !override_matches(#[trigger] list@[j], exe@),
            None => forall|j: int| 0 <= j < list@.len() ==> !override_matches(#[trigger] list@[j], exe@),
        },
{
    let mut i: usize = 0;
    while i < list.len()
        invariant
            i <= list@.len(),
            forall|j: int| 0 <= j < i ==> !override_matches(#[trigger] list@[j], exe@),
        decreases list@.len() - i,
    {
        let o = &list[i];
        if (o.match_exe.len() > 0 && stem_matches(exe, &o.match_exe)) || (o.match_path.len() > 0
            && path_matches(exe, &o.match_path)) {
            return Some(i);
        }
        i = i + 1;
    }
    None
}

/// Two overrides that hold the same patterns, note and settings.
pub open spec fn same_override(a: GameOverride, b: GameOverride) -> bool {
    &&& strs(a.match_exe@) == strs(b.match_exe@)
    &&& strs(a.match_path@) == strs(b.match_path@)
    &&& a.note@ == b.note@
    &&& a.ofa_enabled == b.ofa_enabled
    &&& a.ofa_grid == b.ofa_grid
    &&& a.ofa_perf == b.ofa_perf
    &&& a.engine_velocity == b.engine_velocity
    &&& a.early_color == b.early_color
    &&& a.early_color_cand == b.early_color_cand
    &&& a.async_feed == b.async_feed
    &&& a.reset_mode == b.reset_mode
    &&& a.light_stab == b.light_stab
    &&& text_opt(a.light_stab_strength) == text_opt(b.light_stab_strength)
    &&& text_opt(a.light_stab_max_delta) == text_opt(b.light_stab_max_delta)
    &&& a.work_resolution == b.work_resolution
    &&& a.auto_profile_applied == b.auto_profile_applied
    &&& a.taa_off == b.taa_off
    &&& text_opt(a.setup_tip) == text_opt(b.setup_tip)
    &&& a.prefer_native_engine == b.prefer_native_engine
}

fn copy_strings(v: &Vec<String>) -> (r: Vec<String>)
    ensures
        strs(r@) == strs(v@),
{
    let mut r: Vec<String> = Vec::new();
    let mut i: usize = 0;
    while i < v.len()
        invariant
            i <= v@.len(),
            strs(r@) == strs(v@).take(i as int),
        decreases v@.len() - i,
    {
        let ghost before = strs(r@);
        r.push(String::from_str(v[i].as_str()));
        assert(strs(r@) =~= before.push(v@[i as int]@));
        assert(strs(v@).take(i + 1) =~= strs(v@).take(i as int).push(v@[i as int]@));
        i = i + 1;
    }
    assert(strs(v@).take(v@.len() as int) =~= strs(v@));
    r
}

fn copy_text(t: &Option<String>) -> (r: Option<String>)
    ensures
        text_opt(r) == text_opt(*t),
{
    match t {
        Some(s) => Some(String::from_str(s.as_str())),
        None => None,
    }
}

/// A copy of an override.
fn copy_override(o: &GameOverride) -> (c: GameOverride)
    ensures
        same_override(c, *o),
{
    GameOverride {
        match_exe: copy_strings(&o.match_exe),
        match_path: copy_strings(&o.match_path),
        note: String::from_str(o.note.as_str()),
        ofa_enabled: o.ofa_enabled,
        ofa_grid: o.ofa_grid,
        ofa_perf: o.ofa_perf,
        engine_velocity: o.engine_velocity,
        early_color: o.early_color,
        early_color_cand: o.early_color_cand,
        async_feed: o.async_feed,
        reset_mode: o.reset_mode,
        light_stab: o.light_stab,
        light_stab_strength: copy_text(&o.light_stab_strength),
        light_stab_max_delta: copy_text(&o.light_stab_max_delta),
        work_resolution: o.work_resolution,
        auto_profile_applied: o.auto_profile_applied,
        taa_off: o.taa_off,
        setup_tip: copy_text(&o.setup_tip),
        prefer_native_engine: o.prefer_native_engine,
    }
}

/// The first override in `list` that matches this game exe (by exe stem,
/// or by a substring of its path), if any.
pub fn find_override(list: &Vec<GameOverride>, exe: &str) -> (r: Option<GameOverride>)
    ensures
        match r {
            Some(c) => exists|i: int|
                0 <= i < list@.len() && override_matches(#[trigger] list@[i], exe@) && (forall|j: int|
                    0 <= j < i ==> !override_matches(#[trigger] list@[j], exe@)) && same_override(
                    c,
                    list@[i],
                ),
            None => forall|j: int| 0 <= j < list@.len() ==> !override_matches(#[trigger] list@[j], exe@),
        },
{
    match match_index(list, exe) {
        Some(i) => {
            let c = copy_override(&list[i]);
            assert(override_matches(list@[i as int], exe@));
            Some(c)
        },
        None => None,
    }
}

/// Overrides that hold the same patterns and settings match the same exes,
/// set the same keys and log the same line.
pub proof fn lemma_same_override(a: GameOverride, b: GameOverride, exe: Seq<char>)
    requires
        same_override(a, b),
    ensures
        override_matches(a, exe) == override_matches(b, exe),
        override_sets(a) == override_sets(b),
        spec_log_line(a) == spec_log_line(b),
{
}

// ───────────────────────────── patching ─────────────────────────────

pub open spec fn opt_set(
    key: Seq<char>,
    value: Option<Seq<char>>,
) -> Seq<(Seq<char>, Seq<char>)> {
    match value {
        Some(v) => seq![(key, v)],
        None => Seq::empty(),
    }
}

pub open spec fn bit_opt(b: Option<bool>) -> Option<Seq<char>> {
    match b {
        Some(v) => Some(bit(v)),
        None => None,
    }
}

pub open spec fn int_opt(n: Option<i32>) -> Option<Seq<char>> {
    match n {
        Some(v) => Some(dec_int(v as int)),
        None => None,
    }
}

pub open spec fn text_opt(t: Option<String>) -> Option<Seq<char>> {
    match t {
        Some(v) => Some(v@),
        None => None,
    }
}

/// What `reset_every` becomes with a `reset_mode`: on exactly for mode 1.
pub open spec fn reset_every_opt(n: Option<i32>) -> Option<Seq<char>> {
    match n {
        Some(v) => Some(bit(v == 1)),
        None => None,
    }
}

/// A work resolution as written: held to 50..100.
pub open spec fn work_resolution_opt(n: Option<i32>) -> Option<Seq<char>> {
    match n {
        Some(v) => Some(dec_int(clamp(v, 50, 100) as int)),
        None => None,
    }
}

/// What an override sets in the cfg, in order; `reset_mode` also sets
/// `reset_every`, and `work_resolution` is held to 50..100.
pub open spec fn override_sets(o: GameOverride) -> Seq<(Seq<char>, Seq<char>)> {
    opt_set("ofa_enabled"@, bit_opt(o.ofa_enabled)) + opt_set("ofa_grid"@, int_opt(o.ofa_grid))
        + opt_set("ofa_perf"@, int_opt(o.ofa_perf)) + opt_set(
        "engine_velocity"@,
        bit_opt(o.engine_velocity),
    ) + opt_set("early_color"@, bit_opt(o.early_color)) + opt_set(
        "early_color_cand"@,
        int_opt(o.early_color_cand),
    ) + opt_set("async_feed"@, bit_opt(o.async_feed)) + opt_set(
        "reset_mode"@,
        int_opt(o.reset_mode),
    ) + opt_set("reset_every"@, reset_every_opt(o.reset_mode)) + opt_set(
        "light_stab"@,
        bit_opt(o.light_stab),
    ) + opt_set("light_stab_strength"@, text_opt(o.light_stab_strength)) + opt_set(
        "light_stab_max_delta"@,
        text_opt(o.light_stab_max_delta),
    ) + opt_set("work_resolution"@, work_resolution_opt(o.work_resolution)) + opt_set(
        "auto_profile_applied"@,
        int_opt(o.auto_profile_applied),
    )
}

fn int_text(n: i32) -> (r: String)
    ensures
        r@ == dec_int(n as int),
{
    from_chars(dec_i64(n as i64).as_slice())
}

fn bit_text(b: bool) -> (r: String)
    ensures
        r@ == bit(b),
{
    let mut s = String::new();
    s.push(if b {
        '1'
    } else {
        '0'
    });
    assert(s@ =~= bit(b));
    s
}

fn push_set(sets: &mut Vec<(&'static str, String)>, key: &'static str, value: String)
    ensures
        set_views(final(sets)@) == set_views(old(sets)@) + seq![(key@, value@)],
{
    let ghost before = set_views(sets@);
    let ghost v = value@;
    sets.push((key, value));
    assert(set_views(sets@) =~= before + seq![(key@, v)]);
}

fn push_opt_bit(sets: &mut Vec<(&'static str, String)>, key: &'static str, b: Option<bool>)
    ensures
        set_views(final(sets)@) == set_views(old(sets)@) + opt_set(key@, bit_opt(b)),
{
    match b {
        Some(v) => push_set(sets, key, bit_text(v)),
        None => {
            assert(set_views(sets@) + opt_set(key@, bit_opt(b)) =~= set_views(sets@));
        },
    }
}

fn push_opt_int(sets: &mut Vec<(&'static str, String)>, key: &'static str, n: Option<i32>)
    ensures
        set_views(final(sets)@) == set_views(old(sets)@) + opt_set(key@, int_opt(n)),
{
    match n {
        Some(v) => push_set(sets, key, int_text(v)),
        None => {
            assert(set_views(sets@) + opt_set(key@, int_opt(n)) =~= set_views(sets@));
        },
    }
}

fn push_opt_text(sets: &mut Vec<(&'static str, String)>, key: &'static str, t: &Option<String>)
    ensures
        set_views(final(sets)@) == set_views(old(sets)@) + opt_set(key@, text_opt(*t)),
{
    match t {
        Some(v) => push_set(sets, key, v.clone()),
        None => {
            assert(set_views(sets@) + opt_set(key@, text_opt(*t)) =~= set_views(sets@));
        },
    }
}

/// Patch a `dlss5-feed.cfg` text with an override's keys: a line that
/// starts with the key is replaced, else the key is added at the end.
pub fn apply_to_cfg_text(cfg: &str, o: &GameOverride) -> (r: String)
    ensures
        r@ == spec_patch(cfg@, override_sets(*o)),
{
    let mut sets: Vec<(&'static str, String)> = Vec::new();
    assert(set_views(sets@) =~= Seq::<(Seq<char>, Seq<char>)>::empty());
    push_opt_bit(&mut sets, "ofa_enabled", o.ofa_enabled);
    push_opt_int(&mut sets, "ofa_grid", o.ofa_grid);
    push_opt_int(&mut sets, "ofa_perf", o.ofa_perf);
    push_opt_bit(&mut sets, "engine_velocity", o.engine_velocity);
    push_opt_bit(&mut sets, "early_color", o.early_color);
    push_opt_int(&mut sets, "early_color_cand", o.early_color_cand);
    push_opt_bit(&mut sets, "async_feed", o.async_feed);
    push_opt_int(&mut sets, "reset_mode", o.reset_mode);
    let re = match o.reset_mode {
        Some(v) => Some(v == 1),
        None => None,
    };
    assert(bit_opt(re) == reset_every_opt(o.reset_mode));
    push_opt_bit(&mut sets, "reset_every", re);
    push_opt_bit(&mut sets, "light_stab", o.light_stab);
    push_opt_text(&mut sets, "light_stab_strength", &o.light_stab_strength);
    push_opt_text(&mut sets, "light_stab_max_delta", &o.light_stab_max_delta);
    let wr = match o.work_resolution {
        Some(v) => Some(crate::feeder_cfg::clamp_i32(v, 50, 100)),
        None => None,
    };
    assert(int_opt(wr) == work_resolution_opt(o.work_resolution));
    push_opt_int(&mut sets, "work_resolution", wr);
    push_opt_int(&mut sets, "auto_profile_applied", o.auto_profile_applied);
    assert(set_views(sets@) =~= override_sets(*o));
    patch(cfg, &sets)
}

// ───────────────────────────── what Install says ─────────────────────────────

/// The log line Install prints after applying an override: its note, and
/// for `taa_off` the tip to turn TAA off (the override's own tip, else the
/// stock one), joined by `" · "`.
pub open spec fn spec_log_line(o: GameOverride) -> Seq<char> {
    let parts = if o.taa_off == Some(true) {
        seq![note_line(o), taa_tip(o)]
    } else {
        seq![note_line(o)]
    };
    join(parts, " · "@)
}

/// The first piece of the log line: the override's note, or a plain
/// "applied" where it has none.
pub open spec fn note_line(o: GameOverride) -> Seq<char> {
    if o.note@.len() == 0 {
        "game override applied"@
    } else {
        "game override: "@ + o.note@
    }
}

/// The tip that turns the engine's TAA off: the override's own, else the
/// stock one.
pub open spec fn taa_tip(o: GameOverride) -> Seq<char> {
    match o.setup_tip {
        Some(t) => if t@.len() > 0 {
            t@
        } else {
            UE_TAA_OFF_TIP@
        },
        None => UE_TAA_OFF_TIP@,
    }
}

pub fn override_log_line(o: &GameOverride) -> (r: String)
    ensures
        r@ == spec_log_line(*o),
{
    let mut parts: Vec<Vec<char>> = Vec::new();
    if o.note.as_str().is_empty() {
        parts.push(to_chars("game override applied"));
    } else {
        let mut t = String::from_str("game override: ");
        push_str(&mut t, o.note.as_str());
        parts.push(to_chars(t.as_str()));
    }
    if o.taa_off == Some(true) {
        match &o.setup_tip {
            Some(t) => if !t.as_str().is_empty() {
                parts.push(to_chars(t.as_str()));
            } else {
                parts.push(to_chars(UE_TAA_OFF_TIP));
            },
            None => parts.push(to_chars(UE_TAA_OFF_TIP)),
        }
    }
    proof {
        if o.taa_off == Some(true) {
            assert(views(parts@) =~= seq![note_line(*o), taa_tip(*o)]);
        } else {
            assert(views(parts@) =~= seq![note_line(*o)]);
        }
    }
    join_exec(&parts, " · ")
}

/// What Install does with the curated list once the Feeder cfg is written:
/// nothing when no override matches the exe or there is no cfg (`cfg` is
/// `None`); else the first matching override's patched cfg text and the
/// line to log.
pub fn override_for_game(list: &Vec<GameOverride>, exe: &str, cfg: Option<&str>) -> (r: Option<
    (String, String),
>)
    ensures
        r is Some <==> (cfg is Some && exists|i: int|
            0 <= i < list@.len() && override_matches(#[trigger] list@[i], exe@)),
        r matches Some((text, line)) ==> exists|i: int|
            0 <= i < list@.len() && override_matches(#[trigger] list@[i], exe@) && (forall|j: int|
                0 <= j < i ==> !override_matches(#[trigger] list@[j], exe@)) && text@
                == spec_patch(cfg.unwrap()@, override_sets(list@[i])) && line@ == spec_log_line(
                list@[i],
            ),
{
    let i = match match_index(list, exe) {
        Some(i) => i,
        None => {
            return None;
        },
    };
    let prev = match cfg {
        Some(c) => c,
        None => {
            return None;
        },
    };
    let o = &list[i];
    let text = apply_to_cfg_text(prev, o);
    let line = override_log_line(o);
    assert(override_matches(list@[i as int], exe@));
    Some((text, line))
}

/// The generic seed for a game that likely ray traces: slightly stronger
/// LightStab, 90 % work resolution, and the automatic profile not yet
/// applied.
pub fn rt_likely_seed() -> (o: GameOverride)
    ensures
        o.light_stab == Some(true),
        o.light_stab_strength matches Some(t) && t@ == "0.400"@,
        o.light_stab_max_delta matches Some(t) && t@ == "0.080"@,
        o.work_resolution == Some(90i32),
        o.auto_profile_applied == Some(0i32),
        o.note@ == "rt_likely"@,
        o.match_exe@.len() == 0 && o.match_path@.len() == 0,
        o.ofa_enabled is None && o.ofa_grid is None && o.ofa_perf is None && o.engine_velocity
            is None && o.early_color is None && o.early_color_cand is None && o.async_feed
            is None && o.reset_mode is None && o.taa_off is None && o.setup_tip is None
            && o.prefer_native_engine is None,
{
    let mut o = GameOverride::empty();
    o.light_stab = Some(true);
    o.light_stab_strength = Some(String::from_str("0.400"));
    o.light_stab_max_delta = Some(String::from_str("0.080"));
    o.work_resolution = Some(90);
    o.auto_profile_applied = Some(0);
    o.note = String::from_str("rt_likely");
    o
}


/// The TAA tip is an instruction in the log line and nothing else: it is
/// there exactly when the override sets `taa_off`, after the override's
/// note.
pub proof fn law_taa_tip_only_when_asked(o: GameOverride)
    ensures
        o.taa_off == Some(true) ==> spec_log_line(o) == note_line(o) + " · "@ + taa_tip(o),
        o.taa_off != Some(true) ==> spec_log_line(o) == note_line(o),
{
    let parts = seq![note_line(o), taa_tip(o)];
    assert(parts.drop_last() =~= seq![note_line(o)]);
    assert(join(seq![note_line(o)], " · "@) == note_line(o));
    assert(join(parts, " · "@) == join(parts.drop_last(), " · "@) + " · "@ + parts.last());
}

/// Matching ignores ASCII case: patterns that differ only in case match the
/// same exes, by stem and by path, and an exe path that differs only in
/// case matches the same path patterns.
pub proof fn law_matching_ignores_case(
    exe: Seq<char>,
    exe2: Seq<char>,
    ps: Seq<Seq<char>>,
    qs: Seq<Seq<char>>,
)
    requires
        ps.len() == qs.len(),
        forall|i: int| 0 <= i < ps.len() ==> lower_seq(#[trigger] ps[i]) == lower_seq(qs[i]),
    ensures
        spec_stem_matches(exe, ps) == spec_stem_matches(exe, qs),
        lower_seq(exe) == lower_seq(exe2) ==> spec_path_matches(exe, ps) == spec_path_matches(
            exe2,
            qs,
        ),
{
    if spec_path_matches(exe, ps) && lower_seq(exe) == lower_seq(exe2) {
        let i = choose|i: int|
            0 <= i < ps.len() && contains(lower_seq(exe), lower_seq(#[trigger] ps[i]));
        assert(contains(lower_seq(exe2), lower_seq(qs[i])));
    }
    if spec_path_matches(exe2, qs) && lower_seq(exe) == lower_seq(exe2) {
        let i = choose|i: int|
            0 <= i < qs.len() && contains(lower_seq(exe2), lower_seq(#[trigger] qs[i]));
        assert(lower_seq(ps[i]) == lower_seq(qs[i]));
        assert(contains(lower_seq(exe), lower_seq(ps[i])));
    }
    if let Some(stem) = file_stem(exe) {
        let s = lower_seq(stem);
        if spec_stem_matches(exe, ps) {
            let i = choose|i: int|
                0 <= i < ps.len() && {
                    let p = lower_seq(#[trigger] ps[i]);
                    s == p || contains(s, p) || contains(p, s)
                };
            assert(lower_seq(ps[i]) == lower_seq(qs[i]));
        }
        if spec_stem_matches(exe, qs) {
            let i = choose|i: int|
                0 <= i < qs.len() && {
                    let p = lower_seq(#[trigger] qs[i]);
                    s == p || contains(s, p) || contains(p, s)
                };
            assert(lower_seq(ps[i]) == lower_seq(qs[i]));
        }
    }
}

/// A path pattern matches an exe whose path holds it, whatever the case of
/// either: the pattern in lower case against the path in lower case.
pub proof fn law_path_pattern_found_any_case(exe: Seq<char>, ps: Seq<Seq<char>>, i: int, at: int)
    requires
        0 <= i < ps.len(),
        occurs_at(lower_seq(exe), lower_seq(ps[i]), at),
    ensures
        spec_path_matches(exe, ps),
{
    assert(contains(lower_seq(exe), lower_seq(ps[i])));
}

} // verus!
