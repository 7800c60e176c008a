//! Read the logs a session leaves behind and say why neural rendering is or
//! is not running. Answers the commonest report ("I enabled it, nothing
//! changed") without a round trip: everything needed is already in
//! `ReShade.log` and, on the Feeder path, `dlss5-feed.log` next to the game
//! exe. Reading those files (and asking the machine about its GPUs and NGX)
//! is the caller's part: they arrive here as an `Evidence`.

use vstd::prelude::*;
use crate::advice;
use crate::game::{Api, GameStatus, Mode, RESHADE_PROXY};
use crate::num::{dec, dec_u64, is_digit, parse_u32, parse_u32_exec, parse_u64, parse_u64_exec};
use crate::setup::RENODX_CLASSIC_TAG;
use crate::text::{
    after_last, after_last_exec, lemma_first_line_none, lemma_last_line_append, line_ok, before, before_exec, chars_eq, contains, contains_str,
    eq_ignore_case, eq_ignore_case_exec, file_name, file_name_exec, first_line, first_line_exec,
    from_chars, join, join_exec, last_line, last_line_exec, lines, lines_exec, lower_seq, pats0,
    pats1, pats2, pats3, push_chars, push_str, second_piece, second_piece_exec, split2,
    split2_exec, split_once, strings_to_chars, split_once_exec, strs, starts_with, starts_with_str, to_chars, to_lower,
    trim, trim_end_matches, trim_end_matches_exec, trim_exec, views, words, words_exec,
};

verus! {

#[derive(Debug, Clone, Copy, PartialEq, Eq, Structural)]
pub enum Level {
    Okay,
    Warn,
    Bad,
}

#[derive(Debug, Clone)]
pub struct Finding {
    pub level: Level,
    pub text: String,
}

/// A finding as a level and the characters of its text.
pub type FindingView = (Level, Seq<char>);

pub open spec fn fv(f: Finding) -> FindingView {
    (f.level, f.text@)
}

pub open spec fn fvs(s: Seq<Finding>) -> Seq<FindingView> {
    Seq::new(s.len(), |i: int| fv(s[i]))
}

pub fn ok(t: String) -> (f: Finding)
    ensures
        fv(f) == (Level::Okay, t@),
{
    Finding { level: Level::Okay, text: t }
}

pub fn warn(t: String) -> (f: Finding)
    ensures
        fv(f) == (Level::Warn, t@),
{
    Finding { level: Level::Warn, text: t }
}

pub fn bad(t: String) -> (f: Finding)
    ensures
        fv(f) == (Level::Bad, t@),
{
    Finding { level: Level::Bad, text: t }
}

/// The neural model DLL found for the session: the one beside the exe, or
/// else the one in the helper's folder.
#[derive(Debug, Clone)]
pub struct ModelDll {
    /// It is the copy beside the exe (not the one in host64).
    pub beside_exe: bool,
    /// Its file version, when it has one.
    pub version: Option<String>,
    /// What that version is known as.
    pub build: String,
}

/// An Agility SDK redistributable the game declares.
#[derive(Debug, Clone)]
pub struct Redist {
    /// Where it is, as shown to the user.
    pub path: String,
    /// Its file version, when it has one.
    pub version: Option<String>,
}

/// What a session left in a game folder, and what the machine says about
/// its GPUs and NGX.
#[derive(Debug, Clone)]
pub struct Evidence {
    /// `ReShade.log` (else `ReShade2.log`) in the folder the neural add-on
    /// runs in.
    pub reshade_log: Option<String>,
    /// A `d3dcompiler_47.dll` sits beside the exe.
    pub compiler_present: bool,
    /// Its file version, when it has one.
    pub compiler_version: Option<String>,
    /// `dgVoodoo.conf` beside the exe, when it is there and readable.
    pub dgvoodoo_conf: Option<String>,
    /// `commandline.txt` beside the exe, when it is there (empty when it
    /// could not be read).
    pub commandline: Option<String>,
    /// The neural model DLL, when one is there.
    pub model: Option<ModelDll>,
    /// The file through which ReShade loads, beside the exe, is ReShade.
    pub game_side_reshade: bool,
    /// `dlss5-bridge.log` beside the exe.
    pub bridge_log: Option<String>,
    /// The Agility SDK redistributable the exe declares, when one is found.
    pub agility_redist: Option<Redist>,
    /// `dlss5-feed.log` beside the exe.
    pub feed_log: Option<String>,
    /// `dlss5-feed-host.log` in the helper's folder under the game folder.
    pub host_log: Option<String>,
    /// `dlss5-feed-host.log` in the folder the neural add-on runs in.
    pub consumer_host_log: Option<String>,
    /// More than one GPU vendor is present, so Windows picks the GPU per
    /// process.
    pub hybrid_gpu: bool,
    /// The GPUs of the machine, by name.
    pub gpu_names: Vec<String>,
    /// The game's exe is set to run on the high-performance GPU.
    pub exe_high_performance: bool,
    /// The 64-bit helper's exe is set to run on the high-performance GPU.
    pub helper_high_performance: bool,
    /// What the system says about its NGX runtime and driver.
    pub ngx_description: String,
    /// NGX runtime and driver are in order.
    pub ngx_healthy: bool,
}

impl Evidence {
    /// A folder with nothing in it, on a machine with one GPU vendor whose
    /// NGX is in order.
    pub fn nothing_found() -> (ev: Evidence)
        ensures
            ev.reshade_log is None && !ev.compiler_present && ev.compiler_version is None
                && ev.dgvoodoo_conf is None && ev.commandline is None && ev.model is None
                && !ev.game_side_reshade && ev.bridge_log is None && ev.agility_redist is None
                && ev.feed_log is None && ev.host_log is None && ev.consumer_host_log is None
                && !ev.hybrid_gpu && ev.gpu_names@.len() == 0 && !ev.exe_high_performance
                && !ev.helper_high_performance && ev.ngx_description@.len() == 0 && ev.ngx_healthy,
    {
        Evidence {
            reshade_log: None,
            compiler_present: false,
            compiler_version: None,
            dgvoodoo_conf: None,
            commandline: None,
            model: None,
            game_side_reshade: false,
            bridge_log: None,
            agility_redist: None,
            feed_log: None,
            host_log: None,
            consumer_host_log: None,
            hybrid_gpu: false,
            gpu_names: Vec::new(),
            exe_high_performance: false,
            helper_high_performance: false,
            ngx_description: String::new(),
            ngx_healthy: true,
        }
    }
}

/// The newest Feeder known at build time; only used to nudge users off
/// stale copies.
pub const CURRENT_FEEDER: &'static str = "0.15.1";

// ───────────────────────────── the model ─────────────────────────────

pub open spec fn one(level: Level, t: Seq<char>) -> Seq<FindingView> {
    seq![(level, t)]
}

pub open spec fn nothing() -> Seq<FindingView> {
    Seq::empty()
}

pub open spec fn opt_text(o: Option<String>) -> Option<Seq<char>> {
    match o {
        Some(s) => Some(s@),
        None => None,
    }
}

/// `NVSDK_NGX_*_Init -> 0xBAD00001` in a log: NGX itself refused. Named,
/// with what the system says about NGX, and (on a machine with more than one
/// GPU vendor) with the per-process GPU choice that causes it; `pref_set` is
/// whether the exe in question is already set to high performance.
pub open spec fn spec_ngx_init_failure(log: Seq<char>, ev: Evidence, pref_set: bool) -> Seq<
    FindingView,
> {
    match first_line(lines(log), seq!["NVSDK_NGX"@, "Init"@, "0xBAD00001"@], seq![], seq![]) {
        None => nothing(),
        Some(line) => {
            let hybrid = if ev.hybrid_gpu {
                one(
                    Level::Bad,
                    advice::GPU_HYBRID_0@ + join(strs(ev.gpu_names@), ", "@) + advice::GPU_HYBRID_1@
                        + (if pref_set {
                        advice::GPU_PREF_SET@
                    } else {
                        Seq::empty()
                    }) + advice::GPU_HYBRID_2@,
                )
            } else {
                nothing()
            };
            hybrid + one(
                Level::Bad,
                advice::NGX_REFUSED_0@ + trim(line) + advice::NGX_REFUSED_1@ + ev.ngx_description@
                    + advice::NGX_REFUSED_2@ + (if ev.ngx_healthy {
                    advice::NGX_ADVICE_HEALTHY@
                } else {
                    advice::NGX_ADVICE_FIX@
                }),
            )
        },
    }
}

/// The numbers of a version string, split at `.` and `-`; a piece that is
/// not a number counts as 0.
pub open spec fn spec_version_key(v: Seq<char>) -> Seq<u64> {
    split2(v, '.', '-').map_values(
        |p: Seq<char>|
            match parse_u64(p) {
                Some(n) => n,
                None => 0u64,
            },
    )
}

/// The lexicographic order of `Vec<u64>`.
pub open spec fn lex_lt(a: Seq<u64>, b: Seq<u64>) -> bool
    decreases a.len(),
{
    if a.len() == 0 {
        b.len() > 0
    } else if b.len() == 0 {
        false
    } else if a[0] != b[0] {
        a[0] < b[0]
    } else {
        lex_lt(a.drop_first(), b.drop_first())
    }
}

/// The exe ReShade loaded into, from its first line:
/// `... loaded from '...dxgi.dll' into 'C:\\...bg3_dx11.exe' (0x...)`.
pub open spec fn spec_reshade_host_exe(log: Seq<char>) -> Option<Seq<char>> {
    match first_line(lines(log), seq!["loaded from"@, " into "@], seq![], seq![]) {
        Some(line) => match second_piece(line, " into "@) {
            Some(rest) => match second_piece(rest, "'"@) {
                Some(path) => file_name(path),
                None => None,
            },
            None => None,
        },
        None => None,
    }
}

/// The value of the first `key = value` line whose key is `VRAM`.
pub open spec fn vram_value(ls: Seq<Seq<char>>) -> Option<Seq<char>>
    decreases ls.len(),
{
    if ls.len() == 0 {
        None
    } else {
        match split_once(ls[0], '=') {
            Some((k, v)) => if eq_ignore_case(trim(k), "VRAM"@) {
                Some(v)
            } else {
                vram_value(ls.drop_first())
            },
            None => vram_value(ls.drop_first()),
        }
    }
}

/// The video memory dgVoodoo reports, in MB.
pub open spec fn spec_vram(conf: Seq<char>) -> Option<u32> {
    match vram_value(lines(conf)) {
        Some(v) => parse_u32(trim(trim_end_matches(trim(v), "MB"@))),
        None => None,
    }
}

/// What to put after `-availablevidmem`: a little below dgVoodoo's figure,
/// and never below 256.
pub open spec fn suggested_vidmem(vram: u32) -> nat {
    if vram < 64 + 256 {
        256
    } else {
        (vram - 64) as nat
    }
}

pub open spec fn wine_hlsl(ev: Evidence) -> bool {
    ev.reshade_log matches Some(l) && contains(l@, "not yet implemented feature"@)
}

pub open spec fn compiler_findings(ev: Evidence) -> Seq<FindingView> {
    if ev.compiler_present && !wine_hlsl(ev) {
        let ver = match ev.compiler_version {
            Some(v) => v@,
            None => "unknown"@,
        };
        one(Level::Warn, advice::COMPILER_SHIPPED_0@ + ver + advice::COMPILER_SHIPPED_1@)
    } else {
        nothing()
    }
}

pub open spec fn dgvoodoo_findings(ev: Evidence) -> Seq<FindingView> {
    match (ev.dgvoodoo_conf, ev.commandline) {
        (Some(conf), Some(cmd)) => match spec_vram(conf@) {
            Some(vram) => if !contains(lower_seq(cmd@), "-availablevidmem"@) {
                one(
                    Level::Warn,
                    advice::DGVOODOO_VRAM_0@ + dec(vram as nat) + advice::DGVOODOO_VRAM_1@ + dec(
                        suggested_vidmem(vram),
                    ) + advice::DGVOODOO_VRAM_2@,
                )
            } else {
                nothing()
            },
            None => nothing(),
        },
        _ => nothing(),
    }
}

pub open spec fn model_findings(ev: Evidence) -> Seq<FindingView> {
    match ev.model {
        Some(m) => match m.version {
            Some(v) => one(
                Level::Okay,
                "DLSS 5 model "@ + (if m.beside_exe {
                    "beside the exe"@
                } else {
                    "in host64"@
                }) + ": "@ + v@ + " — "@ + m.build@,
            ),
            None => nothing(),
        },
        None => nothing(),
    }
}

pub open spec fn proxy_findings(st: GameStatus, ev: Evidence) -> Seq<FindingView> {
    if st.bitness == 32 && !ev.game_side_reshade {
        one(
            Level::Bad,
            advice::NO_GAME_SIDE_RESHADE_0@ + RESHADE_PROXY@ + advice::NO_GAME_SIDE_RESHADE_1@
                + RESHADE_PROXY@ + advice::NO_GAME_SIDE_RESHADE_2@,
        )
    } else {
        nothing()
    }
}

pub open spec fn no_reshade_log(st: GameStatus) -> FindingView {
    (
        Level::Bad,
        if st.bitness == 32 {
            advice::NO_HOST_RESHADE_LOG@
        } else {
            advice::NO_RESHADE_LOG@
        },
    )
}

pub open spec fn loaded_findings(rs: Seq<char>) -> Seq<FindingView> {
    if contains(rs, "Initializing crosire's ReShade"@) {
        one(Level::Okay, advice::RESHADE_LOADED@)
    } else {
        nothing()
    }
}

/// The error code at the end of a `Failed to load add-on` line.
pub open spec fn error_code(l: Seq<char>) -> Seq<char> {
    trim_end_matches(after_last(l, "error code "@), "!"@)
}

pub open spec fn addon_findings(st: GameStatus, rs: Seq<char>) -> Seq<FindingView> {
    match first_line(lines(rs), seq!["Failed to load add-on"@, "renodx-dlss5"@], seq![], seq![]) {
        Some(l) => {
            let code = error_code(l);
            let extra = if trim(code) == "2148073478"@ {
                advice::UNSIGNED_DLLS@
            } else if trim(code) == "1114"@ {
                advice::ENTRY_POINT_FAILED@
            } else {
                Seq::empty()
            };
            one(Level::Bad, advice::ADDON_REFUSED_0@ + code + extra + advice::ADDON_REFUSED_2@)
        },
        None => if contains(rs, "DLSS 5 Neural Rendering"@) {
            one(Level::Okay, advice::ADDON_REGISTERED@)
        } else {
            one(
                Level::Bad,
                advice::ADDON_NEVER_REGISTERED_0@ + (if st.bitness == 32 {
                    advice::ADDON_DIR_32@
                } else {
                    advice::ADDON_DIR_64@
                }) + advice::ADDON_NEVER_REGISTERED_1@,
            )
        },
    }
}

pub open spec fn toggle_findings(rs: Seq<char>) -> Seq<FindingView> {
    if contains(rs, "NR toggled ON"@) && !contains(rs, "NR toggled OFF"@) {
        one(Level::Okay, advice::NR_TOGGLED_ON@)
    } else if contains(rs, "NR toggled OFF"@) {
        one(Level::Warn, advice::NR_MAYBE_OFF@)
    } else {
        nothing()
    }
}

pub open spec fn evaluation_findings(st: GameStatus, rs: Seq<char>) -> Seq<FindingView> {
    if contains(rs, "inline feature 18 evaluation succeeded"@) {
        one(Level::Okay, advice::NR_RAN@)
    } else if contains(rs, "feature=1 (DLSS/DLAA)"@) {
        one(Level::Warn, advice::NR_NOT_EVALUATED@)
    } else if st.mode == Mode::Native {
        (if st.feeder {
            one(Level::Warn, advice::FEEDER_LEFT_IN_NATIVE@)
        } else {
            nothing()
        }) + (if st.api == Api::Dx11 && !st.bridge {
            one(Level::Bad, advice::NO_NGX_CALL_DX11@)
        } else {
            one(Level::Bad, advice::NO_NGX_CALL@)
        })
    } else {
        nothing()
    }
}

pub open spec fn wine_findings(rs: Seq<char>) -> Seq<FindingView> {
    if contains(rs, "not yet implemented feature"@) {
        let line = match first_line(
            lines(rs),
            seq!["not yet implemented feature"@],
            seq![],
            seq![],
        ) {
            Some(l) => trim(l),
            None => Seq::empty(),
        };
        one(Level::Bad, advice::WINE_HLSL_0@ + line + advice::WINE_HLSL_1@)
    } else {
        nothing()
    }
}

pub open spec fn compiler_error_findings(rs: Seq<char>) -> Seq<FindingView> {
    match first_line(
        lines(rs),
        seq![],
        seq!["X3506"@, "unrecognized compiler target"@],
        seq![],
    ) {
        Some(l) => one(Level::Bad, trim(l) + advice::COMPILER_TOO_OLD_1@),
        None => nothing(),
    }
}

pub open spec fn host_exe_findings(st: GameStatus, rs: Seq<char>) -> Seq<FindingView> {
    if st.bitness == 32 {
        nothing()
    } else {
        match spec_reshade_host_exe(rs) {
            Some(loaded) => match file_name(st.exe@) {
                Some(n) => if lower_seq(n) != lower_seq(loaded) {
                    one(
                        Level::Warn,
                        advice::OTHER_EXE_LOADED_0@ + loaded + advice::OTHER_EXE_LOADED_1@ + n
                            + advice::OTHER_EXE_LOADED_2@ + loaded + advice::OTHER_EXE_LOADED_3@,
                    )
                } else {
                    nothing()
                },
                None => nothing(),
            },
            None => nothing(),
        }
    }
}

pub open spec fn redist_text(ev: Evidence) -> Seq<char> {
    match ev.agility_redist {
        Some(r) => advice::REDIST_IN_FORCE_0@ + r.path@ + advice::REDIST_IN_FORCE_1@ + (match r.version {
            Some(v) => v@,
            None => "unknown"@,
        }) + advice::REDIST_IN_FORCE_2@,
        None => advice::REDIST_MISSING@,
    }
}

pub open spec fn bridge_findings(ev: Evidence) -> Seq<FindingView> {
    match ev.bridge_log {
        Some(bl) => {
            let ls = lines(bl@);
            let stopped = match last_line(ls, seq!["stopped:"@], seq![], seq![]) {
                Some(l) => one(Level::Bad, advice::BRIDGE_STOPPED_0@ + trim(l)),
                None => nothing(),
            };
            let redist = match first_line(
                ls,
                seq!["D3D12CreateDevice failed 0x887E0003"@],
                seq![],
                seq![],
            ) {
                Some(l) => one(Level::Bad, trim(l) + advice::INVALID_REDIST_1@ + redist_text(ev)),
                None => if contains(bl@, "frames:"@) && !contains(bl@, "session failed"@) {
                    one(Level::Okay, advice::BRIDGE_DELIVERING@)
                } else {
                    nothing()
                },
            };
            stopped + redist
        },
        None => nothing(),
    }
}

/// The last `[feed] effects:` line of a feed log (empty when there is
/// none): the first one of a session always says "none", since the effects
/// are not compiled yet, so only the last describes the running state.
pub open spec fn last_effects(fd: Seq<char>) -> Seq<char> {
    match last_line(lines(fd), seq!["[feed] effects:"@], seq![], seq![]) {
        Some(l) => l,
        None => Seq::empty(),
    }
}

pub open spec fn feed_start_findings(fd: Seq<char>) -> Seq<FindingView> {
    let last_effects = last_effects(fd);
    (if contains(fd, "feature ready"@) {
        one(Level::Okay, advice::FEED_FEATURE_READY@)
    } else {
        nothing()
    }) + (if contains(fd, "frame"@) && contains(fd, "delivered"@) {
        one(Level::Okay, advice::FRAMES_DELIVERED@)
    } else {
        nothing()
    }) + (if contains(fd, "technique MISSING"@) && !contains(fd, "technique found"@) {
        one(Level::Bad, advice::FEED_FX_NOT_COMPILING@)
    } else {
        nothing()
    }) + (if contains(last_effects, "-> none (not installed)"@) {
        one(Level::Bad, advice::MV_PROVIDER_OFF@)
    } else {
        nothing()
    })
}

pub open spec fn host_findings(st: GameStatus, ev: Evidence) -> Seq<FindingView> {
    match ev.host_log {
        Some(hl) => (if contains(hl@, "feature ready"@) {
            one(Level::Okay, advice::HOST_FEATURE_READY@)
        } else {
            nothing()
        }) + spec_ngx_init_failure(hl@, ev, ev.helper_high_performance),
        None => if st.bitness == 32 {
            one(Level::Warn, advice::NO_HOST_LOG@)
        } else {
            nothing()
        },
    }
}

/// The word after the first word that starts with `p`.
pub open spec fn word_after(ws: Seq<Seq<char>>, p: Seq<char>) -> Option<Seq<char>>
    decreases ws.len(),
{
    if ws.len() == 0 {
        None
    } else if starts_with(ws[0], p) {
        if ws.len() > 1 {
            Some(ws[1])
        } else {
            None
        }
    } else {
        word_after(ws.drop_first(), p)
    }
}

/// The Feeder's version, from its first line:
/// `"HH:MM:SS.mmm  dlss5-feed 0.12.0 (built ...) attached."`.
pub open spec fn feed_version(fd: Seq<char>) -> Option<Seq<char>> {
    if lines(fd).len() > 0 {
        match word_after(words(lines(fd)[0]), "dlss5-feed"@) {
            Some(t) => if t.len() > 0 && is_digit(t[0]) {
                Some(t)
            } else {
                None
            },
            None => None,
        }
    } else {
        None
    }
}

pub open spec fn version_findings(fd: Seq<char>) -> Seq<FindingView> {
    match feed_version(fd) {
        Some(v) => if lex_lt(spec_version_key(v), spec_version_key(CURRENT_FEEDER@)) {
            one(
                Level::Warn,
                advice::FEEDER_OLD_0@ + v + advice::FEEDER_OLD_1@ + CURRENT_FEEDER@
                    + advice::FEEDER_OLD_2@,
            )
        } else {
            nothing()
        },
        None => nothing(),
    }
}

pub open spec fn marker_tag(st: GameStatus) -> Seq<char> {
    match st.dlss5_marker {
        Some(t) => trim(t@),
        None => Seq::empty(),
    }
}

pub open spec fn feed_middle_findings(st: GameStatus, ev: Evidence, fd: Seq<char>) -> Seq<
    FindingView,
> {
    let host = match ev.consumer_host_log {
        Some(h) => h@,
        None => Seq::empty(),
    };
    let measured = contains(fd, "is a combination measured to fail"@) || (
    ev.consumer_host_log matches Some(h) && contains(h@, "is a combination measured to fail"@));
    (if contains(fd, "MV probe"@) && contains(fd, "0% non-zero"@) {
        one(Level::Bad, advice::MV_ALL_ZERO@)
    } else {
        nothing()
    }) + (if contains(fd, "DLSS super sampling is not available"@) {
        one(Level::Bad, advice::DLSS_UNAVAILABLE@)
    } else {
        nothing()
    }) + (match first_line(
        lines(fd) + lines(host),
        seq!["speaks protocol v"@, "this host v"@],
        seq![],
        seq![],
    ) {
        Some(l) => one(Level::Bad, advice::HALVES_DIFFER_0@ + trim(l) + advice::HALVES_DIFFER_1@),
        None => nothing(),
    }) + (if measured {
        if marker_tag(st) == RENODX_CLASSIC_TAG@ {
            one(
                Level::Okay,
                advice::MEASURED_FAIL_CLASSIC_0@ + marker_tag(st) + advice::MEASURED_FAIL_CLASSIC_1@,
            )
        } else {
            one(
                Level::Warn,
                advice::MEASURED_FAIL_PIN_0@ + RENODX_CLASSIC_TAG@ + advice::MEASURED_FAIL_PIN_1@,
            )
        }
    } else {
        nothing()
    })
}

/// The fault stack a `CreateFeature fault stack` line names.
pub open spec fn fault_stack(fd: Seq<char>) -> Seq<char> {
    match first_line(lines(fd), seq!["CreateFeature fault stack"@], seq![], seq![]) {
        Some(l) => trim(
            match second_piece(l, "(innermost first):"@) {
                Some(p) => p,
                None => l,
            },
        ),
        None => Seq::empty(),
    }
}

pub open spec fn crash_text(fd: Seq<char>, wine: bool) -> Seq<char> {
    let stack = fault_stack(fd);
    advice::CREATE_FAULTED@ + (if stack.len() > 0 {
        advice::FAULT_STACK_0@ + stack + advice::FAULT_STACK_1@
    } else {
        Seq::empty()
    }) + (if contains(fd, "two copies of the DLSS NGX module are loaded"@) {
        if wine || contains(fd, "driver 999.99"@) {
            advice::NVNGX_ADVICE_PROTON@
        } else {
            advice::NVNGX_ADVICE_WINDOWS@
        }
    } else {
        Seq::empty()
    })
}

/// The work resolution a log line names, as written (`85%`).
pub open spec fn work_resolution_pct(fd: Seq<char>) -> Seq<char> {
    match first_line(lines(fd), seq!["work resolution ("@], seq![], seq![]) {
        Some(l) => match second_piece(l, "work resolution ("@) {
            Some(r) => before(r, ")"@),
            None => "below 100%"@,
        },
        None => "below 100%"@,
    }
}

pub open spec fn feed_end_findings(fd: Seq<char>, wine: bool) -> Seq<FindingView> {
    (if contains(fd, "CreateFeature raised 0xC0000005"@) {
        one(Level::Bad, crash_text(fd, wine))
    } else {
        nothing()
    }) + (if contains(fd, "work-resolution staging SRV failed"@) {
        one(Level::Bad, advice::WORK_RES_FAILED_0@ + work_resolution_pct(fd) + advice::WORK_RES_FAILED_1@)
    } else {
        nothing()
    }) + (if contains(fd, "stopped:"@) {
        one(
            Level::Bad,
            advice::FEED_STOPPED_0@ + trim(
                match last_line(lines(fd), seq!["stopped:"@], seq![], seq![]) {
                    Some(l) => l,
                    None => Seq::empty(),
                },
            ),
        )
    } else {
        nothing()
    }) + (if contains(fd, "CRASH RECORDED"@) {
        one(Level::Warn, advice::FEED_CRASH@)
    } else {
        nothing()
    })
}

pub open spec fn feeder_findings(st: GameStatus, ev: Evidence) -> Seq<FindingView> {
    if st.mode != Mode::Feeder {
        nothing()
    } else {
        match ev.feed_log {
            None => one(Level::Bad, advice::NO_FEED_LOG@),
            Some(fd) => feed_start_findings(fd@) + spec_ngx_init_failure(
                fd@,
                ev,
                ev.exe_high_performance,
            ) + host_findings(st, ev) + version_findings(fd@) + feed_middle_findings(st, ev, fd@)
                + feed_end_findings(fd@, wine_hlsl(ev)),
        }
    }
}

pub open spec fn spec_upstream_outcome(rs: Seq<char>) -> FindingView {
    let ls = lines(rs);
    if first_line(ls, seq!["2c: NR Evaluate("@, "-> 0x00000001"@], seq![], seq![]) is Some {
        (Level::Okay, advice::UPSTREAM_RAN@)
    } else if let Some(l) = first_line(ls, seq!["NR Evaluate("@, "FAILED"@], seq![], seq![]) {
        (Level::Bad, advice::UPSTREAM_EVAL_FAILS_0@ + trim(l))
    } else if let Some(l) = first_line(
        ls,
        seq!["SNIPPET CreateFeature(18"@],
        seq![],
        seq!["-> 0x00000001"@],
    ) {
        (Level::Bad, advice::UPSTREAM_CREATE_FAILS_0@ + trim(l))
    } else if contains(rs, "2b: core exports missing"@) {
        (Level::Bad, advice::UPSTREAM_WRONG_MODEL@)
    } else if contains(rs, "[NRPRE] eval feat="@) {
        (Level::Warn, advice::UPSTREAM_NO_NETWORK@)
    } else if contains(rs, "[NRPRE] CreateFeature id="@) {
        (Level::Warn, advice::UPSTREAM_NO_FRAME@)
    } else {
        (Level::Bad, advice::UPSTREAM_NO_NGX_CALL@)
    }
}

/// What Neural Upstream (`nvngx.dll.addon64`, "DLSS5 NR Pre-Upscale") wrote
/// to ReShade.log, read by its own lines.
pub open spec fn spec_upstream_findings(rs: Seq<char>) -> Seq<FindingView> {
    match first_line(lines(rs), seq!["Failed to load add-on"@, "nvngx.dll.addon64"@], seq![], seq![]) {
        Some(l) => one(
            Level::Bad,
            advice::UPSTREAM_REFUSED_0@ + error_code(l) + advice::UPSTREAM_REFUSED_1@,
        ),
        None => if !(contains(rs, "[NRPRE] addon registered"@) || contains(
            rs,
            "DLSS5 NR Pre-Upscale"@,
        )) {
            one(Level::Bad, advice::UPSTREAM_NEVER_REGISTERED@)
        } else if contains(rs, "[NRPRE] no NGX evaluate could be hooked"@) {
            one(Level::Okay, advice::UPSTREAM_REGISTERED@) + one(
                Level::Bad,
                advice::UPSTREAM_NOT_HOOKED@,
            )
        } else {
            one(Level::Okay, advice::UPSTREAM_REGISTERED@) + seq![spec_upstream_outcome(rs)]
        },
    }
}

/// Findings for a game folder, in reading order.
pub open spec fn spec_diagnose(st: GameStatus, ev: Evidence) -> Seq<FindingView> {
    let pre = compiler_findings(ev) + dgvoodoo_findings(ev) + model_findings(ev) + proxy_findings(
        st,
        ev,
    );
    match ev.reshade_log {
        None => pre.push(no_reshade_log(st)),
        Some(rs) => {
            let a = pre + loaded_findings(rs@);
            if st.upstream {
                a + spec_upstream_findings(rs@)
            } else {
                a + addon_findings(st, rs@) + toggle_findings(rs@) + evaluation_findings(st, rs@)
                    + wine_findings(rs@) + compiler_error_findings(rs@) + host_exe_findings(
                    st,
                    rs@,
                ) + bridge_findings(ev) + feeder_findings(st, ev)
            }
        },
    }
}

// ───────────────────────────── the code ─────────────────────────────

/// Adds one finding.
fn push_finding(out: &mut Vec<Finding>, f: Finding)
    ensures
        fvs(final(out)@) == fvs(old(out)@).push(fv(f)),
{
    let ghost before = fvs(out@);
    out.push(f);
    assert(fvs(out@) =~= before.push(fv(f)));
}

/// Adds a list of findings.
fn add_all(out: &mut Vec<Finding>, more: Vec<Finding>)
    ensures
        fvs(final(out)@) == fvs(old(out)@) + fvs(more@),
{
    let ghost before = fvs(out@);
    let ghost m = fvs(more@);
    let mut more = more;
    out.append(&mut more);
    assert(fvs(out@) =~= before + m);
}

/// A list of one finding.
fn single(f: Finding) -> (r: Vec<Finding>)
    ensures
        fvs(r@) == seq![fv(f)],
{
    let mut r: Vec<Finding> = Vec::new();
    r.push(f);
    assert(fvs(r@) =~= seq![fv(f)]);
    r
}

fn none_found() -> (r: Vec<Finding>)
    ensures
        fvs(r@) == nothing(),
{
    let r: Vec<Finding> = Vec::new();
    assert(fvs(r@) =~= nothing());
    r
}

/// `s` followed by `t`.
fn cat(s: String, t: &str) -> (r: String)
    ensures
        r@ == s@ + t@,
{
    let mut s = s;
    push_str(&mut s, t);
    s
}

/// `s` followed by the characters `t`.
fn cat_chars(s: String, t: &[char]) -> (r: String)
    ensures
        r@ == s@ + t@,
{
    let mut s = s;
    push_chars(&mut s, t);
    s
}

fn text_of(t: &str) -> (r: String)
    ensures
        r@ == t@,
{
    String::from_str(t)
}

/// The characters of an optional text.
fn opt_chars(o: &Option<String>) -> (r: Option<Vec<char>>)
    ensures
        match r {
            Some(v) => opt_text(*o) == Some(v@),
            None => o is None,
        },
{
    match o {
        Some(s) => Some(to_chars(s.as_str())),
        None => None,
    }
}

/// `NVSDK_NGX_*_Init -> 0xBAD00001` in a log: NGX itself refused.
pub fn ngx_init_failure_for(log: &[char], ev: &Evidence, pref_set: bool) -> (r: Vec<Finding>)
    ensures
        fvs(r@) == spec_ngx_init_failure(log@, *ev, pref_set),
{
    let ls = lines_exec(log);
    let all = pats3("NVSDK_NGX", "Init", "0xBAD00001");
    let found = first_line_exec(&ls, &all, &pats0(), &pats0());
    let line = match found {
        Some(l) => l,
        None => {
            return none_found();
        },
    };
    let mut out: Vec<Finding> = Vec::new();
    assert(fvs(out@) =~= nothing());
    if ev.hybrid_gpu {
        let names = strings_to_chars(&ev.gpu_names);
        let joined = join_exec(&names, ", ");
        let mut t = text_of(advice::GPU_HYBRID_0);
        push_str(&mut t, joined.as_str());
        push_str(&mut t, advice::GPU_HYBRID_1);
        if pref_set {
            push_str(&mut t, advice::GPU_PREF_SET);
        } else {
            assert(t@ + Seq::<char>::empty() =~= t@);
        }
        push_str(&mut t, advice::GPU_HYBRID_2);
        push_finding(&mut out, bad(t));
    }
    let mut t = text_of(advice::NGX_REFUSED_0);
    push_chars(&mut t, trim_exec(line.as_slice()).as_slice());
    push_str(&mut t, advice::NGX_REFUSED_1);
    push_str(&mut t, ev.ngx_description.as_str());
    push_str(&mut t, advice::NGX_REFUSED_2);
    if ev.ngx_healthy {
        push_str(&mut t, advice::NGX_ADVICE_HEALTHY);
    } else {
        push_str(&mut t, advice::NGX_ADVICE_FIX);
    }
    push_finding(&mut out, bad(t));
    out
}

/// The numbers of a version string, split at `.` and `-`; a piece that is
/// not a number counts as 0.
pub fn version_key(v: &str) -> (r: Vec<u64>)
    ensures
        r@ == spec_version_key(v@),
{
    let vc = to_chars(v);
    let pieces = split2_exec(vc.as_slice(), '.', '-');
    let ghost ps = views(pieces@);
    let mut r: Vec<u64> = Vec::new();
    let mut i: usize = 0;
    while i < pieces.len()
        invariant
            i <= pieces@.len(),
            ps == views(pieces@),
            ps == split2(v@, '.', '-'),
            r@ == spec_version_key(v@).take(i as int),
        decreases pieces@.len() - i,
    {
        let n = match parse_u64_exec(pieces[i].as_slice()) {
            Some(n) => n,
            None => 0,
        };
        assert(spec_version_key(v@).take(i + 1) =~= spec_version_key(v@).take(i as int).push(n));
        r.push(n);
        i = i + 1;
    }
    assert(spec_version_key(v@).take(pieces@.len() as int) =~= spec_version_key(v@));
    r
}

/// `a < b` for `Vec<u64>`.
fn lex_lt_exec(a: &Vec<u64>, b: &Vec<u64>) -> (r: bool)
    ensures
        r == lex_lt(a@, b@),
{
    let mut i: usize = 0;
    assert(a@.skip(0) =~= a@);
    assert(b@.skip(0) =~= b@);
    while i < a.len() && i < b.len() && a[i] == b[i]
        invariant
            i <= a@.len(),
            i <= b@.len(),
            lex_lt(a@.skip(i as int), b@.skip(i as int)) == lex_lt(a@, b@),
        decreases a@.len() - i,
    {
        assert(a@.skip(i as int).drop_first() =~= a@.skip(i + 1));
        assert(b@.skip(i as int).drop_first() =~= b@.skip(i + 1));
        i = i + 1;
    }
    if i == a.len() {
        i < b.len()
    } else if i == b.len() {
        false
    } else {
        a[i] < b[i]
    }
}

/// The exe ReShade loaded into, from its first line:
/// `... loaded from '...dxgi.dll' into 'C:\\...bg3_dx11.exe' (0x...)`.
pub fn reshade_host_exe(log: &str) -> (r: Option<String>)
    ensures
        match r {
            Some(n) => spec_reshade_host_exe(log@) == Some(n@),
            None => spec_reshade_host_exe(log@) is None,
        },
{
    let lc = to_chars(log);
    let ls = lines_exec(lc.as_slice());
    let line = match first_line_exec(&ls, &pats2("loaded from", " into "), &pats0(), &pats0()) {
        Some(l) => l,
        None => {
            return None;
        },
    };
    let rest = match second_piece_exec(line.as_slice(), " into ") {
        Some(r) => r,
        None => {
            return None;
        },
    };
    let path = match second_piece_exec(rest.as_slice(), "'") {
        Some(p) => p,
        None => {
            return None;
        },
    };
    match file_name_exec(path.as_slice()) {
        Some(n) => Some(from_chars(n.as_slice())),
        None => None,
    }
}

fn vram_value_exec(ls: &Vec<Vec<char>>) -> (r: Option<Vec<char>>)
    ensures
        match r {
            Some(v) => vram_value(views(ls@)) == Some(v@),
            None => vram_value(views(ls@)) is None,
        },
{
    let ghost vs = views(ls@);
    let key = to_chars("VRAM");
    let mut i: usize = 0;
    assert(vs.skip(0) =~= vs);
    while i < ls.len()
        invariant
            i <= ls@.len(),
            vs == views(ls@),
            key@ == "VRAM"@,
            vram_value(vs.skip(i as int)) == vram_value(vs),
        decreases ls@.len() - i,
    {
        assert(vs.skip(i as int)[0] == ls@[i as int]@);
        assert(vs.skip(i as int).drop_first() =~= vs.skip(i + 1));
        match split_once_exec(ls[i].as_slice(), '=') {
            Some((k, v)) => {
                let tk = trim_exec(k.as_slice());
                if eq_ignore_case_exec(tk.as_slice(), key.as_slice()) {
                    return Some(v);
                }
            },
            None => {},
        }
        i = i + 1;
    }
    assert(vs.skip(i as int) =~= Seq::<Seq<char>>::empty());
    None
}

fn vram_exec(conf: &[char]) -> (r: Option<u32>)
    ensures
        r == spec_vram(conf@),
{
    let ls = lines_exec(conf);
    match vram_value_exec(&ls) {
        Some(v) => {
            let a = trim_exec(v.as_slice());
            let b = trim_end_matches_exec(a.as_slice(), "MB");
            let c = trim_exec(b.as_slice());
            parse_u32_exec(c.as_slice())
        },
        None => None,
    }
}

fn compiler_section(ev: &Evidence, wine: bool) -> (r: Vec<Finding>)
    requires
        wine == wine_hlsl(*ev),
    ensures
        fvs(r@) == compiler_findings(*ev),
{
    if ev.compiler_present && !wine {
        let mut t = text_of(advice::COMPILER_SHIPPED_0);
        match &ev.compiler_version {
            Some(v) => push_str(&mut t, v.as_str()),
            None => push_str(&mut t, "unknown"),
        }
        push_str(&mut t, advice::COMPILER_SHIPPED_1);
        single(warn(t))
    } else {
        none_found()
    }
}

fn dgvoodoo_section(ev: &Evidence) -> (r: Vec<Finding>)
    ensures
        fvs(r@) == dgvoodoo_findings(*ev),
{
    match (&ev.dgvoodoo_conf, &ev.commandline) {
        (Some(conf), Some(cmd)) => {
            let cc = to_chars(conf.as_str());
            match vram_exec(cc.as_slice()) {
                Some(vram) => {
                    let cmdc = to_chars(cmd.as_str());
                    let low = to_lower(cmdc.as_slice());
                    if !contains_str(low.as_slice(), "-availablevidmem") {
                        let suggested: u32 = if vram < 64 + 256 {
                            256
                        } else {
                            vram - 64
                        };
                        let mut t = text_of(advice::DGVOODOO_VRAM_0);
                        push_chars(&mut t, dec_u64(vram as u64).as_slice());
                        push_str(&mut t, advice::DGVOODOO_VRAM_1);
                        push_chars(&mut t, dec_u64(suggested as u64).as_slice());
                        push_str(&mut t, advice::DGVOODOO_VRAM_2);
                        single(warn(t))
                    } else {
                        none_found()
                    }
                },
                None => none_found(),
            }
        },
        _ => none_found(),
    }
}

fn model_section(ev: &Evidence) -> (r: Vec<Finding>)
    ensures
        fvs(r@) == model_findings(*ev),
{
    match &ev.model {
        Some(m) => match &m.version {
            Some(v) => {
                let mut t = text_of("DLSS 5 model ");
                if m.beside_exe {
                    push_str(&mut t, "beside the exe");
                } else {
                    push_str(&mut t, "in host64");
                }
                push_str(&mut t, ": ");
                push_str(&mut t, v.as_str());
                push_str(&mut t, " — ");
                push_str(&mut t, m.build.as_str());
                single(ok(t))
            },
            None => none_found(),
        },
        None => none_found(),
    }
}

fn proxy_section(st: &GameStatus, ev: &Evidence) -> (r: Vec<Finding>)
    ensures
        fvs(r@) == proxy_findings(*st, *ev),
{
    if st.is32() && !ev.game_side_reshade {
        let mut t = text_of(advice::NO_GAME_SIDE_RESHADE_0);
        push_str(&mut t, RESHADE_PROXY);
        push_str(&mut t, advice::NO_GAME_SIDE_RESHADE_1);
        push_str(&mut t, RESHADE_PROXY);
        push_str(&mut t, advice::NO_GAME_SIDE_RESHADE_2);
        single(bad(t))
    } else {
        none_found()
    }
}

fn error_code_exec(l: &[char]) -> (r: Vec<char>)
    ensures
        r@ == error_code(l@),
{
    let a = after_last_exec(l, "error code ");
    trim_end_matches_exec(a.as_slice(), "!")
}

fn addon_section(st: &GameStatus, rs: &[char], ls: &Vec<Vec<char>>) -> (r: Vec<Finding>)
    requires
        views(ls@) == lines(rs@),
    ensures
        fvs(r@) == addon_findings(*st, rs@),
{
    match first_line_exec(ls, &pats2("Failed to load add-on", "renodx-dlss5"), &pats0(), &pats0()) {
        Some(l) => {
            let code = error_code_exec(l.as_slice());
            let tc = trim_exec(code.as_slice());
            let mut t = text_of(advice::ADDON_REFUSED_0);
            push_chars(&mut t, code.as_slice());
            let unsigned = to_chars("2148073478");
            let entry = to_chars("1114");
            if chars_eq(tc.as_slice(), unsigned.as_slice()) {
                push_str(&mut t, advice::UNSIGNED_DLLS);
            } else if chars_eq(tc.as_slice(), entry.as_slice()) {
                push_str(&mut t, advice::ENTRY_POINT_FAILED);
            } else {
                assert(t@ + Seq::<char>::empty() =~= t@);
            }
            push_str(&mut t, advice::ADDON_REFUSED_2);
            single(bad(t))
        },
        None => if contains_str(rs, "DLSS 5 Neural Rendering") {
            single(ok(text_of(advice::ADDON_REGISTERED)))
        } else {
            let mut t = text_of(advice::ADDON_NEVER_REGISTERED_0);
            if st.is32() {
                push_str(&mut t, advice::ADDON_DIR_32);
            } else {
                push_str(&mut t, advice::ADDON_DIR_64);
            }
            push_str(&mut t, advice::ADDON_NEVER_REGISTERED_1);
            single(bad(t))
        },
    }
}

fn toggle_section(rs: &[char]) -> (r: Vec<Finding>)
    ensures
        fvs(r@) == toggle_findings(rs@),
{
    if contains_str(rs, "NR toggled ON") && !contains_str(rs, "NR toggled OFF") {
        single(ok(text_of(advice::NR_TOGGLED_ON)))
    } else if contains_str(rs, "NR toggled OFF") {
        single(warn(text_of(advice::NR_MAYBE_OFF)))
    } else {
        none_found()
    }
}

fn evaluation_section(st: &GameStatus, rs: &[char]) -> (r: Vec<Finding>)
    ensures
        fvs(r@) == evaluation_findings(*st, rs@),
{
    if contains_str(rs, "inline feature 18 evaluation succeeded") {
        single(ok(text_of(advice::NR_RAN)))
    } else if contains_str(rs, "feature=1 (DLSS/DLAA)") {
        single(warn(text_of(advice::NR_NOT_EVALUATED)))
    } else if st.mode == Mode::Native {
        let mut out = none_found();
        if st.feeder {
            push_finding(&mut out, warn(text_of(advice::FEEDER_LEFT_IN_NATIVE)));
        }
        if st.api == Api::Dx11 && !st.bridge {
            push_finding(&mut out, bad(text_of(advice::NO_NGX_CALL_DX11)));
        } else {
            push_finding(&mut out, bad(text_of(advice::NO_NGX_CALL)));
        }
        out
    } else {
        none_found()
    }
}

fn wine_section(rs: &[char], ls: &Vec<Vec<char>>) -> (r: Vec<Finding>)
    requires
        views(ls@) == lines(rs@),
    ensures
        fvs(r@) == wine_findings(rs@),
{
    if contains_str(rs, "not yet implemented feature") {
        let line = match first_line_exec(
            ls,
            &pats1("not yet implemented feature"),
            &pats0(),
            &pats0(),
        ) {
            Some(l) => trim_exec(l.as_slice()),
            None => Vec::new(),
        };
        let mut t = text_of(advice::WINE_HLSL_0);
        push_chars(&mut t, line.as_slice());
        push_str(&mut t, advice::WINE_HLSL_1);
        single(bad(t))
    } else {
        none_found()
    }
}

fn compiler_error_section(ls: &Vec<Vec<char>>, rs: &[char]) -> (r: Vec<Finding>)
    requires
        views(ls@) == lines(rs@),
    ensures
        fvs(r@) == compiler_error_findings(rs@),
{
    match first_line_exec(
        ls,
        &pats0(),
        &pats2("X3506", "unrecognized compiler target"),
        &pats0(),
    ) {
        Some(l) => {
            let t = from_chars(trim_exec(l.as_slice()).as_slice());
            single(bad(cat(t, advice::COMPILER_TOO_OLD_1)))
        },
        None => none_found(),
    }
}

fn host_exe_section(st: &GameStatus, rs: &str) -> (r: Vec<Finding>)
    ensures
        fvs(r@) == host_exe_findings(*st, rs@),
{
    if st.is32() {
        return none_found();
    }
    match reshade_host_exe(rs) {
        Some(loaded) => {
            let exe = to_chars(st.exe.as_str());
            match file_name_exec(exe.as_slice()) {
                Some(n) => {
                    let lc = to_chars(loaded.as_str());
                    let a = to_lower(n.as_slice());
                    let b = to_lower(lc.as_slice());
                    if !chars_eq(a.as_slice(), b.as_slice()) {
                        let mut t = text_of(advice::OTHER_EXE_LOADED_0);
                        push_str(&mut t, loaded.as_str());
                        push_str(&mut t, advice::OTHER_EXE_LOADED_1);
                        push_chars(&mut t, n.as_slice());
                        push_str(&mut t, advice::OTHER_EXE_LOADED_2);
                        push_str(&mut t, loaded.as_str());
                        push_str(&mut t, advice::OTHER_EXE_LOADED_3);
                        single(warn(t))
                    } else {
                        none_found()
                    }
                },
                None => none_found(),
            }
        },
        None => none_found(),
    }
}

fn redist_text_exec(ev: &Evidence) -> (r: String)
    ensures
        r@ == redist_text(*ev),
{
    match &ev.agility_redist {
        Some(rd) => {
            let mut t = text_of(advice::REDIST_IN_FORCE_0);
            push_str(&mut t, rd.path.as_str());
            push_str(&mut t, advice::REDIST_IN_FORCE_1);
            match &rd.version {
                Some(v) => push_str(&mut t, v.as_str()),
                None => push_str(&mut t, "unknown"),
            }
            push_str(&mut t, advice::REDIST_IN_FORCE_2);
            t
        },
        None => text_of(advice::REDIST_MISSING),
    }
}

fn bridge_section(ev: &Evidence) -> (r: Vec<Finding>)
    ensures
        fvs(r@) == bridge_findings(*ev),
{
    match &ev.bridge_log {
        Some(bl) => {
            let bc = to_chars(bl.as_str());
            let ls = lines_exec(bc.as_slice());
            let mut out = match last_line_exec(&ls, &pats1("stopped:"), &pats0(), &pats0()) {
                Some(l) => single(
                    bad(cat_chars(text_of(advice::BRIDGE_STOPPED_0), trim_exec(l.as_slice()).as_slice())),
                ),
                None => none_found(),
            };
            let more = match first_line_exec(
                &ls,
                &pats1("D3D12CreateDevice failed 0x887E0003"),
                &pats0(),
                &pats0(),
            ) {
                Some(l) => {
                    let t = from_chars(trim_exec(l.as_slice()).as_slice());
                    let t = cat(t, advice::INVALID_REDIST_1);
                    let w = redist_text_exec(ev);
                    single(bad(cat(t, w.as_str())))
                },
                None => if contains_str(bc.as_slice(), "frames:") && !contains_str(
                    bc.as_slice(),
                    "session failed",
                ) {
                    single(ok(text_of(advice::BRIDGE_DELIVERING)))
                } else {
                    none_found()
                },
            };
            add_all(&mut out, more);
            out
        },
        None => none_found(),
    }
}

fn feed_start_section(fd: &[char], ls: &Vec<Vec<char>>) -> (r: Vec<Finding>)
    requires
        views(ls@) == lines(fd@),
    ensures
        fvs(r@) == feed_start_findings(fd@),
{
    let last_effects = match last_line_exec(ls, &pats1("[feed] effects:"), &pats0(), &pats0()) {
        Some(l) => l,
        None => Vec::new(),
    };
    let mut out = none_found();
    if contains_str(fd, "feature ready") {
        push_finding(&mut out, ok(text_of(advice::FEED_FEATURE_READY)));
    }
    if contains_str(fd, "frame") && contains_str(fd, "delivered") {
        push_finding(&mut out, ok(text_of(advice::FRAMES_DELIVERED)));
    }
    if contains_str(fd, "technique MISSING") && !contains_str(fd, "technique found") {
        push_finding(&mut out, bad(text_of(advice::FEED_FX_NOT_COMPILING)));
    }
    if contains_str(last_effects.as_slice(), "-> none (not installed)") {
        push_finding(&mut out, bad(text_of(advice::MV_PROVIDER_OFF)));
    }
    proof {
        assert(fvs(out@) =~= feed_start_findings(fd@));
    }
    out
}

fn host_section(st: &GameStatus, ev: &Evidence) -> (r: Vec<Finding>)
    ensures
        fvs(r@) == host_findings(*st, *ev),
{
    match &ev.host_log {
        Some(hl) => {
            let hc = to_chars(hl.as_str());
            let mut out = if contains_str(hc.as_slice(), "feature ready") {
                single(ok(text_of(advice::HOST_FEATURE_READY)))
            } else {
                none_found()
            };
            let more = ngx_init_failure_for(hc.as_slice(), ev, ev.helper_high_performance);
            add_all(&mut out, more);
            out
        },
        None => if st.is32() {
            single(warn(text_of(advice::NO_HOST_LOG)))
        } else {
            none_found()
        },
    }
}

fn word_after_exec(ws: &Vec<Vec<char>>, p: &str) -> (r: Option<Vec<char>>)
    ensures
        match r {
            Some(w) => word_after(views(ws@), p@) == Some(w@),
            None => word_after(views(ws@), p@) is None,
        },
{
    let ghost vs = views(ws@);
    let mut i: usize = 0;
    assert(vs.skip(0) =~= vs);
    while i < ws.len()
        invariant
            i <= ws@.len(),
            vs == views(ws@),
            word_after(vs.skip(i as int), p@) == word_after(vs, p@),
        decreases ws@.len() - i,
    {
        assert(vs.skip(i as int)[0] == ws@[i as int]@);
        assert(vs.skip(i as int).drop_first() =~= vs.skip(i + 1));
        if starts_with_str(ws[i].as_slice(), p) {
            if i + 1 < ws.len() {
                assert(vs.skip(i as int)[1] == ws@[i + 1]@);
                return Some(copy_words(ws, i + 1));
            } else {
                return None;
            }
        }
        i = i + 1;
    }
    assert(vs.skip(i as int) =~= Seq::<Seq<char>>::empty());
    None
}

fn copy_words(ws: &Vec<Vec<char>>, i: usize) -> (r: Vec<char>)
    requires
        i < ws@.len(),
    ensures
        r@ == ws@[i as int]@,
{
    crate::text::copy_range(ws[i].as_slice(), 0, ws[i].len())
}

fn feed_version_exec(fd: &[char], ls: &Vec<Vec<char>>) -> (r: Option<Vec<char>>)
    requires
        views(ls@) == lines(fd@),
    ensures
        match r {
            Some(v) => feed_version(fd@) == Some(v@),
            None => feed_version(fd@) is None,
        },
{
    if ls.len() == 0 {
        return None;
    }
    assert(views(ls@)[0] == ls@[0]@);
    let ws = words_exec(ls[0].as_slice());
    match word_after_exec(&ws, "dlss5-feed") {
        Some(t) => if t.len() > 0 && ('0' <= t[0] && t[0] <= '9') {
            Some(t)
        } else {
            None
        },
        None => None,
    }
}

fn version_section(fd: &[char], ls: &Vec<Vec<char>>) -> (r: Vec<Finding>)
    requires
        views(ls@) == lines(fd@),
    ensures
        fvs(r@) == version_findings(fd@),
{
    match feed_version_exec(fd, ls) {
        Some(v) => {
            let vs = from_chars(v.as_slice());
            let a = version_key(vs.as_str());
            let b = version_key(CURRENT_FEEDER);
            if lex_lt_exec(&a, &b) {
                let mut t = text_of(advice::FEEDER_OLD_0);
                push_chars(&mut t, v.as_slice());
                push_str(&mut t, advice::FEEDER_OLD_1);
                push_str(&mut t, CURRENT_FEEDER);
                push_str(&mut t, advice::FEEDER_OLD_2);
                single(warn(t))
            } else {
                none_found()
            }
        },
        None => none_found(),
    }
}

fn marker_tag_exec(st: &GameStatus) -> (r: Vec<char>)
    ensures
        r@ == marker_tag(*st),
{
    match &st.dlss5_marker {
        Some(t) => {
            let tc = to_chars(t.as_str());
            trim_exec(tc.as_slice())
        },
        None => Vec::new(),
    }
}

fn feed_middle_section(st: &GameStatus, ev: &Evidence, fd: &[char], ls: &Vec<Vec<char>>) -> (r:
    Vec<Finding>)
    requires
        views(ls@) == lines(fd@),
    ensures
        fvs(r@) == feed_middle_findings(*st, *ev, fd@),
{
    let host: Vec<char> = match &ev.consumer_host_log {
        Some(h) => to_chars(h.as_str()),
        None => Vec::new(),
    };
    let mut out = none_found();
    if contains_str(fd, "MV probe") && contains_str(fd, "0% non-zero") {
        push_finding(&mut out, bad(text_of(advice::MV_ALL_ZERO)));
    }
    if contains_str(fd, "DLSS super sampling is not available") {
        push_finding(&mut out, bad(text_of(advice::DLSS_UNAVAILABLE)));
    }
    let hls = lines_exec(host.as_slice());
    let mut both: Vec<Vec<char>> = Vec::new();
    let mut i: usize = 0;
    while i < ls.len()
        invariant
            i <= ls@.len(),
            views(both@) == views(ls@).take(i as int),
        decreases ls@.len() - i,
    {
        let ghost before = views(both@);
        both.push(copy_words(ls, i));
        assert(views(both@) =~= before.push(ls@[i as int]@));
        assert(views(ls@).take(i + 1) =~= views(ls@).take(i as int).push(ls@[i as int]@));
        i = i + 1;
    }
    let mut j: usize = 0;
    assert(views(ls@).take(ls@.len() as int) =~= views(ls@));
    while j < hls.len()
        invariant
            j <= hls@.len(),
            views(both@) == views(ls@) + views(hls@).take(j as int),
        decreases hls@.len() - j,
    {
        let ghost before = views(both@);
        both.push(copy_words(&hls, j));
        assert(views(both@) =~= before.push(hls@[j as int]@));
        assert(views(hls@).take(j + 1) =~= views(hls@).take(j as int).push(hls@[j as int]@));
        j = j + 1;
    }
    assert(views(hls@).take(hls@.len() as int) =~= views(hls@));
    match first_line_exec(&both, &pats2("speaks protocol v", "this host v"), &pats0(), &pats0()) {
        Some(l) => {
            let mut t = text_of(advice::HALVES_DIFFER_0);
            push_chars(&mut t, trim_exec(l.as_slice()).as_slice());
            push_str(&mut t, advice::HALVES_DIFFER_1);
            push_finding(&mut out, bad(t));
        },
        None => {},
    }
    let measured = contains_str(fd, "is a combination measured to fail") || match &ev.consumer_host_log {
        Some(h) => {
            let hc = to_chars(h.as_str());
            contains_str(hc.as_slice(), "is a combination measured to fail")
        },
        None => false,
    };
    if measured {
        let tag = marker_tag_exec(st);
        let classic = to_chars(RENODX_CLASSIC_TAG);
        if chars_eq(tag.as_slice(), classic.as_slice()) {
            let mut t = text_of(advice::MEASURED_FAIL_CLASSIC_0);
            push_chars(&mut t, tag.as_slice());
            push_str(&mut t, advice::MEASURED_FAIL_CLASSIC_1);
            push_finding(&mut out, ok(t));
        } else {
            let mut t = text_of(advice::MEASURED_FAIL_PIN_0);
            push_str(&mut t, RENODX_CLASSIC_TAG);
            push_str(&mut t, advice::MEASURED_FAIL_PIN_1);
            push_finding(&mut out, warn(t));
        }
    }
    proof {
        assert(fvs(out@) =~= feed_middle_findings(*st, *ev, fd@));
    }
    out
}

fn fault_stack_exec(fd: &[char], ls: &Vec<Vec<char>>) -> (r: Vec<char>)
    requires
        views(ls@) == lines(fd@),
    ensures
        r@ == fault_stack(fd@),
{
    match first_line_exec(ls, &pats1("CreateFeature fault stack"), &pats0(), &pats0()) {
        Some(l) => match second_piece_exec(l.as_slice(), "(innermost first):") {
            Some(p) => trim_exec(p.as_slice()),
            None => trim_exec(l.as_slice()),
        },
        None => Vec::new(),
    }
}

fn crash_text_exec(fd: &[char], ls: &Vec<Vec<char>>, wine: bool) -> (r: String)
    requires
        views(ls@) == lines(fd@),
    ensures
        r@ == crash_text(fd@, wine),
{
    let stack = fault_stack_exec(fd, ls);
    let mut t = text_of(advice::CREATE_FAULTED);
    if stack.len() > 0 {
        push_str(&mut t, advice::FAULT_STACK_0);
        push_chars(&mut t, stack.as_slice());
        push_str(&mut t, advice::FAULT_STACK_1);
    } else {
        assert(t@ + Seq::<char>::empty() =~= t@);
    }
    let ghost mid = t@;
    if contains_str(fd, "two copies of the DLSS NGX module are loaded") {
        if wine || contains_str(fd, "driver 999.99") {
            push_str(&mut t, advice::NVNGX_ADVICE_PROTON);
        } else {
            push_str(&mut t, advice::NVNGX_ADVICE_WINDOWS);
        }
    } else {
        assert(t@ + Seq::<char>::empty() =~= t@);
    }
    t
}

fn work_resolution_pct_exec(ls: &Vec<Vec<char>>, fd: &[char]) -> (r: Vec<char>)
    requires
        views(ls@) == lines(fd@),
    ensures
        r@ == work_resolution_pct(fd@),
{
    match first_line_exec(ls, &pats1("work resolution ("), &pats0(), &pats0()) {
        Some(l) => match second_piece_exec(l.as_slice(), "work resolution (") {
            Some(r) => before_exec(r.as_slice(), ")"),
            None => to_chars("below 100%"),
        },
        None => to_chars("below 100%"),
    }
}

fn feed_end_section(fd: &[char], ls: &Vec<Vec<char>>, wine: bool) -> (r: Vec<Finding>)
    requires
        views(ls@) == lines(fd@),
    ensures
        fvs(r@) == feed_end_findings(fd@, wine),
{
    let mut out = none_found();
    if contains_str(fd, "CreateFeature raised 0xC0000005") {
        push_finding(&mut out, bad(crash_text_exec(fd, ls, wine)));
    }
    if contains_str(fd, "work-resolution staging SRV failed") {
        let pct = work_resolution_pct_exec(ls, fd);
        let mut t = text_of(advice::WORK_RES_FAILED_0);
        push_chars(&mut t, pct.as_slice());
        push_str(&mut t, advice::WORK_RES_FAILED_1);
        push_finding(&mut out, bad(t));
    }
    if contains_str(fd, "stopped:") {
        let line = match last_line_exec(ls, &pats1("stopped:"), &pats0(), &pats0()) {
            Some(l) => l,
            None => Vec::new(),
        };
        let t = cat_chars(text_of(advice::FEED_STOPPED_0), trim_exec(line.as_slice()).as_slice());
        push_finding(&mut out, bad(t));
    }
    if contains_str(fd, "CRASH RECORDED") {
        push_finding(&mut out, warn(text_of(advice::FEED_CRASH)));
    }
    proof {
        assert(fvs(out@) =~= feed_end_findings(fd@, wine));
    }
    out
}

fn feeder_section(st: &GameStatus, ev: &Evidence, wine: bool) -> (r: Vec<Finding>)
    requires
        wine == wine_hlsl(*ev),
    ensures
        fvs(r@) == feeder_findings(*st, *ev),
{
    if st.mode != Mode::Feeder {
        return none_found();
    }
    match &ev.feed_log {
        None => single(bad(text_of(advice::NO_FEED_LOG))),
        Some(fdl) => {
            let fd = to_chars(fdl.as_str());
            let ls = lines_exec(fd.as_slice());
            let mut out = feed_start_section(fd.as_slice(), &ls);
            add_all(&mut out, ngx_init_failure_for(fd.as_slice(), ev, ev.exe_high_performance));
            add_all(&mut out, host_section(st, ev));
            add_all(&mut out, version_section(fd.as_slice(), &ls));
            add_all(&mut out, feed_middle_section(st, ev, fd.as_slice(), &ls));
            add_all(&mut out, feed_end_section(fd.as_slice(), &ls, wine));
            out
        },
    }
}

fn upstream_outcome(rs: &[char], ls: &Vec<Vec<char>>) -> (r: Finding)
    requires
        views(ls@) == lines(rs@),
    ensures
        fv(r) == spec_upstream_outcome(rs@),
{
    if first_line_exec(ls, &pats2("2c: NR Evaluate(", "-> 0x00000001"), &pats0(), &pats0()).is_some() {
        return ok(text_of(advice::UPSTREAM_RAN));
    }
    match first_line_exec(ls, &pats2("NR Evaluate(", "FAILED"), &pats0(), &pats0()) {
        Some(l) => {
            return bad(
                cat_chars(text_of(advice::UPSTREAM_EVAL_FAILS_0), trim_exec(l.as_slice()).as_slice()),
            );
        },
        None => {},
    }
    match first_line_exec(ls, &pats1("SNIPPET CreateFeature(18"), &pats0(), &pats1("-> 0x00000001")) {
        Some(l) => {
            return bad(
                cat_chars(
                    text_of(advice::UPSTREAM_CREATE_FAILS_0),
                    trim_exec(l.as_slice()).as_slice(),
                ),
            );
        },
        None => {},
    }
    if contains_str(rs, "2b: core exports missing") {
        bad(text_of(advice::UPSTREAM_WRONG_MODEL))
    } else if contains_str(rs, "[NRPRE] eval feat=") {
        warn(text_of(advice::UPSTREAM_NO_NETWORK))
    } else if contains_str(rs, "[NRPRE] CreateFeature id=") {
        warn(text_of(advice::UPSTREAM_NO_FRAME))
    } else {
        bad(text_of(advice::UPSTREAM_NO_NGX_CALL))
    }
}

/// What Neural Upstream (`nvngx.dll.addon64`, "DLSS5 NR Pre-Upscale") wrote
/// to ReShade.log, read against its own source: the game's DLSS is logged as
/// `CreateFeature id=1`, every DLSS evaluate as `eval feat=`, and the add-on's
/// own network as `2b: SNIPPET CreateFeature(18, …)` followed by
/// `2c: NR Evaluate(…) -> 0x00000001` once it ran.
pub fn upstream_findings(rs: &str) -> (r: Vec<Finding>)
    ensures
        fvs(r@) == spec_upstream_findings(rs@),
{
    let rc = to_chars(rs);
    let ls = lines_exec(rc.as_slice());
    match first_line_exec(&ls, &pats2("Failed to load add-on", "nvngx.dll.addon64"), &pats0(), &pats0()) {
        Some(l) => {
            let mut t = text_of(advice::UPSTREAM_REFUSED_0);
            push_chars(&mut t, error_code_exec(l.as_slice()).as_slice());
            push_str(&mut t, advice::UPSTREAM_REFUSED_1);
            single(bad(t))
        },
        None => {
            if !(contains_str(rc.as_slice(), "[NRPRE] addon registered") || contains_str(
                rc.as_slice(),
                "DLSS5 NR Pre-Upscale",
            )) {
                return single(bad(text_of(advice::UPSTREAM_NEVER_REGISTERED)));
            }
            let mut out = single(ok(text_of(advice::UPSTREAM_REGISTERED)));
            if contains_str(rc.as_slice(), "[NRPRE] no NGX evaluate could be hooked") {
                push_finding(&mut out, bad(text_of(advice::UPSTREAM_NOT_HOOKED)));
            } else {
                push_finding(&mut out, upstream_outcome(rc.as_slice(), &ls));
            }
            out
        },
    }
}

/// Findings for a game folder, in reading order.
pub fn diagnose(st: &GameStatus, ev: &Evidence) -> (r: Vec<Finding>)
    ensures
        fvs(r@) == spec_diagnose(*st, *ev),
{
    let rs_chars = opt_chars(&ev.reshade_log);
    let wine = match &rs_chars {
        Some(rc) => contains_str(rc.as_slice(), "not yet implemented feature"),
        None => false,
    };
    let mut out = compiler_section(ev, wine);
    add_all(&mut out, dgvoodoo_section(ev));
    add_all(&mut out, model_section(ev));
    add_all(&mut out, proxy_section(st, ev));
    let rc = match rs_chars {
        Some(rc) => rc,
        None => {
            if st.is32() {
                push_finding(&mut out, bad(text_of(advice::NO_HOST_RESHADE_LOG)));
            } else {
                push_finding(&mut out, bad(text_of(advice::NO_RESHADE_LOG)));
            }
            return out;
        },
    };
    let rs_str = match &ev.reshade_log {
        Some(s) => s,
        None => {
            return out;
        },
    };
    let ls = lines_exec(rc.as_slice());
    if contains_str(rc.as_slice(), "Initializing crosire's ReShade") {
        push_finding(&mut out, ok(text_of(advice::RESHADE_LOADED)));
    }
    if st.upstream {
        add_all(&mut out, upstream_findings(rs_str.as_str()));
        return out;
    }
    add_all(&mut out, addon_section(st, rc.as_slice(), &ls));
    add_all(&mut out, toggle_section(rc.as_slice()));
    add_all(&mut out, evaluation_section(st, rc.as_slice()));
    add_all(&mut out, wine_section(rc.as_slice(), &ls));
    add_all(&mut out, compiler_error_section(&ls, rc.as_slice()));
    add_all(&mut out, host_exe_section(st, rs_str.as_str()));
    add_all(&mut out, bridge_section(ev));
    add_all(&mut out, feeder_section(st, ev, wine));
    out
}


// ───────────────────────────── laws ─────────────────────────────

/// Without a ReShade log nothing else about the session can be said: the
/// report ends with the finding that ReShade never loaded, after the
/// findings about the folder alone; with nothing wrong in the folder it is
/// the only finding.
pub proof fn law_missing_reshade_log_is_fatal(st: GameStatus, ev: Evidence)
    requires
        ev.reshade_log is None,
    ensures
        spec_diagnose(st, ev).len() >= 1,
        spec_diagnose(st, ev).last() == no_reshade_log(st),
        spec_diagnose(st, ev).last().0 == Level::Bad,
        (!ev.compiler_present && ev.dgvoodoo_conf is None && ev.model is None && (st.bitness != 32
            || ev.game_side_reshade)) ==> spec_diagnose(st, ev) == seq![no_reshade_log(st)],
{
    if !ev.compiler_present && ev.dgvoodoo_conf is None && ev.model is None && (st.bitness != 32
        || ev.game_side_reshade) {
        assert(spec_diagnose(st, ev) =~= seq![no_reshade_log(st)]);
    }
}

/// Neural Upstream's log is read by its own lines: what the report says
/// after ReShade loaded is what Upstream's lines say, one or two findings,
/// and nothing about the RenoDX add-on or the Feeder.
pub proof fn law_upstream_is_read_by_its_own_lines(st: GameStatus, ev: Evidence)
    requires
        st.upstream,
        ev.reshade_log is Some,
    ensures
        ({
            let rs = ev.reshade_log->0@;
            let pre = compiler_findings(ev) + dgvoodoo_findings(ev) + model_findings(ev)
                + proxy_findings(st, ev) + loaded_findings(rs);
            &&& spec_diagnose(st, ev) == pre + spec_upstream_findings(rs)
            &&& 1 <= spec_upstream_findings(rs).len() <= 2
        }),
{
}

/// A game with DLSS of its own gets no finding about the Feeder's logs.
pub proof fn law_native_game_has_no_feeder_findings(st: GameStatus, ev: Evidence)
    requires
        st.mode == Mode::Native,
    ensures
        feeder_findings(st, ev) == Seq::<FindingView>::empty(),
{
}

/// Under Wine/Proton the compiler copy beside the exe draws no warning from
/// the folder check: it is what makes the effects compile there.
pub proof fn law_wine_keeps_the_shipped_compiler(ev: Evidence)
    requires
        wine_hlsl(ev),
    ensures
        compiler_findings(ev) == Seq::<FindingView>::empty(),
{
}

/// Only the last effects line of a feed log speaks for the motion-vector
/// provider (the feed findings read `last_effects`): lines that come before
/// a later effects line do not change it.
pub proof fn law_last_effects_line_decides(fd: Seq<char>, earlier: Seq<Seq<char>>, later: Seq<Seq<char>>)
    requires
        lines(fd) == earlier + later,
        last_line(later, seq!["[feed] effects:"@], seq![], seq![]) is Some,
    ensures
        last_effects(fd) == last_line(later, seq!["[feed] effects:"@], seq![], seq![])->0,
{
    lemma_last_line_append(earlier, later, seq!["[feed] effects:"@], seq![], seq![]);
}

/// The host's measured-to-fail warning on an install already on the
/// classic build is reassurance, not a warning; on any other build it says
/// to re-run Install, naming the classic build.
pub proof fn law_measured_fail_reads_the_recorded_tag(st: GameStatus, ev: Evidence, fd: Seq<char>)
    requires
        contains(fd, "is a combination measured to fail"@),
    ensures
        marker_tag(st) == RENODX_CLASSIC_TAG@ ==> feed_middle_findings(st, ev, fd).last() == (
            Level::Okay,
            advice::MEASURED_FAIL_CLASSIC_0@ + marker_tag(st) + advice::MEASURED_FAIL_CLASSIC_1@,
        ),
        marker_tag(st) != RENODX_CLASSIC_TAG@ ==> feed_middle_findings(st, ev, fd).last() == (
            Level::Warn,
            advice::MEASURED_FAIL_PIN_0@ + RENODX_CLASSIC_TAG@ + advice::MEASURED_FAIL_PIN_1@,
        ),
{
}

/// A feed log that reports the feed technique found never draws the
/// "DLSS5_Feed.fx is not compiling" finding: the only Bad finding made from
/// the start of such a log is the motion-vector provider's. A log that
/// reports the technique missing and never found does draw it.
pub proof fn law_fx_not_compiling_only_if_never_found(fd: Seq<char>)
    ensures
        contains(fd, "technique found"@) ==> forall|i: int|
            0 <= i < feed_start_findings(fd).len() && (#[trigger] feed_start_findings(fd)[i]).0
                == Level::Bad ==> feed_start_findings(fd)[i].1 == advice::MV_PROVIDER_OFF@,
        contains(fd, "technique MISSING"@) && !contains(fd, "technique found"@)
            ==> feed_start_findings(fd).contains((Level::Bad, advice::FEED_FX_NOT_COMPILING@)),
{
    let a: Seq<FindingView> = if contains(fd, "feature ready"@) {
        one(Level::Okay, advice::FEED_FEATURE_READY@)
    } else {
        nothing()
    };
    let b: Seq<FindingView> = if contains(fd, "frame"@) && contains(fd, "delivered"@) {
        one(Level::Okay, advice::FRAMES_DELIVERED@)
    } else {
        nothing()
    };
    let c: Seq<FindingView> = if contains(fd, "technique MISSING"@) && !contains(
        fd,
        "technique found"@,
    ) {
        one(Level::Bad, advice::FEED_FX_NOT_COMPILING@)
    } else {
        nothing()
    };
    let d: Seq<FindingView> = if contains(last_effects(fd), "-> none (not installed)"@) {
        one(Level::Bad, advice::MV_PROVIDER_OFF@)
    } else {
        nothing()
    };
    let f = feed_start_findings(fd);
    assert(f == a + b + c + d);
    if contains(fd, "technique found"@) {
        assert(c =~= nothing());
        assert forall|i: int| 0 <= i < f.len() && (#[trigger] f[i]).0 == Level::Bad implies f[i].1
            == advice::MV_PROVIDER_OFF@ by {
            if i < a.len() {
                assert(f[i] == a[i]);
            } else if i < a.len() + b.len() {
                assert(f[i] == b[i - a.len()]);
            } else {
                assert(f[i] == d[i - a.len() - b.len()]);
            }
        }
    }
    if contains(fd, "technique MISSING"@) && !contains(fd, "technique found"@) {
        assert(f[(a.len() + b.len()) as int] == (Level::Bad, advice::FEED_FX_NOT_COMPILING@));
    }
}

/// What Neural Upstream's log says when the add-on registered and was
/// hooked, but its network neither ran nor failed (no `2c: NR Evaluate(`
/// success line, no `NR Evaluate(` ... `FAILED` line, no failing
/// `SNIPPET CreateFeature(18` line, no `2b: core exports missing`): with the
/// game's frames going through the add-on (`[NRPRE] eval feat=`), the
/// network was never created, whether or not the game's own create was also
/// logged; with only the game's create logged, no frame was rendered.
pub proof fn law_upstream_frames_without_network(rs: Seq<char>)
    requires
        forall|i: int|
            0 <= i < lines(rs).len() ==> !(contains(#[trigger] lines(rs)[i], "Failed to load add-on"@)
                && contains(lines(rs)[i], "nvngx.dll.addon64"@)),
        contains(rs, "[NRPRE] addon registered"@),
        !contains(rs, "[NRPRE] no NGX evaluate could be hooked"@),
        forall|i: int|
            0 <= i < lines(rs).len() ==> !(contains(#[trigger] lines(rs)[i], "2c: NR Evaluate("@)
                && contains(lines(rs)[i], "-> 0x00000001"@)),
        forall|i: int|
            0 <= i < lines(rs).len() ==> !(contains(#[trigger] lines(rs)[i], "NR Evaluate("@)
                && contains(lines(rs)[i], "FAILED"@)),
        forall|i: int|
            0 <= i < lines(rs).len() ==> !(contains(
                #[trigger] lines(rs)[i],
                "SNIPPET CreateFeature(18"@,
            ) && !contains(lines(rs)[i], "-> 0x00000001"@)),
        !contains(rs, "2b: core exports missing"@),
    ensures
        contains(rs, "[NRPRE] eval feat="@) ==> spec_upstream_findings(rs) == seq![
            (Level::Okay, advice::UPSTREAM_REGISTERED@),
            (Level::Warn, advice::UPSTREAM_NO_NETWORK@),
        ],
        !contains(rs, "[NRPRE] eval feat="@) && contains(rs, "[NRPRE] CreateFeature id="@)
            ==> spec_upstream_findings(rs) == seq![
            (Level::Okay, advice::UPSTREAM_REGISTERED@),
            (Level::Warn, advice::UPSTREAM_NO_FRAME@),
        ],
{
    let ls = lines(rs);
    let e: Seq<Seq<char>> = seq![];
    let refused = seq!["Failed to load add-on"@, "nvngx.dll.addon64"@];
    assert forall|i: int| 0 <= i < ls.len() implies !line_ok(#[trigger] ls[i], refused, e, e) by {
        if line_ok(ls[i], refused, e, e) {
            assert(contains(ls[i], refused[0]));
            assert(contains(ls[i], refused[1]));
        }
    }
    lemma_first_line_none(ls, refused, e, e);
    let ran = seq!["2c: NR Evaluate("@, "-> 0x00000001"@];
    assert forall|i: int| 0 <= i < ls.len() implies !line_ok(#[trigger] ls[i], ran, e, e) by {
        if line_ok(ls[i], ran, e, e) {
            assert(contains(ls[i], ran[0]));
            assert(contains(ls[i], ran[1]));
        }
    }
    lemma_first_line_none(ls, ran, e, e);
    let failed = seq!["NR Evaluate("@, "FAILED"@];
    assert forall|i: int| 0 <= i < ls.len() implies !line_ok(#[trigger] ls[i], failed, e, e) by {
        if line_ok(ls[i], failed, e, e) {
            assert(contains(ls[i], failed[0]));
            assert(contains(ls[i], failed[1]));
        }
    }
    lemma_first_line_none(ls, failed, e, e);
    let snippet = seq!["SNIPPET CreateFeature(18"@];
    let okay = seq!["-> 0x00000001"@];
    assert forall|i: int| 0 <= i < ls.len() implies !line_ok(#[trigger] ls[i], snippet, e, okay) by {
        if line_ok(ls[i], snippet, e, okay) {
            assert(contains(ls[i], snippet[0]));
            assert(!contains(ls[i], okay[0]));
        }
    }
    lemma_first_line_none(ls, snippet, e, okay);
}

} // verus!
