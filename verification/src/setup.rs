//! The setup a game gets without anyone choosing one, and what to try next.
//!
//! Every game has a ladder: the best setup first, then what to fall back to
//! if it does not work there. A game with nothing installed gets the top
//! rung. A game that is already set up is on the rung that matches what is in
//! its folder, so Install and Update refresh what is there instead of moving
//! it somewhere else. "Try the next setup" is the only thing that moves a game
//! down its ladder.
//!
//! The order: ShortFuse's add-on first for games that ship their own DLSS;
//! then the RenoDX DLSS 5 add-on, newest stable build, then 4.70, then 4.55;
//! the OptiScaler engine last. Games with a known answer start further down
//! (the profiles below).

use vstd::prelude::*;
use crate::game::{api_label, Api, GameStatus, Mode};
use crate::text::{
    file_name, file_name_exec, join, join_exec, lower_seq, to_chars, to_lower, trim,
    trim_exec, trim_start_matches, trim_start_matches_exec, views, chars_eq, from_chars,
    push_str,
};

verus! {

/// The engine a setup installs.
#[derive(Clone, Copy, Debug, PartialEq, Eq, Structural)]
pub enum Engine {
    ReShade,
    Opti,
    Aio,
}

/// The neural consumer a setup installs.
#[derive(Clone, Copy, Debug, PartialEq, Eq, Structural)]
pub enum Consumer {
    ShortFuse,
    Dlss5,
}

/// A pinned DLSS 5 add-on build.
#[derive(Clone, Copy, Debug, PartialEq, Eq, Structural)]
pub enum AddonBuild {
    /// 4.70: the build every reporter had working when 5.2.1 broke four
    /// games, and the last one with Enable Upscaling.
    Steady,
    /// 4.55: the build the Feeder's host names as passing where newer ones
    /// fault in the driver.
    Classic,
}

/// The prefix every DLSS 5 add-on build tag carries.
pub const DLSS5_PREFIX: &'static str = "renodx-dlss5-";

/// The tag of the 4.70 build.
pub const RENODX_STEADY_TAG: &'static str = "renodx-dlss5-4.70";

/// The tag of the 4.55 build.
pub const RENODX_CLASSIC_TAG: &'static str = "renodx-dlss5-4.55";

pub open spec fn build_tag(b: AddonBuild) -> Seq<char> {
    match b {
        AddonBuild::Steady => RENODX_STEADY_TAG@,
        AddonBuild::Classic => RENODX_CLASSIC_TAG@,
    }
}

impl AddonBuild {
    /// The build's tag.
    pub fn tag(&self) -> (r: &'static str)
        ensures
            r@ == build_tag(*self),
    {
        match self {
            AddonBuild::Steady => RENODX_STEADY_TAG,
            AddonBuild::Classic => RENODX_CLASSIC_TAG,
        }
    }
}

#[derive(Clone, Copy, Debug, PartialEq, Eq, Structural)]
pub struct Setup {
    pub engine: Engine,
    pub consumer: Consumer,
    /// A pinned DLSS 5 add-on build; `None` is the newest stable one.
    pub addon_tag: Option<AddonBuild>,
}

/// ShortFuse's add-on on ReShade.
#[verifier::allow_in_spec]
pub fn shortfuse() -> Setup
    returns
        (Setup { engine: Engine::ReShade, consumer: Consumer::ShortFuse, addon_tag: None }),
{
    Setup { engine: Engine::ReShade, consumer: Consumer::ShortFuse, addon_tag: None }
}

/// The DLSS 5 add-on on ReShade, newest stable build.
#[verifier::allow_in_spec]
pub fn dlss5_newest() -> Setup
    returns
        (Setup { engine: Engine::ReShade, consumer: Consumer::Dlss5, addon_tag: None }),
{
    Setup { engine: Engine::ReShade, consumer: Consumer::Dlss5, addon_tag: None }
}

/// The DLSS 5 add-on on ReShade, build 4.70.
#[verifier::allow_in_spec]
pub fn dlss5_steady() -> Setup
    returns
        (Setup {
            engine: Engine::ReShade,
            consumer: Consumer::Dlss5,
            addon_tag: Some(AddonBuild::Steady),
        }),
{
    Setup { engine: Engine::ReShade, consumer: Consumer::Dlss5, addon_tag: Some(AddonBuild::Steady) }
}

/// The DLSS 5 add-on on ReShade, build 4.55.
#[verifier::allow_in_spec]
pub fn dlss5_classic() -> Setup
    returns
        (Setup {
            engine: Engine::ReShade,
            consumer: Consumer::Dlss5,
            addon_tag: Some(AddonBuild::Classic),
        }),
{
    Setup {
        engine: Engine::ReShade,
        consumer: Consumer::Dlss5,
        addon_tag: Some(AddonBuild::Classic),
    }
}

/// The OptiScaler engine with its own neural pass.
#[verifier::allow_in_spec]
pub fn optiscaler() -> Setup
    returns
        (Setup { engine: Engine::Opti, consumer: Consumer::Dlss5, addon_tag: None }),
{
    Setup { engine: Engine::Opti, consumer: Consumer::Dlss5, addon_tag: None }
}

/// Cyberpunk 2077: the ReShade route churned its feature and changed
/// nothing; the OptiScaler engine worked for the reporter.
pub const CYBERPUNK_EXE: &'static str = "cyberpunk2077.exe";

pub const CYBERPUNK_WHY: &'static str = "Cyberpunk 2077 works on the OptiScaler engine (#95)";

/// Dragon's Dogma 2: the newer DLSS 5 add-on crashed at the first evaluate
/// where the older builds ran.
pub const DD2_EXE: &'static str = "dd2.exe";

pub const DD2_WHY: &'static str = "Dragon's Dogma 2 crashed on newer DLSS 5 add-on builds (#96)";

// ───────────────────────────── the model ─────────────────────────────

/// Which profile, if any, the game's exe name (in lower case) selects.
pub open spec fn spec_profile(st: GameStatus) -> Option<int> {
    match file_name(st.exe@) {
        Some(n) => if lower_seq(n) == CYBERPUNK_EXE@ {
            Some(0)
        } else if lower_seq(n) == DD2_EXE@ {
            Some(1)
        } else {
            None
        },
        None => None,
    }
}

/// A profile's order, as written.
pub open spec fn profile_list(p: int) -> Seq<Setup> {
    if p == 0 {
        seq![optiscaler(), shortfuse(), dlss5_newest(), dlss5_steady(), dlss5_classic()]
    } else {
        seq![dlss5_steady(), dlss5_classic(), shortfuse(), dlss5_newest(), optiscaler()]
    }
}

pub open spec fn profile_why(p: int) -> Seq<char> {
    if p == 0 {
        CYBERPUNK_WHY@
    } else {
        DD2_WHY@
    }
}

/// Every setup worth trying in this game, best first.
pub open spec fn spec_ladder(st: GameStatus) -> Seq<Setup> {
    match spec_profile(st) {
        Some(p) => {
            let l = profile_list(p);
            // A game already on ReShade cannot start on OptiScaler; it moves
            // to the end, still reachable.
            if st.reshade && l[0].engine == Engine::Opti {
                l.drop_first().push(l[0])
            } else {
                l
            }
        },
        None => if st.api == Api::Vulkan {
            if st.mode == Mode::Native && st.bitness != 32 {
                seq![optiscaler()]
            } else {
                Seq::empty()
            }
        } else if st.mode == Mode::Native && st.bitness != 32 {
            seq![shortfuse(), dlss5_newest(), dlss5_steady(), dlss5_classic(), optiscaler()]
        } else {
            seq![dlss5_newest(), dlss5_steady(), dlss5_classic()]
        },
    }
}

/// Neural Upstream, or the standalone AIO without OptiScaler: picked by hand
/// and never on a ladder.
pub open spec fn foreign(st: GameStatus) -> bool {
    st.upstream || (st.aio && !st.opti)
}

/// What this tool has in the game folder now, as a setup.
pub open spec fn spec_installed(st: GameStatus) -> Option<Setup> {
    if foreign(st) {
        None
    } else if st.opti {
        Some(optiscaler())
    } else if !st.reshade {
        None
    } else if st.sf && !st.dlss5_addon && st.sf_marker {
        Some(shortfuse())
    } else if st.dlss5_addon {
        Some(
            match st.dlss5_marker {
                Some(t) => if trim(t@) == RENODX_CLASSIC_TAG@ {
                    dlss5_classic()
                } else if trim(t@) == RENODX_STEADY_TAG@ {
                    dlss5_steady()
                } else {
                    dlss5_newest()
                },
                // A DLSS 5 add-on with no recorded build predates the marker,
                // from when 4.70 was the default.
                None => dlss5_steady(),
            },
        )
    } else {
        None
    }
}

/// Where `s` first stands in `l`.
pub open spec fn position(l: Seq<Setup>, s: Setup) -> Option<int>
    decreases l.len(),
{
    if l.len() == 0 {
        None
    } else if l[0] == s {
        Some(0)
    } else {
        match position(l.drop_first(), s) {
            Some(i) => Some(i + 1),
            None => None,
        }
    }
}

pub open spec fn spec_hand_chosen(st: GameStatus) -> bool {
    foreign(st) || (spec_installed(st) matches Some(s) && !spec_ladder(st).contains(s))
}

pub open spec fn spec_level(st: GameStatus) -> int {
    match spec_installed(st) {
        Some(s) => match position(spec_ladder(st), s) {
            Some(i) => i,
            None => 0,
        },
        None => 0,
    }
}

pub open spec fn spec_current(st: GameStatus) -> Option<Setup> {
    if spec_hand_chosen(st) || spec_level(st) >= spec_ladder(st).len() {
        None
    } else {
        Some(spec_ladder(st)[spec_level(st)])
    }
}

pub open spec fn spec_next(st: GameStatus) -> Option<(int, Setup)> {
    if spec_hand_chosen(st) || spec_level(st) + 1 >= spec_ladder(st).len() {
        None
    } else {
        Some((spec_level(st) + 1, spec_ladder(st)[spec_level(st) + 1]))
    }
}

/// A setup in words.
pub open spec fn label_text(s: Setup) -> Seq<char> {
    if s.engine == Engine::Opti {
        "OptiScaler with its built-in neural rendering pass"@
    } else if s.engine == Engine::Aio {
        "ReShade + standalone AIO"@
    } else if s.consumer == Consumer::ShortFuse {
        "ReShade + ShortFuse's DLSS add-on"@
    } else {
        match s.addon_tag {
            None => "ReShade + DLSS 5 add-on (newest stable build)"@,
            Some(b) => "ReShade + DLSS 5 add-on "@ + trim_start_matches(
                build_tag(b),
                DLSS5_PREFIX@,
            ),
        }
    }
}

pub open spec fn spec_hand_label(st: GameStatus) -> Option<Seq<char>> {
    if !spec_hand_chosen(st) {
        None
    } else if st.upstream {
        Some("ReShade + Neural Upstream"@)
    } else if st.aio && !st.opti {
        Some("ReShade + standalone AIO"@)
    } else {
        match spec_installed(st) {
            Some(s) => Some(label_text(s)),
            None => Some(Seq::empty()),
        }
    }
}

pub open spec fn mode_text(m: Mode) -> Seq<char> {
    match m {
        Mode::Native => "the game has its own DLSS"@,
        Mode::Feeder => "the game has no DLSS of its own (the Feeder supplies it)"@,
    }
}

/// The facts the ladder was built from, in order.
pub open spec fn reason_parts(st: GameStatus) -> Seq<Seq<char>> {
    let a: Seq<Seq<char>> = match spec_profile(st) {
        Some(p) => seq![profile_why(p)],
        None => Seq::empty(),
    };
    let b = a.push(mode_text(st.mode)).push(api_label(st.api));
    let c = if st.bitness == 32 {
        b.push("32-bit"@)
    } else {
        b
    };
    match st.gpu_tier {
        Some(t) => c.push(t@),
        None => c,
    }
}

pub open spec fn consumer_env(c: Consumer) -> Seq<char> {
    match c {
        Consumer::ShortFuse => "sf"@,
        Consumer::Dlss5 => "dlss5"@,
    }
}

// ───────────────────────────── the code ─────────────────────────────

fn profile(st: &GameStatus) -> (r: Option<usize>)
    ensures
        match r {
            Some(p) => spec_profile(*st) == Some(p as int),
            None => spec_profile(*st) is None,
        },
{
    let exe = to_chars(st.exe.as_str());
    match file_name_exec(exe.as_slice()) {
        Some(n) => {
            let l = to_lower(n.as_slice());
            let cp = to_chars(CYBERPUNK_EXE);
            let dd = to_chars(DD2_EXE);
            if chars_eq(l.as_slice(), cp.as_slice()) {
                Some(0)
            } else if chars_eq(l.as_slice(), dd.as_slice()) {
                Some(1)
            } else {
                None
            }
        },
        None => None,
    }
}

/// Every setup worth trying in this game, best first. Empty when nothing this
/// tool offers fits (a Vulkan game without DLSS of its own).
pub fn ladder(st: &GameStatus) -> (l: Vec<Setup>)
    ensures
        l@ == spec_ladder(*st),
{
    match profile(st) {
        Some(p) => {
            let mut l: Vec<Setup> = if p == 0 {
                vec![optiscaler(), shortfuse(), dlss5_newest(), dlss5_steady(), dlss5_classic()]
            } else {
                vec![dlss5_steady(), dlss5_classic(), shortfuse(), dlss5_newest(), optiscaler()]
            };
            assert(l@ =~= profile_list(p as int));
            if st.reshade && l[0].engine == Engine::Opti {
                let o = l.remove(0);
                l.push(o);
                assert(l@ =~= profile_list(p as int).drop_first().push(profile_list(p as int)[0]));
            }
            l
        },
        None => {
            let native64 = st.mode == Mode::Native && st.bitness != 32;
            if st.api == Api::Vulkan {
                if native64 {
                    let l = vec![optiscaler()];
                    assert(l@ =~= seq![optiscaler()]);
                    l
                } else {
                    let l: Vec<Setup> = Vec::new();
                    assert(l@ =~= Seq::<Setup>::empty());
                    l
                }
            } else if native64 {
                let l = vec![shortfuse(), dlss5_newest(), dlss5_steady(), dlss5_classic(), optiscaler()];
                assert(l@ =~= seq![shortfuse(), dlss5_newest(), dlss5_steady(), dlss5_classic(), optiscaler()]);
                l
            } else {
                let l = vec![dlss5_newest(), dlss5_steady(), dlss5_classic()];
                assert(l@ =~= seq![dlss5_newest(), dlss5_steady(), dlss5_classic()]);
                l
            }
        },
    }
}

/// What this tool has in the game folder now, as a setup. `None` when
/// nothing of ours is there, or when it is something the ladder does not
/// carry (Neural Upstream, the standalone AIO).
pub fn installed(st: &GameStatus) -> (r: Option<Setup>)
    ensures
        r == spec_installed(*st),
{
    if st.upstream || (st.aio && !st.opti) {
        return None;
    }
    if st.opti {
        return Some(optiscaler());
    }
    if !st.reshade {
        return None;
    }
    if st.sf && !st.dlss5_addon && st.sf_marker {
        return Some(shortfuse());
    }
    if st.dlss5_addon {
        return Some(
            match &st.dlss5_marker {
                Some(t) => {
                    let tc = to_chars(t.as_str());
                    let tt = trim_exec(tc.as_slice());
                    let classic = to_chars(RENODX_CLASSIC_TAG);
                    let steady = to_chars(RENODX_STEADY_TAG);
                    if chars_eq(tt.as_slice(), classic.as_slice()) {
                        dlss5_classic()
                    } else if chars_eq(tt.as_slice(), steady.as_slice()) {
                        dlss5_steady()
                    } else {
                        dlss5_newest()
                    }
                },
                None => dlss5_steady(),
            },
        );
    }
    None
}

proof fn lemma_position(l: Seq<Setup>, s: Setup)
    ensures
        position(l, s) matches Some(i) ==> 0 <= i < l.len() && l[i] == s && (forall|j: int|
            0 <= j < i ==> l[j] != s),
        position(l, s) is None <==> !l.contains(s),
    decreases l.len(),
{
    if l.len() > 0 && l[0] != s {
        lemma_position(l.drop_first(), s);
        if position(l.drop_first(), s) is None {
            if l.contains(s) {
                let k = choose|k: int| 0 <= k < l.len() && l[k] == s;
                assert(l.drop_first()[k - 1] == s);
            }
        } else {
            assert(l.contains(s));
            let i = position(l, s)->0;
            assert forall|j: int| 0 <= j < i implies l[j] != s by {
                if j > 0 {
                    assert(l[j] == l.drop_first()[j - 1]);
                }
            }
        }
    } else if l.len() > 0 {
        assert(l.contains(s));
    }
}

fn position_of(l: &Vec<Setup>, s: Setup) -> (r: Option<usize>)
    ensures
        match r {
            Some(i) => position(l@, s) == Some(i as int),
            None => position(l@, s) is None,
        },
{
    proof {
        lemma_position(l@, s);
    }
    let mut i: usize = 0;
    while i < l.len()
        invariant
            i <= l@.len(),
            forall|j: int| 0 <= j < i ==> l@[j] != s,
        decreases l@.len() - i,
    {
        if l[i] == s {
            proof {
                lemma_position(l@, s);
                assert(l@.contains(s));
                let k = position(l@, s)->0;
                if k < i {
                    assert(l@[k] != s);
                } else if k > i {
                    assert(l@[i as int] == s);
                }
            }
            return Some(i);
        }
        i = i + 1;
    }
    proof {
        lemma_position(l@, s);
    }
    None
}

/// Something is in the folder that the ladder must not overwrite: Neural
/// Upstream or the standalone AIO picked by hand, or a setup that is not on
/// this game's ladder.
pub fn hand_chosen(st: &GameStatus) -> (r: bool)
    ensures
        r == spec_hand_chosen(*st),
{
    if st.upstream || (st.aio && !st.opti) {
        return true;
    }
    match installed(st) {
        Some(s) => {
            let l = ladder(st);
            proof {
                lemma_position(l@, s);
            }
            position_of(&l, s).is_none()
        },
        None => false,
    }
}

/// The rung the game is on: where what is installed sits on its ladder, or
/// the top when nothing is.
pub fn level(st: &GameStatus) -> (r: usize)
    ensures
        r as int == spec_level(*st),
{
    let l = ladder(st);
    match installed(st) {
        Some(s) => match position_of(&l, s) {
            Some(i) => i,
            None => 0,
        },
        None => 0,
    }
}

/// What the setup is, in words.
pub fn label(s: &Setup) -> (r: String)
    ensures
        r@ == label_text(*s),
{
    match (s.engine, s.consumer, s.addon_tag) {
        (Engine::Opti, _, _) => String::from_str("OptiScaler with its built-in neural rendering pass"),
        (Engine::Aio, _, _) => String::from_str("ReShade + standalone AIO"),
        (_, Consumer::ShortFuse, _) => String::from_str("ReShade + ShortFuse's DLSS add-on"),
        (_, Consumer::Dlss5, None) => String::from_str("ReShade + DLSS 5 add-on (newest stable build)"),
        (_, Consumer::Dlss5, Some(b)) => {
            let mut r = String::from_str("ReShade + DLSS 5 add-on ");
            let t = to_chars(b.tag());
            let n = trim_start_matches_exec(t.as_slice(), DLSS5_PREFIX);
            crate::text::push_chars(&mut r, n.as_slice());
            r
        },
    }
}

/// For a setup picked by hand, what it is, in words.
pub fn hand_label(st: &GameStatus) -> (r: Option<String>)
    ensures
        match r {
            Some(t) => spec_hand_label(*st) == Some(t@),
            None => spec_hand_label(*st) is None,
        },
{
    if !hand_chosen(st) {
        return None;
    }
    Some(
        if st.upstream {
            String::from_str("ReShade + Neural Upstream")
        } else if st.aio && !st.opti {
            String::from_str("ReShade + standalone AIO")
        } else {
            match installed(st) {
                Some(s) => label(&s),
                None => String::new(),
            }
        },
    )
}

/// The setup for this game now.
pub fn current(st: &GameStatus) -> (r: Option<Setup>)
    ensures
        r == spec_current(*st),
{
    if hand_chosen(st) {
        return None;
    }
    let l = ladder(st);
    let i = level(st);
    if i < l.len() {
        Some(l[i])
    } else {
        None
    }
}

/// The next rung, when there is one.
pub fn next(st: &GameStatus) -> (r: Option<(usize, Setup)>)
    ensures
        match r {
            Some((n, s)) => spec_next(*st) == Some((n as int, s)),
            None => spec_next(*st) is None,
        },
{
    if hand_chosen(st) {
        return None;
    }
    let l = ladder(st);
    let i = level(st);
    if i < l.len() && i + 1 < l.len() {
        Some((i + 1, l[i + 1]))
    } else {
        None
    }
}

/// The consumer and add-on build values a setup puts in the environment the
/// install steps read.
pub fn env_values(s: &Setup) -> (r: (&'static str, Option<&'static str>))
    ensures
        r.0@ == consumer_env(s.consumer),
        match r.1 {
            Some(t) => s.addon_tag matches Some(b) && t@ == build_tag(b),
            None => s.addon_tag is None,
        },
{
    (
        match s.consumer {
            Consumer::ShortFuse => "sf",
            Consumer::Dlss5 => "dlss5",
        },
        match s.addon_tag {
            Some(b) => Some(b.tag()),
            None => None,
        },
    )
}

/// Why this game gets it: the facts the ladder was built from, joined by
/// `" · "`.
pub fn reason(st: &GameStatus) -> (r: String)
    ensures
        r@ == join(reason_parts(*st), " · "@),
{
    let mut parts: Vec<Vec<char>> = Vec::new();
    match profile(st) {
        Some(p) => {
            let why = if p == 0 {
                CYBERPUNK_WHY
            } else {
                DD2_WHY
            };
            parts.push(to_chars(why));
        },
        None => {},
    }
    let m = match st.mode {
        Mode::Native => "the game has its own DLSS",
        Mode::Feeder => "the game has no DLSS of its own (the Feeder supplies it)",
    };
    parts.push(to_chars(m));
    parts.push(to_chars(st.api.label()));
    if st.is32() {
        parts.push(to_chars("32-bit"));
    }
    match &st.gpu_tier {
        Some(t) => parts.push(to_chars(t.as_str())),
        None => {},
    }
    proof {
        assert(views(parts@) =~= reason_parts(*st));
    }
    join_exec(&parts, " · ")
}


// ───────────────────────────── laws ─────────────────────────────

/// No setup stands twice on a ladder.
pub proof fn lemma_ladder_distinct(st: GameStatus)
    ensures
        forall|i: int, j: int|
            0 <= i < j < spec_ladder(st).len() ==> spec_ladder(st)[i] != spec_ladder(st)[j],
{
}

/// The rung a game is on is a rung of its ladder (when it has one).
pub proof fn lemma_level_on_ladder(st: GameStatus)
    ensures
        spec_ladder(st).len() > 0 ==> 0 <= spec_level(st) < spec_ladder(st).len(),
        spec_ladder(st).len() == 0 ==> spec_level(st) == 0,
{
    if let Some(s) = spec_installed(st) {
        lemma_position(spec_ladder(st), s);
    }
}

/// A game with nothing installed gets the top rung.
pub proof fn lemma_fresh_game_gets_the_top_rung(st: GameStatus)
    requires
        spec_installed(st) is None,
        !foreign(st),
    ensures
        !spec_hand_chosen(st),
        spec_level(st) == 0,
        spec_ladder(st).len() > 0 ==> spec_current(st) == Some(spec_ladder(st)[0]),
        spec_ladder(st).len() == 0 ==> spec_current(st) is None,
{
}

/// A game that is already set up stays on the setup it has: Install and
/// Update refresh it instead of moving it.
pub proof fn lemma_installed_setup_stays(st: GameStatus, s: Setup)
    requires
        spec_installed(st) == Some(s),
        spec_ladder(st).contains(s),
    ensures
        !spec_hand_chosen(st),
        spec_current(st) == Some(s),
{
    lemma_position(spec_ladder(st), s);
}

/// What the current setup is, when there is one, is a rung of the ladder,
/// and the next setup is the rung right below it.
pub proof fn lemma_next_is_one_rung_down(st: GameStatus)
    ensures
        spec_current(st) matches Some(s) ==> spec_ladder(st).contains(s),
        spec_next(st) matches Some((n, s)) ==> {
            &&& n == spec_level(st) + 1
            &&& s == spec_ladder(st)[n]
            &&& spec_current(st) == Some(spec_ladder(st)[n - 1])
        },
        spec_next(st) is None ==> (spec_hand_chosen(st) || spec_current(st) is None
            || spec_current(st) == Some(spec_ladder(st).last())),
{
    lemma_level_on_ladder(st);
    if let Some(s) = spec_current(st) {
        assert(spec_ladder(st)[spec_level(st)] == s);
    }
}

/// A setup picked by hand is left as it is: nothing is current, nothing is
/// next, and it is named.
pub proof fn lemma_hand_chosen_is_left_alone(st: GameStatus)
    requires
        spec_hand_chosen(st),
    ensures
        spec_current(st) is None,
        spec_next(st) is None,
        spec_hand_label(st) is Some,
{
}

/// A profile game already on ReShade does not start on OptiScaler, and
/// OptiScaler is still on its ladder, last.
pub proof fn lemma_reshade_game_does_not_start_on_optiscaler(st: GameStatus)
    requires
        spec_profile(st) is Some,
        st.reshade,
    ensures
        spec_ladder(st)[0].engine != Engine::Opti,
        spec_ladder(st).len() == 5,
        spec_ladder(st).contains(optiscaler()),
        forall|s: Setup|
            #![trigger spec_ladder(st).contains(s)]
            spec_ladder(st).contains(s) <== profile_list(spec_profile(st)->0).contains(s),
{
    let p = spec_profile(st)->0;
    let l = profile_list(p);
    if p == 0 {
        assert(spec_ladder(st)[4] == optiscaler());
        assert forall|s: Setup| l.contains(s) implies #[trigger] spec_ladder(st).contains(s) by {
            let k = choose|k: int| 0 <= k < l.len() && l[k] == s;
            if k == 0 {
                assert(spec_ladder(st)[4] == s);
            } else {
                assert(spec_ladder(st)[k - 1] == s);
            }
        }
    } else {
        assert(spec_ladder(st)[4] == optiscaler());
        assert forall|s: Setup| l.contains(s) implies #[trigger] spec_ladder(st).contains(s) by {
            let k = choose|k: int| 0 <= k < l.len() && l[k] == s;
            assert(spec_ladder(st)[k] == s);
        }
    }
}

/// Without a profile, the ladder is empty exactly for a Vulkan game that
/// OptiScaler cannot take (no DLSS of its own, or 32-bit).
pub proof fn lemma_empty_ladder(st: GameStatus)
    requires
        spec_profile(st) is None,
    ensures
        spec_ladder(st).len() == 0 <==> (st.api == Api::Vulkan && !(st.mode == Mode::Native
            && st.bitness != 32)),
{
}

/// Without a profile, ShortFuse's add-on is offered only to a 64-bit game
/// with DLSS of its own that ReShade can reach.
pub proof fn lemma_shortfuse_needs_native_64_bit(st: GameStatus)
    requires
        spec_profile(st) is None,
        spec_ladder(st).contains(shortfuse()),
    ensures
        st.mode == Mode::Native,
        st.bitness != 32,
        st.api != Api::Vulkan,
{
    let l = spec_ladder(st);
    let k = choose|k: int| 0 <= k < l.len() && l[k] == shortfuse();
    assert(l[k] == shortfuse());
}

/// The exe's file name, in lower case, is `name`.
pub open spec fn exe_named(st: GameStatus, name: Seq<char>) -> bool {
    file_name(st.exe@) matches Some(n) && lower_seq(n) == name
}

/// Dragon's Dogma 2 (`dd2.exe`, any case) starts on the 4.70 build, then
/// 4.55, then ShortFuse, and only then the newest DLSS 5 build that crashed
/// it, with OptiScaler last, whatever else is in its folder.
pub proof fn lemma_dd2_ladder(st: GameStatus)
    requires
        exe_named(st, "dd2.exe"@),
    ensures
        spec_ladder(st) == seq![
            Setup { engine: Engine::ReShade, consumer: Consumer::Dlss5, addon_tag: Some(AddonBuild::Steady) },
            Setup { engine: Engine::ReShade, consumer: Consumer::Dlss5, addon_tag: Some(AddonBuild::Classic) },
            Setup { engine: Engine::ReShade, consumer: Consumer::ShortFuse, addon_tag: None },
            Setup { engine: Engine::ReShade, consumer: Consumer::Dlss5, addon_tag: None },
            Setup { engine: Engine::Opti, consumer: Consumer::Dlss5, addon_tag: None },
        ],
{
    reveal_strlit("dd2.exe");
    reveal_strlit("cyberpunk2077.exe");
    assert("dd2.exe"@ != "cyberpunk2077.exe"@) by {
        assert("dd2.exe"@.len() != "cyberpunk2077.exe"@.len());
    }
    assert(spec_profile(st) == Some(1int));
}

/// Cyberpunk 2077 (`cyberpunk2077.exe`, any case) starts on OptiScaler, then
/// ShortFuse and the DLSS 5 builds from newest to 4.55; a copy already on
/// ReShade starts on ShortFuse and keeps OptiScaler last.
pub proof fn lemma_cyberpunk_ladder(st: GameStatus)
    requires
        exe_named(st, "cyberpunk2077.exe"@),
    ensures
        !st.reshade ==> spec_ladder(st) == seq![
            Setup { engine: Engine::Opti, consumer: Consumer::Dlss5, addon_tag: None },
            Setup { engine: Engine::ReShade, consumer: Consumer::ShortFuse, addon_tag: None },
            Setup { engine: Engine::ReShade, consumer: Consumer::Dlss5, addon_tag: None },
            Setup { engine: Engine::ReShade, consumer: Consumer::Dlss5, addon_tag: Some(AddonBuild::Steady) },
            Setup { engine: Engine::ReShade, consumer: Consumer::Dlss5, addon_tag: Some(AddonBuild::Classic) },
        ],
        st.reshade ==> spec_ladder(st) == seq![
            Setup { engine: Engine::ReShade, consumer: Consumer::ShortFuse, addon_tag: None },
            Setup { engine: Engine::ReShade, consumer: Consumer::Dlss5, addon_tag: None },
            Setup { engine: Engine::ReShade, consumer: Consumer::Dlss5, addon_tag: Some(AddonBuild::Steady) },
            Setup { engine: Engine::ReShade, consumer: Consumer::Dlss5, addon_tag: Some(AddonBuild::Classic) },
            Setup { engine: Engine::Opti, consumer: Consumer::Dlss5, addon_tag: None },
        ],
{
    reveal_strlit("cyberpunk2077.exe");
    assert(spec_profile(st) == Some(0int));
    let l = profile_list(0);
    if st.reshade {
        assert(l.drop_first().push(l[0]) =~= seq![
            Setup { engine: Engine::ReShade, consumer: Consumer::ShortFuse, addon_tag: None },
            Setup { engine: Engine::ReShade, consumer: Consumer::Dlss5, addon_tag: None },
            Setup { engine: Engine::ReShade, consumer: Consumer::Dlss5, addon_tag: Some(AddonBuild::Steady) },
            Setup { engine: Engine::ReShade, consumer: Consumer::Dlss5, addon_tag: Some(AddonBuild::Classic) },
            Setup { engine: Engine::Opti, consumer: Consumer::Dlss5, addon_tag: None },
        ]);
    }
}

/// A game without a profile: with its own DLSS, 64-bit and not Vulkan, it
/// starts on ShortFuse, then the DLSS 5 builds from newest to 4.55, then
/// OptiScaler; fed by the Feeder or 32-bit (and not Vulkan), it gets only
/// the DLSS 5 builds from newest to 4.55.
pub proof fn lemma_plain_ladders(st: GameStatus)
    requires
        !exe_named(st, "dd2.exe"@),
        !exe_named(st, "cyberpunk2077.exe"@),
        st.api != Api::Vulkan,
    ensures
        st.mode == Mode::Native && st.bitness != 32 ==> spec_ladder(st) == seq![
            Setup { engine: Engine::ReShade, consumer: Consumer::ShortFuse, addon_tag: None },
            Setup { engine: Engine::ReShade, consumer: Consumer::Dlss5, addon_tag: None },
            Setup { engine: Engine::ReShade, consumer: Consumer::Dlss5, addon_tag: Some(AddonBuild::Steady) },
            Setup { engine: Engine::ReShade, consumer: Consumer::Dlss5, addon_tag: Some(AddonBuild::Classic) },
            Setup { engine: Engine::Opti, consumer: Consumer::Dlss5, addon_tag: None },
        ],
        !(st.mode == Mode::Native && st.bitness != 32) ==> spec_ladder(st) == seq![
            Setup { engine: Engine::ReShade, consumer: Consumer::Dlss5, addon_tag: None },
            Setup { engine: Engine::ReShade, consumer: Consumer::Dlss5, addon_tag: Some(AddonBuild::Steady) },
            Setup { engine: Engine::ReShade, consumer: Consumer::Dlss5, addon_tag: Some(AddonBuild::Classic) },
        ],
{
    reveal_strlit("dd2.exe");
    reveal_strlit("cyberpunk2077.exe");
    assert(spec_profile(st) is None);
}

} // verus!
