use dlss5_oneclick::game::{Api, GameStatus, Mode};
use dlss5_oneclick::setup::{
    current, dlss5_classic, dlss5_newest, dlss5_steady, env_values, hand_chosen, hand_label,
    installed, label, ladder, level, next, optiscaler, reason, shortfuse, RENODX_CLASSIC_TAG,
    RENODX_STEADY_TAG,
};

fn native(dir: &str) -> GameStatus {
    GameStatus::new(format!("{dir}/game.exe"), Mode::Native, Api::Dx12)
}

#[test]
fn a_fresh_game_with_its_own_dlss_starts_on_shortfuse() {
    let st = native("/tmp/t");
    assert_eq!(
        ladder(&st),
        vec![shortfuse(), dlss5_newest(), dlss5_steady(), dlss5_classic(), optiscaler()]
    );
    assert_eq!(current(&st), Some(shortfuse()));
    assert_eq!(next(&st), Some((1, dlss5_newest())));
}

/// What is in the folder decides the rung, so Install and Update refresh
/// the build a user is on instead of moving it.
#[test]
fn an_existing_install_stays_on_the_setup_it_has() {
    let mut st = native("/tmp/t");
    st.reshade = true;
    st.dlss5_addon = true;
    // No tag recorded: from when 4.70 was the default.
    assert_eq!(current(&st), Some(dlss5_steady()));
    st.dlss5_marker = Some(RENODX_CLASSIC_TAG.to_string());
    assert_eq!(current(&st), Some(dlss5_classic()));
    assert_eq!(next(&st), Some((4, optiscaler())));
    st.dlss5_marker = Some("renodx-dlss5-6.5.3".to_string());
    assert_eq!(current(&st), Some(dlss5_newest()));
    st.dlss5_addon = false;
    st.sf = true;
    // A ShortFuse add-on this tool did not place is not our step.
    assert_eq!(current(&st), Some(shortfuse()));
    assert_eq!(installed(&st), None);
    st.sf_marker = true;
    assert_eq!(installed(&st), Some(shortfuse()));
    st.sf = false;
    st.reshade = false;
    st.opti = true;
    assert_eq!(current(&st), Some(optiscaler()));
    assert_eq!(next(&st), None);
}

/// Cyberpunk on ReShade stays on ReShade.
#[test]
fn a_profile_does_not_move_an_existing_install() {
    let mut st = native("/tmp/t");
    st.exe = "/tmp/t/Cyberpunk2077.exe".to_string();
    assert_eq!(current(&st), Some(optiscaler()));
    st.reshade = true;
    st.dlss5_addon = true;
    assert_eq!(current(&st), Some(dlss5_steady()));
    assert!(reason(&st).contains("#95"));
    st.exe = "/tmp/t/DD2.exe".to_string();
    st.dlss5_addon = false;
    st.reshade = false;
    assert_eq!(current(&st), Some(dlss5_steady()));
}

#[test]
fn cyberpunk_on_reshade_starts_on_reshade_and_ends_on_optiscaler() {
    let mut st = native("/tmp/t");
    st.exe = "/tmp/t/Cyberpunk2077.exe".to_string();
    st.reshade = true;
    assert_eq!(current(&st), Some(shortfuse()));
    assert_eq!(ladder(&st).last(), Some(&optiscaler()));
    st.dlss5_addon = true;
    st.dlss5_marker = Some(RENODX_CLASSIC_TAG.to_string());
    assert_eq!(next(&st).map(|(_, s)| s), Some(optiscaler()));
}

#[test]
fn a_hand_picked_setup_is_named() {
    let mut st = native("/tmp/t");
    assert_eq!(hand_label(&st), None);
    st.upstream = true;
    assert_eq!(hand_label(&st).as_deref(), Some("ReShade + Neural Upstream"));
}

#[test]
fn feeder_32_bit_and_vulkan_get_their_own_ladders() {
    let mut st = GameStatus::new("/tmp/t/game.exe".to_string(), Mode::Feeder, Api::Dx11);
    assert_eq!(ladder(&st), vec![dlss5_newest(), dlss5_steady(), dlss5_classic()]);
    st.mode = Mode::Native;
    st.bitness = 32;
    assert!(!ladder(&st).contains(&shortfuse()));
    st.bitness = 64;
    st.api = Api::Vulkan;
    assert_eq!(ladder(&st), vec![optiscaler()]);
    st.mode = Mode::Feeder;
    assert!(ladder(&st).is_empty());
    assert_eq!(current(&st), None);
}

#[test]
fn neural_upstream_and_aio_are_left_alone() {
    let mut st = native("/tmp/t");
    assert!(!hand_chosen(&st));
    st.upstream = true;
    assert!(hand_chosen(&st));
    assert_eq!(current(&st), None);
    assert_eq!(next(&st), None);
    st.upstream = false;
    st.aio = true;
    assert!(hand_chosen(&st));
}

#[test]
fn env_values_name_the_consumer_and_the_build() {
    assert_eq!(env_values(&shortfuse()), ("sf", None));
    assert_eq!(env_values(&dlss5_steady()), ("dlss5", Some(RENODX_STEADY_TAG)));
    assert_eq!(env_values(&dlss5_newest()), ("dlss5", None));
}

#[test]
fn labels_name_each_setup() {
    assert_eq!(label(&optiscaler()), "OptiScaler with its built-in neural rendering pass");
    assert_eq!(label(&shortfuse()), "ReShade + ShortFuse's DLSS add-on");
    assert_eq!(label(&dlss5_newest()), "ReShade + DLSS 5 add-on (newest stable build)");
    assert_eq!(label(&dlss5_steady()), "ReShade + DLSS 5 add-on 4.70");
    assert_eq!(label(&dlss5_classic()), "ReShade + DLSS 5 add-on 4.55");
}

#[test]
fn a_setup_off_the_ladder_is_hand_chosen_and_labelled() {
    // A Feeder game's ladder has no OptiScaler: OptiScaler there was picked by hand.
    let mut st = GameStatus::new("C:\\Games\\X\\x.exe".to_string(), Mode::Feeder, Api::Dx11);
    st.opti = true;
    assert!(hand_chosen(&st));
    assert_eq!(
        hand_label(&st).as_deref(),
        Some("OptiScaler with its built-in neural rendering pass")
    );
    assert_eq!(current(&st), None);
    st.opti = false;
    st.aio = true;
    assert_eq!(hand_label(&st).as_deref(), Some("ReShade + standalone AIO"));
}

#[test]
fn level_follows_the_installed_rung() {
    let mut st = native("/tmp/t");
    assert_eq!(level(&st), 0);
    st.reshade = true;
    st.dlss5_addon = true;
    st.dlss5_marker = Some(format!("  {}\n", RENODX_STEADY_TAG));
    assert_eq!(level(&st), 2);
    assert_eq!(next(&st), Some((3, dlss5_classic())));
}

#[test]
fn reason_lists_the_facts_in_order() {
    let mut st = GameStatus::new("C:\\Games\\CP\\Cyberpunk2077.exe".to_string(), Mode::Native, Api::Dx12);
    st.bitness = 32;
    st.gpu_tier = Some("RTX 40".to_string());
    assert_eq!(
        reason(&st),
        "Cyberpunk 2077 works on the OptiScaler engine (#95) · the game has its own DLSS · Direct3D 12 · 32-bit · RTX 40"
    );
    let st = GameStatus::new("/g/game.exe".to_string(), Mode::Feeder, Api::Vulkan);
    assert_eq!(
        reason(&st),
        "the game has no DLSS of its own (the Feeder supplies it) · Vulkan"
    );
}

#[test]
fn a_32_bit_game_runs_its_add_on_in_host64() {
    let mut st = GameStatus::new("C:\\g\\game.exe".to_string(), Mode::Feeder, Api::Dx11);
    assert_eq!(st.consumer_dir("C:\\g"), "C:\\g");
    st.bitness = 32;
    assert_eq!(st.consumer_dir("C:\\g"), "C:\\g\\host64");
    assert_eq!(st.consumer_dir("C:\\g\\"), "C:\\g\\host64");
}
