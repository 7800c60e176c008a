use dlss5_oneclick::diagnose::{
    diagnose, reshade_host_exe, upstream_findings, version_key, Evidence, Finding, Level,
};
use dlss5_oneclick::game::{Api, GameStatus, Mode};
use dlss5_oneclick::setup::RENODX_CLASSIC_TAG;

/// Baldur's Gate 3 ships bg3.exe (Vulkan) and bg3_dx11.exe; installing for
/// one and playing the other leaves everything looking right and nothing
/// hooked. The exe name is in ReShade's first line.
#[test]
fn reshade_host_exe_reads_the_first_line() {
    let log = "01:30:11:810 [17792] | INFO  | Initializing crosire's ReShade version '6.8.0.2155' (64-bit) loaded from 'C:\\\\Program Files (x86)\\\\Steam\\\\steamapps\\\\common\\\\Baldurs Gate 3\\\\bin\\\\dxgi.dll' into 'C:\\\\Program Files (x86)\\\\Steam\\\\steamapps\\\\common\\\\Baldurs Gate 3\\\\bin\\\\bg3_dx11.exe' (0x64317982) ...";
    assert_eq!(reshade_host_exe(log).as_deref(), Some("bg3_dx11.exe"));
    assert!(reshade_host_exe("nothing useful here").is_none());
}

/// The lines Neural Upstream writes when it registered, hooked, and saw the
/// game create its DLSS feature, then the session ended at the menu.
#[test]
fn neural_upstream_log_is_read_by_its_own_lines() {
    let menu = "Registered add-on \"DLSS5 NR Pre-Upscale\"
            [NRPRE] addon registered (NR at render resolution -- configure in the ReShade overlay)
            [NRPRE] hook 0 on NVSDK_NGX_D3D12_EvaluateFeature: OK
            [NRPRE] hook on NVSDK_NGX_D3D12_CreateFeature: OK (module 0)
            [NRPRE] CreateFeature id=1 -> res=0x00000001 handle=1 | NR W=4294967295 H=4294967295 ratio=-1.000 preset=-1 | DLSSNR.Color=<no slot> | DLSSNR.Output=<no slot> | DLSSNR.Depth=<no slot> | DLSSNR.MVec=<no slot>
            [NRPRE] F11: cadence phase -> 0/1
";
    let f = upstream_findings(menu);
    assert!(
        f.iter()
            .any(|x| x.level == Level::Okay && x.text.contains("registered")),
        "{f:?}"
    );
    assert!(f.iter().any(|x| x.text.contains("never rendered a frame")), "{f:?}");
    assert!(!f.iter().any(|x| x.text.contains("never registered")), "{f:?}");
    assert!(!f.iter().any(|x| x.text.contains("No NGX call")), "{f:?}");

    let ran = format!(
        "{menu}[NRPRE] eval feat=1  render_subrect=1707x960 | a | b | c | d
             [NRPRE] 2b: SNIPPET CreateFeature(18, 1707x960) -> 0x00000001 handle=000001
             [NRPRE] 2c: NR Evaluate(HI) -> 0x00000001
"
    );
    let f = upstream_findings(&ran);
    assert!(
        f.iter()
            .any(|x| x.level == Level::Okay && x.text.contains("Neural rendering ran")),
        "{f:?}"
    );

    let failed = format!(
        "{menu}[NRPRE] eval feat=1  render_subrect=1707x960 | a | b | c | d
             [NRPRE] 2b: SNIPPET CreateFeature(18, 1707x960) -> 0xBAD00002 handle=0000000000000000
"
    );
    let f = upstream_findings(&failed);
    assert!(
        f.iter()
            .any(|x| x.level == Level::Bad && x.text.contains("0xBAD00002")),
        "{f:?}"
    );
}

// ───── the folder-level checks, with the files' contents handed in ─────

const REGISTERED: &str =
    "Initializing crosire's ReShade\nRegistered add-on \"DLSS 5 Neural Rendering\"\n";

fn game(feeder: bool, bits: u32) -> GameStatus {
    let mut st = GameStatus::new(
        "/tmp/g/game.exe".to_string(),
        if feeder { Mode::Feeder } else { Mode::Native },
        Api::Dx12,
    );
    st.bitness = bits;
    st
}

fn run(st: &GameStatus, ev: &Evidence) -> Vec<Finding> {
    diagnose(st, ev)
}

#[test]
fn thirty_two_bit_reads_the_host64_reshade_log() {
    let st = game(true, 32);
    let mut ev = Evidence::nothing_found();
    // What the add-on's folder (host64) logged.
    ev.reshade_log = Some(
        "Initializing crosire's ReShade version '6.8.0'\nRegistered add-on \"DLSS 5 Neural Rendering\"\n"
            .to_string(),
    );
    let f = run(&st, &ev);
    assert!(
        f.iter()
            .any(|x| x.level == Level::Okay && x.text.contains("add-on registered")),
        "{f:?}"
    );
    assert!(!f.iter().any(|x| x.text.contains("never registered")), "{f:?}");
}

#[test]
fn thirty_two_bit_missing_host64_log_names_host64() {
    let st = game(true, 32);
    let mut ev = Evidence::nothing_found();
    ev.game_side_reshade = true;
    let f = run(&st, &ev);
    assert!(f.iter().any(|x| x.text.contains("host64")), "{f:?}");
}

#[test]
fn wine_hlsl_compiler_is_named_and_rename_advice_suppressed() {
    let st = game(true, 64);
    let mut ev = Evidence::nothing_found();
    ev.compiler_present = true;
    ev.reshade_log = Some(
        "Initializing crosire's ReShade version '6.8.0'\n\
         ERROR | Failed to compile 'DLSS5_Feed.fx':\n\
         <anonymous>:118:13: E5017: Aborting due to not yet implemented feature: Unhandled attribute 'fastopt'.\n"
            .to_string(),
    );
    let f = run(&st, &ev);
    assert!(
        f.iter()
            .any(|x| x.level == Level::Bad && x.text.contains("vkd3d-shader")),
        "{f:?}"
    );
    assert!(!f.iter().any(|x| x.text.contains("d3dcompiler_47.dll.bak")), "{f:?}");
    assert!(f.iter().any(|x| x.text.contains("WINEDLLOVERRIDES")), "{f:?}");
}

#[test]
fn work_resolution_build_failure_names_the_setting() {
    let st = game(true, 64);
    let mut ev = Evidence::nothing_found();
    ev.reshade_log = Some(REGISTERED.to_string());
    ev.feed_log = Some(
        "[feed] building: 2176x1224 work resolution (85%) -> 2560x1440 backbuffer\n\
         [feed] work-resolution staging SRV failed\n\
         [feed] failure: resource build\n\
         stopped: repeated failures. The game renders normally.\n"
            .to_string(),
    );
    let f = run(&st, &ev);
    let hit = f
        .iter()
        .find(|x| x.text.contains("work-resolution staging SRV failed"))
        .unwrap_or_else(|| panic!("{f:?}"));
    assert_eq!(hit.level, Level::Bad);
    assert!(hit.text.contains("85%"), "{}", hit.text);
    assert!(hit.text.contains("work_resolution = 100"), "{}", hit.text);
}

#[test]
fn thirty_two_bit_missing_game_side_reshade_is_named_first() {
    let st = game(true, 32);
    let mut ev = Evidence::nothing_found();
    ev.reshade_log = Some("Initializing crosire's ReShade version '6.8.0'\n".to_string());
    let f = run(&st, &ev);
    assert!(
        f.iter()
            .any(|x| x.level == Level::Bad && x.text.contains("No ReShade beside the game exe")),
        "{f:?}"
    );
}

#[test]
fn a_faulting_feature_create_is_explained_with_its_stack() {
    let st = game(true, 64);
    let mut ev = Evidence::nothing_found();
    ev.reshade_log = Some(REGISTERED.to_string());
    ev.feed_log = Some(
        "[feed] CreateFeature raised 0xC0000005 (reading address 00000000575284C0) (caught; nothing submitted)\n\
         [feed] CreateFeature fault stack, by module (innermost first): d3d12core.dll <- dxgi.dll <- nvapi64.dll <- nvngx_dlss.dll <- renodx-dlss5.addon64\n\
         [feed] two copies of the DLSS NGX module are loaded (the game-local nvngx_dlss.dll and the driver's _nvngx.dll)\n"
            .to_string(),
    );
    let f = run(&st, &ev);
    let hit = f
        .iter()
        .find(|x| x.text.contains("faulted inside the driver"))
        .unwrap_or_else(|| panic!("{f:?}"));
    assert_eq!(hit.level, Level::Bad);
    assert!(hit.text.contains("d3d12core.dll"), "{}", hit.text);
    assert!(hit.text.contains("nvngx_dlss.dll.off"), "{}", hit.text);
}

#[test]
fn dgvoodoo_vram_without_availablevidmem_is_flagged() {
    let st = game(true, 64);
    let mut ev = Evidence::nothing_found();
    ev.reshade_log = Some("Initializing crosire's ReShade\n".to_string());
    ev.dgvoodoo_conf = Some("[DirectX]\nVRAM = 4096\n".to_string());
    ev.commandline = Some("-norestrictions\n".to_string());
    let f = run(&st, &ev);
    let hit = f
        .iter()
        .find(|x| x.text.contains("-availablevidmem"))
        .unwrap_or_else(|| panic!("{f:?}"));
    assert_eq!(hit.level, Level::Warn);
    assert!(hit.text.contains("4096"), "{}", hit.text);
    assert!(hit.text.contains("\"-availablevidmem 4032\""), "{}", hit.text);

    ev.commandline = Some("-availablevidmem 4032\n-norestrictions\n".to_string());
    let f = run(&st, &ev);
    assert!(!f.iter().any(|x| x.text.contains("-availablevidmem")), "{f:?}");
}

#[test]
fn the_nvngx_advice_is_withheld_under_proton() {
    let st = game(true, 64);
    let crash = "[feed] CreateFeature raised 0xC0000005 (caught; nothing submitted)\n\
                 [feed] two copies of the DLSS NGX module are loaded (the game-local nvngx_dlss.dll and the driver's _nvngx.dll)\n";
    let mut ev = Evidence::nothing_found();
    ev.reshade_log = Some(REGISTERED.to_string());
    ev.feed_log = Some(crash.to_string());
    let f = run(&st, &ev);
    assert!(f.iter().any(|x| x.text.contains("nvngx_dlss.dll.off")), "{f:?}");

    ev.feed_log = Some(format!(
        "[feed] adapter: NVIDIA GeForce RTX 4070 SUPER driver 999.99\n{crash}"
    ));
    let f = run(&st, &ev);
    assert!(!f.iter().any(|x| x.text.contains("nvngx_dlss.dll.off")), "{f:?}");
    assert!(f.iter().any(|x| x.text.contains("Do NOT do that here")), "{f:?}");
}

#[test]
fn the_measured_to_fail_warning_reads_the_recorded_tag() {
    let mut st = game(true, 64);
    let mut ev = Evidence::nothing_found();
    ev.reshade_log = Some(REGISTERED.to_string());
    ev.feed_log = Some(
        "[feed] WARNING: renodx-dlss5 v4.6 with NVIDIA driver 616.64 is a combination \
         measured to fail\n"
            .to_string(),
    );
    let f = run(&st, &ev);
    assert!(
        f.iter()
            .any(|x| x.level == Level::Warn && x.text.contains("pins the classic build")),
        "{f:?}"
    );
    st.dlss5_marker = Some(RENODX_CLASSIC_TAG.to_string());
    let f = run(&st, &ev);
    assert!(
        f.iter()
            .any(|x| x.level == Level::Okay && x.text.contains("cannot tell them apart")),
        "{f:?}"
    );
}

#[test]
fn no_reshade_log_is_fatal() {
    let st = game(true, 64);
    let f = run(&st, &Evidence::nothing_found());
    assert_eq!(f.len(), 1);
    assert_eq!(f[0].level, Level::Bad);
    assert!(f[0].text.contains("never loaded"));
}

#[test]
fn native_without_game_dlss_call() {
    let st = game(false, 64);
    let mut ev = Evidence::nothing_found();
    ev.reshade_log = Some(
        "Initializing crosire's ReShade version '6.8.0'\nRegistered add-on \"DLSS 5 Neural Rendering\"\n"
            .to_string(),
    );
    let f = run(&st, &ev);
    assert!(f.iter().any(|x| x.text.contains("game's own DLSS never ran")));
    assert!(f
        .iter()
        .any(|x| x.level == Level::Okay && x.text.contains("add-on registered")));
}

#[test]
fn addon_load_failure_is_explained() {
    let st = game(false, 64);
    let mut ev = Evidence::nothing_found();
    ev.reshade_log = Some(
        "Initializing crosire's ReShade\nFailed to load add-on from 'C:\\g\\renodx-dlss5.addon64' with error code 2148073478!\n"
            .to_string(),
    );
    let f = run(&st, &ev);
    assert!(f.iter().any(|x| x.text.contains("unsigned DLLs")));
    assert!(f.iter().any(|x| x.text
        == "ReShade refused to load renodx-dlss5.addon64, error code 2148073478 (0x80090006 = the process refuses unsigned DLLs; nothing can be done)."));
}

#[test]
fn feeder_provider_not_enabled() {
    let st = game(true, 64);
    let mut ev = Evidence::nothing_found();
    ev.reshade_log = Some(REGISTERED.to_string());
    ev.feed_log = Some(
        "[feed] effects: DLSS5_Feed.fx technique found, DLSS5_MV_PROVIDER=3 (LumeniteFX Kernel) -> none (not installed)\n"
            .to_string(),
    );
    let f = run(&st, &ev);
    assert!(f
        .iter()
        .any(|x| x.text.contains("motion-vector provider is not enabled")));
}

#[test]
fn feeder_last_effects_line_wins_and_ngx_init_failure_named() {
    let st = game(true, 64);
    let mut ev = Evidence::nothing_found();
    ev.reshade_log = Some(REGISTERED.to_string());
    ev.feed_log = Some(
        "12:33:33.151  dlss5-feed 0.7.0 (built Aug 31 2026) attached.\n\
         [feed] effects: DLSS5_Feed.fx technique MISSING, DLSS5_MV_PROVIDER=3 (LumeniteFX Kernel) -> none (not installed)\n\
         [feed] effects: DLSS5_Feed.fx technique found, DLSS5_MV_PROVIDER=3 (LumeniteFX Kernel) -> Lumenite_Kernel (enabled)\n\
         [feed] NVSDK_NGX_D3D12_Init -> 0xBAD00001 (FeatureNotSupported)\n\
         stopped: the D3D12/NGX session failed to start.\n"
            .to_string(),
    );
    let f = run(&st, &ev);
    assert!(!f
        .iter()
        .any(|x| x.text.contains("motion-vector provider is not enabled")));
    assert!(f.iter().any(|x| x.text.contains("NGX refused to initialise")));
    assert!(f.iter().any(|x| x.text.contains("0.7.0 in the log is older")));
}

#[test]
fn healthy_session_says_so() {
    let st = game(true, 64);
    let mut ev = Evidence::nothing_found();
    ev.reshade_log = Some(
        "Initializing crosire's ReShade\nRegistered add-on \"DLSS 5 Neural Rendering\"\ninline feature 18 evaluation succeeded (count=60)\n"
            .to_string(),
    );
    ev.feed_log = Some("[feed] feature ready: 3840x2160 DLAA\n[feed] frame 1 delivered\n".to_string());
    let f = run(&st, &ev);
    assert!(f.iter().all(|x| x.level == Level::Okay), "{f:?}");
    assert!(f.iter().any(|x| x.text.contains("raise NR Intensity")));
}

// ───── more findings ─────

#[test]
fn a_hybrid_machine_names_its_gpus_and_the_preference() {
    let st = game(true, 64);
    let mut ev = Evidence::nothing_found();
    ev.reshade_log = Some(REGISTERED.to_string());
    ev.feed_log = Some("[feed] NVSDK_NGX_D3D12_Init -> 0xBAD00001\n".to_string());
    ev.hybrid_gpu = true;
    ev.gpu_names = vec!["Intel UHD".to_string(), "RTX 4070".to_string()];
    ev.exe_high_performance = true;
    ev.ngx_description = "NGX Core 1.2 present".to_string();
    ev.ngx_healthy = false;
    let f = run(&st, &ev);
    let gpu = f
        .iter()
        .find(|x| x.text.starts_with("More than one GPU vendor"))
        .unwrap_or_else(|| panic!("{f:?}"));
    assert!(gpu.text.contains("(Intel UHD, RTX 4070)"), "{}", gpu.text);
    assert!(gpu.text.contains("already set to high performance"), "{}", gpu.text);
    let ngx = f
        .iter()
        .find(|x| x.text.starts_with("NGX refused to initialise: [feed] NVSDK_NGX_D3D12_Init -> 0xBAD00001."))
        .unwrap_or_else(|| panic!("{f:?}"));
    assert!(ngx.text.contains("NGX Core 1.2 present. Fix that first"), "{}", ngx.text);
}

#[test]
fn another_exe_loaded_is_named() {
    let st = game(false, 64);
    let mut ev = Evidence::nothing_found();
    ev.reshade_log = Some(
        "Initializing crosire's ReShade loaded from 'C:\\g\\dxgi.dll' into 'C:\\g\\Other.exe' (0x1)\n"
            .to_string(),
    );
    let f = run(&st, &ev);
    assert!(
        f.iter().any(|x| x.level == Level::Warn
            && x.text.starts_with("ReShade loaded into Other.exe, but this install was set up for game.exe.")),
        "{f:?}"
    );
}

#[test]
fn the_bridge_log_is_read() {
    let st = game(false, 64);
    let mut ev = Evidence::nothing_found();
    ev.reshade_log = Some(REGISTERED.to_string());
    ev.bridge_log = Some("start\nframes: 120\n".to_string());
    let f = run(&st, &ev);
    assert!(f.iter().any(|x| x.level == Level::Okay && x.text.contains("delivering frames")));
    ev.bridge_log = Some("D3D12CreateDevice failed 0x887E0003 here\nstopped: no device\n".to_string());
    let f = run(&st, &ev);
    assert!(f.iter().any(|x| x.text == "The DX11 bridge stopped: stopped: no device"), "{f:?}");
    assert!(f.iter().any(|x| x.text.starts_with("D3D12CreateDevice failed 0x887E0003 here — 0x887E0003")
        && x.text.ends_with("Verify the game files.")), "{f:?}");
}

#[test]
fn version_keys_compare_by_number() {
    assert_eq!(version_key("0.15.1"), vec![0, 15, 1]);
    assert_eq!(version_key("1.2-rc3"), vec![1, 2, 0]);
    assert_eq!(version_key(""), vec![0]);
    assert!(version_key("0.9.1") < version_key("0.15.1"));
}

#[test]
fn upstream_failures_are_named() {
    let f = upstream_findings("Failed to load add-on from 'x\\nvngx.dll.addon64' with error code 1114!\n");
    assert_eq!(f.len(), 1);
    assert_eq!(
        f[0].text,
        "ReShade refused to load nvngx.dll.addon64 (Neural Upstream), error code 1114."
    );
    let f = upstream_findings("nothing\n");
    assert_eq!(f.len(), 1);
    assert_eq!(f[0].level, Level::Bad);
    assert!(f[0].text.starts_with("The Neural Upstream add-on never registered."));
    let f = upstream_findings("[NRPRE] addon registered\n[NRPRE] no NGX evaluate could be hooked\n");
    assert_eq!(f.len(), 2);
    assert!(f[1].text.starts_with("Neural Upstream could not hook"));
}
