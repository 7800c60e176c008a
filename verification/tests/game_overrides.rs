use dlss5_oneclick::game_overrides::{
    apply_to_cfg_text, find_override, override_for_game, override_log_line, path_matches, rt_likely_seed,
    stem_matches, GameOverride, UE_TAA_OFF_TIP,
};

#[test]
fn apply_patches_early_color() {
    let mut o = GameOverride::empty();
    o.early_color = Some(true);
    o.early_color_cand = Some(2);
    o.engine_velocity = Some(false);
    let cfg = "enabled=1\nwork_resolution=100\n";
    let out = apply_to_cfg_text(cfg, &o);
    assert!(out.contains("early_color=1"));
    assert!(out.contains("early_color_cand=2"));
    assert!(out.contains("engine_velocity=0"));
}

#[test]
fn apply_patches_cfg_lines() {
    let mut o = GameOverride::empty();
    o.work_resolution = Some(75);
    o.reset_mode = Some(1);
    o.light_stab = Some(true);
    let cfg = "enabled=1\nwork_resolution=100\nofa_grid=1\n";
    let out = apply_to_cfg_text(cfg, &o);
    assert!(out.contains("work_resolution=75"));
    assert!(out.contains("reset_mode=1"));
    assert!(out.contains("light_stab=1"));
}

#[test]
fn apply_replaces_in_place_and_appends_in_order() {
    let mut o = GameOverride::empty();
    o.work_resolution = Some(30);
    o.reset_mode = Some(2);
    o.light_stab_strength = Some("0.400".to_string());
    let out = apply_to_cfg_text("enabled=1\r\nWORK_RESOLUTION=100\n# note\n", &o);
    assert_eq!(
        out,
        "enabled=1\nwork_resolution=50\n# note\nreset_mode=2\nreset_every=0\nlight_stab_strength=0.400\n"
    );
    // An override that sets nothing keeps the lines and ends them.
    assert_eq!(apply_to_cfg_text("a=1", &GameOverride::empty()), "a=1\n");
}

#[test]
fn matching_by_stem_and_by_path() {
    let exe = "D:\\Games\\Gothic 3\\Gothic3.exe";
    assert!(stem_matches(exe, &vec!["gothic3".to_string()]));
    assert!(stem_matches(exe, &vec!["GOTHIC".to_string()]));
    assert!(!stem_matches(exe, &vec!["witcher3".to_string()]));
    assert!(path_matches(exe, &vec!["gothic 3\\".to_string()]));
    assert!(!path_matches(exe, &vec!["sims".to_string()]));

    let mut a = GameOverride::empty();
    a.match_exe = vec!["witcher3".to_string()];
    a.note = "w3".to_string();
    let mut b = GameOverride::empty();
    b.match_path = vec!["\\gothic 3\\".to_string()];
    b.note = "gothic by path".to_string();
    b.work_resolution = Some(100);
    let mut c = GameOverride::empty();
    c.match_exe = vec!["gothic3".to_string()];
    c.note = "gothic by exe".to_string();
    let list = vec![a, b, c];
    let found = find_override(&list, exe).expect("gothic");
    assert_eq!(found.note, "gothic by path");
    assert_eq!(found.work_resolution, Some(100));
    assert_eq!(found.match_path, vec!["\\gothic 3\\".to_string()]);
    assert_eq!(find_override(&list, "C:\\x\\witcher3.exe").map(|o| o.note), Some("w3".to_string()));
    assert!(find_override(&list, "C:\\x\\other.exe").is_none());
}

#[test]
fn the_log_line_names_the_override_and_the_taa_tip() {
    let mut o = GameOverride::empty();
    assert_eq!(override_log_line(&o), "game override applied");
    o.note = "Gothic 3".to_string();
    assert_eq!(override_log_line(&o), "game override: Gothic 3");
    o.taa_off = Some(true);
    assert_eq!(
        override_log_line(&o),
        format!("game override: Gothic 3 · {UE_TAA_OFF_TIP}")
    );
    o.setup_tip = Some("Turn TAA off; this tool does not edit Engine.ini.".to_string());
    assert_eq!(
        override_log_line(&o),
        "game override: Gothic 3 · Turn TAA off; this tool does not edit Engine.ini."
    );
}

#[test]
fn the_rt_likely_seed_strengthens_lightstab() {
    let o = rt_likely_seed();
    let out = apply_to_cfg_text("work_resolution=100\nlight_stab=0\n", &o);
    assert_eq!(
        out,
        "work_resolution=90\nlight_stab=1\nlight_stab_strength=0.400\nlight_stab_max_delta=0.080\nauto_profile_applied=0\n"
    );
}

#[test]
fn install_applies_the_first_match_to_an_existing_cfg() {
    let mut a = GameOverride::empty();
    a.match_exe = vec!["ghostrunner".to_string()];
    a.note = "Ghostrunner".to_string();
    a.taa_off = Some(true);
    a.early_color = Some(false);
    let mut b = GameOverride::empty();
    b.match_path = vec!["ghostrunner".to_string()];
    b.work_resolution = Some(60);
    let list = vec![a, b];
    let exe = "D:\\Games\\Ghostrunner\\Ghostrunner-Win64-Shipping.exe";
    let (text, line) = override_for_game(&list, exe, Some("enabled=1\n")).unwrap();
    assert_eq!(text, "enabled=1\nearly_color=0\n");
    assert_eq!(line, format!("game override: Ghostrunner · {UE_TAA_OFF_TIP}"));
    // No cfg yet, or nothing matching: nothing to do.
    assert!(override_for_game(&list, exe, None).is_none());
    assert!(override_for_game(&list, "C:\\x\\other.exe", Some("enabled=1\n")).is_none());
}

#[test]
fn the_feeder_reads_what_an_override_set() {
    let mut o = GameOverride::empty();
    o.ofa_grid = Some(3);
    o.engine_velocity = Some(false);
    o.reset_mode = Some(1);
    o.light_stab = Some(true);
    o.light_stab_strength = Some("0.400".to_string());
    o.work_resolution = Some(120);
    let out = apply_to_cfg_text("Work_Resolution=80\nengine_velocity=1\n# keep\n", &o);
    let r = dlss5_oneclick::feeder_cfg::read_knobs(&out);
    assert_eq!(r.ofa_grid, 3);
    assert!(!r.engine_velocity);
    assert_eq!(r.reset_mode, 1);
    assert!(r.light_stab);
    assert_eq!(r.light_stab_strength.as_deref(), Some("0.400"));
    assert_eq!(r.work_resolution, 100);
    assert!(out.contains("# keep\n"));
}

#[test]
fn patching_twice_changes_nothing_and_adds_only_missing_keys() {
    let mut o = GameOverride::empty();
    o.work_resolution = Some(75);
    o.early_color = Some(true);
    o.light_stab_strength = Some("0.400".to_string());
    let cfg = "enabled=1\r\nwork_resolution=100\n# note";
    let once = apply_to_cfg_text(cfg, &o);
    assert_eq!(once, "enabled=1\nwork_resolution=75\n# note\nearly_color=1\nlight_stab_strength=0.400\n");
    assert_eq!(apply_to_cfg_text(&once, &o), once);
    // Three lines before, two keys that had no line: five lines after.
    assert_eq!(once.lines().count(), 5);
    // An override that sets nothing only ends the text with a line break.
    assert_eq!(apply_to_cfg_text("a=1\r\nb=2", &GameOverride::empty()), "a=1\nb=2\n");
}

#[test]
fn patching_twice_holds_with_one_trailing_blank_line_and_a_later_spaced_key() {
    let mut o = GameOverride::empty();
    o.work_resolution = Some(80);
    o.reset_mode = Some(2);
    // The first line holding work_resolution is plain; a later one is spaced.
    let cfg = "work_resolution=100\n work_resolution = 60\n\n";
    let once = apply_to_cfg_text(cfg, &o);
    assert_eq!(once, "work_resolution=80\n work_resolution = 60\n\nreset_mode=2\nreset_every=0\n");
    assert_eq!(apply_to_cfg_text(&once, &o), once);
    let r = dlss5_oneclick::feeder_cfg::read_knobs(&once);
    assert_eq!(r.work_resolution, 80);
    assert_eq!(r.reset_mode, 2);
    // With nothing appended, one trailing blank line still gives a stable text.
    let o2 = GameOverride::empty();
    let t = apply_to_cfg_text("a=1\n\n", &o2);
    assert_eq!(t, "a=1\n");
    assert_eq!(apply_to_cfg_text(&t, &o2), t);
}
