use dlss5_oneclick::feeder_cfg::{
    cfg_path, fx_b, fx_uniforms, get_i, get_s, knobs_cfg_text, parse_kv, read_knobs, set_line,
    CfgKnobs,
};
use dlss5_oneclick::perf;

fn knobs() -> CfgKnobs {
    CfgKnobs {
        work_resolution: 85,
        work_upscale: 0,
        work_sharpness: "0.30".to_string(),
        ofa_enabled: true,
        ofa_grid: 2,
        ofa_perf: 10,
        reset_mode: 1,
        light_stab: false,
        light_stab_strength: "0.350".to_string(),
        engine_velocity: true,
        evaluate_stride: 1,
        log_detail: 1,
    }
}

#[test]
fn cfg_text_roundtrip() {
    let text = knobs_cfg_text("", &knobs());
    let back = read_knobs(&text);
    assert_eq!(back.work_resolution, 85);
    assert!(back.ofa_enabled);
    assert_eq!(back.reset_mode, 1);
    assert_eq!(back.work_sharpness.as_deref(), Some("0.30"));
    assert_eq!(back.light_stab_strength.as_deref(), Some("0.350"));
    assert!(text.contains("reset_every=1\n"));
    assert!(text.contains("quality_preset=custom\n"));
    assert!(text.ends_with("auto_profile_applied=1\n"));
}

#[test]
fn writing_keeps_other_lines_and_clamps() {
    let mut k = knobs();
    k.work_resolution = 10;
    k.evaluate_stride = 9;
    let text = knobs_cfg_text("# header\nenabled=1\nWork_Resolution=70\n", &k);
    assert!(text.starts_with("# header\nenabled=1\nwork_resolution=50\nwork_upscale=0\n"));
    assert!(text.contains("evaluate_stride=4\n"));
    let back = read_knobs(&text);
    assert_eq!(back.work_resolution, 50);
    assert_eq!(back.evaluate_stride, 4);
}

#[test]
fn reading_defaults_and_clamps() {
    let r = read_knobs("");
    assert_eq!(r.work_resolution, 100);
    assert_eq!(r.ofa_grid, 2);
    assert_eq!(r.ofa_perf, 10);
    assert_eq!(r.reset_mode, 2);
    assert!(r.engine_velocity);
    assert!(!r.light_stab);
    assert_eq!(r.evaluate_stride, 1);
    assert_eq!(r.work_sharpness, None);
    assert_eq!(r.auto_profile, "");
    let r = read_knobs(" WORK_RESOLUTION = 20 \n; work_upscale=5\nofa_grid=x\nauto_profile=fast\nevaluate_stride=-3\n");
    assert_eq!(r.work_resolution, 50);
    assert_eq!(r.work_upscale, 0);
    assert_eq!(r.ofa_grid, 2);
    assert_eq!(r.auto_profile, "fast");
    assert_eq!(r.evaluate_stride, 1);
}

#[test]
fn key_value_lines_are_parsed() {
    let kv = parse_kv("# c\n\n a = 1 \nb=2=3\nnoequals\n;x=1\r\nc=\n");
    assert_eq!(
        kv,
        vec![
            ("a".to_string(), "1".to_string()),
            ("b".to_string(), "2=3".to_string()),
            ("c".to_string(), "".to_string()),
        ]
    );
    assert_eq!(get_i(&kv, "A", 7), 1);
    assert_eq!(get_i(&kv, "b", 7), 7);
    assert_eq!(get_i(&kv, "z", 7), 7);
    assert_eq!(get_s(&kv, "B"), "2=3");
    assert_eq!(get_s(&kv, "z"), "");
}

#[test]
fn set_line_replaces_or_appends() {
    let mut lines = vec!["A=1".to_string(), "b=2".to_string()];
    set_line(&mut lines, "a", "5".to_string());
    assert_eq!(lines, vec!["a=5".to_string(), "b=2".to_string()]);
    set_line(&mut lines, "c", "3".to_string());
    assert_eq!(lines, vec!["a=5".to_string(), "b=2".to_string(), "c=3".to_string()]);
}

#[test]
fn fx_switches_and_uniforms() {
    assert!(fx_b(Some("1"), false));
    assert!(fx_b(Some("TRUE"), false));
    assert!(!fx_b(Some("0"), true));
    assert!(fx_b(None, true));
    let u = fx_uniforms(true, "0.035".into(), false, "0.040".into(), true, "0.018".into());
    assert_eq!(u[0], ("APPEARANCE_MASK", "1".to_string()));
    assert_eq!(u[3], ("LIGHTING_THRESHOLD", "0.040".to_string()));
    assert_eq!(u[2], ("LIGHTING_MASK", "0".to_string()));
}

#[test]
fn file_paths_join_the_game_folder() {
    assert_eq!(cfg_path("C:\\Games\\X"), "C:\\Games\\X\\dlss5-feed.cfg");
    assert_eq!(cfg_path("/g/"), "/g/dlss5-feed.cfg");
    assert_eq!(cfg_path("D:"), "D:dlss5-feed.cfg");
    assert_eq!(cfg_path(""), "dlss5-feed.cfg");
    assert_eq!(perf::path("C:\\g"), "C:\\g\\dlss5-perf.jsonl");
}

#[test]
fn an_estimate_needs_enough_samples_and_weighs_five() {
    assert_eq!(perf::neighbour_count(0), None);
    assert_eq!(perf::neighbour_count(3), None);
    assert_eq!(perf::neighbour_count(7), None);
    assert_eq!(perf::neighbour_count(8), Some(5));
    assert_eq!(perf::neighbour_count(20), Some(5));
}

#[test]
fn roundtrip_cfg() {
    let k = CfgKnobs {
        work_resolution: 85,
        ofa_enabled: true,
        reset_mode: 1,
        ..knobs()
    };
    let text = knobs_cfg_text("", &k);
    let back = read_knobs(&text);
    assert_eq!(back.work_resolution, 85);
    assert!(back.ofa_enabled);
    assert_eq!(back.reset_mode, 1);
    let fx = fx_uniforms(true, format!("{:.3}", 0.033f32), true, "0.040".into(), true, "0.018".into());
    let threshold: f32 = fx[1].1.parse().unwrap();
    assert!((threshold - 0.033).abs() < 0.001);
}

#[test]
fn needs_enough_samples() {
    let few = 3usize;
    assert!(perf::neighbour_count(few).is_none());
}

#[test]
fn saved_masks_read_back_whatever_the_default() {
    let u = fx_uniforms(true, "0.035".into(), false, "0.040".into(), true, "0.018".into());
    for default in [true, false] {
        assert!(fx_b(Some(&u[0].1), default));
        assert!(!fx_b(Some(&u[2].1), default));
        assert!(fx_b(Some(&u[4].1), default));
    }
    assert_eq!(u[1].1, "0.035");
}
