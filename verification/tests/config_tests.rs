use rs_ddraw::config::{
    apply_affinity, bool_default, config_candidates, env_fps, get_bool, get_fixed_output, get_renderer,
    get_string, join_path, load, parent_dir, pick_config, EnvOverrides, ProfileText, RawSettings, Renderer, Settings, DMDFO_CENTER,
    DMDFO_DEFAULT, DMDFO_STRETCH,
};

fn text(s: &str) -> ProfileText {
    let mut buf: Vec<u8> = s.as_bytes().to_vec();
    let n = buf.len() as u32;
    buf.push(0);
    ProfileText { buf, n }
}

fn absent() -> ProfileText {
    ProfileText { buf: vec![0u8; 8], n: 0 }
}

fn raw_all_absent() -> RawSettings {
    RawSettings {
        maintain_aspect_ratio: absent(),
        windowboxing: absent(),
        stretch_to_fullscreen: absent(),
        renderer: absent(),
        primary_surface2tex: absent(),
        gl_finish: absent(),
        convert_on_gpu: absent(),
        vsync: absent(),
        single_proc_affinity: absent(),
        rgb555: absent(),
        gl_fence_sync: absent(),
        fixed_output: absent(),
        stretch_to_width: None,
        stretch_to_height: None,
        draw_fps: None,
        target_fps: None,
        monitor_edge_timer: None,
    }
}

fn defaults() -> Settings {
    Settings {
        maintain_aspect_ratio: true,
        windowboxing: false,
        stretch_to_fullscreen: false,
        stretch_to_width: 640,
        stretch_to_height: 480,
        draw_fps: false,
        renderer: Renderer::D3d9,
        auto_renderer: true,
        primary_surface2tex: false,
        gl_finish: false,
        convert_on_gpu: true,
        target_fps: 0,
        swap_interval: 0,
        single_proc_affinity: true,
        edge_timeout_ms: 250,
        rgb555: false,
        gl_fence_sync: false,
        fixed_output: DMDFO_STRETCH,
    }
}

#[test]
fn get_bool_accepts_yes_true_and_one() {
    assert!(get_bool("yes"));
    assert!(get_bool(" YES "));
    assert!(get_bool("True"));
    assert!(get_bool("1"));
    assert!(get_bool("\t1\n"));
}

#[test]
fn get_bool_rejects_other_values() {
    assert!(!get_bool("no"));
    assert!(!get_bool("0"));
    assert!(!get_bool(""));
    assert!(!get_bool("yess"));
    assert!(!get_bool("on"));
    assert!(!get_bool("11"));
}

#[test]
fn bool_default_texts() {
    assert_eq!(bool_default(true), "Yes");
    assert_eq!(bool_default(false), "No");
}

#[test]
fn get_renderer_names_and_auto() {
    assert_eq!(get_renderer("opengl", "auto"), (Renderer::OpenGl, false));
    assert_eq!(get_renderer(" GDI ", "auto"), (Renderer::Gdi, false));
    assert_eq!(get_renderer("D3D9", "auto"), (Renderer::D3d9, false));
    assert_eq!(get_renderer("auto", "auto"), (Renderer::D3d9, true));
    assert_eq!(get_renderer("Auto", "opengl"), (Renderer::OpenGl, true));
    assert_eq!(get_renderer("vulkan", "opengl"), (Renderer::D3d9, false));
}

#[test]
fn get_fixed_output_values() {
    assert_eq!(get_fixed_output("default"), DMDFO_DEFAULT);
    assert_eq!(get_fixed_output(" Center"), DMDFO_CENTER);
    assert_eq!(get_fixed_output("STRETCH "), DMDFO_STRETCH);
    assert_eq!(get_fixed_output("zoom"), DMDFO_DEFAULT);
}

#[test]
fn get_string_uses_default_when_nothing_read() {
    assert_eq!(get_string(&[0u8; 4], 0, "auto"), "auto");
}

#[test]
fn get_string_stops_at_count_and_nul() {
    assert_eq!(get_string(b"opengl\0xx", 6, "auto"), "opengl");
    assert_eq!(get_string(b"gdi\0junk", 8, "auto"), "gdi");
    assert_eq!(get_string(b"d3d9extra", 4, "auto"), "d3d9");
}

#[test]
fn get_string_replaces_invalid_utf8() {
    let s = get_string(&[0x61, 0xFF, 0x62, 0], 3, "x");
    assert_eq!(s, "a\u{FFFD}b");
    assert_eq!(get_string(&[0x41, 0xC0, 0x42], 3, "x"), "A\u{FFFD}B");
    assert_eq!(get_string(&[0x68, 0xC3, 0xA9, 0], 3, "x"), "h\u{e9}");
}

#[test]
fn env_fps_accepts_positive_integers_only() {
    assert_eq!(env_fps(&Some(" 60 ".to_string())), Some(60));
    assert_eq!(env_fps(&Some("+30".to_string())), Some(30));
    assert_eq!(env_fps(&Some("0".to_string())), None);
    assert_eq!(env_fps(&Some("-5".to_string())), None);
    assert_eq!(env_fps(&Some("sixty".to_string())), None);
    assert_eq!(env_fps(&Some("99999999999".to_string())), None);
    assert_eq!(env_fps(&None), None);
}

#[test]
fn load_with_nothing_set_keeps_defaults() {
    let prev = defaults();
    let raw = raw_all_absent();
    let env = EnvOverrides { draw_fps: None, target_fps: None };
    let s = load(&prev, &raw, &env);
    assert_eq!(s, prev);
}

#[test]
fn load_reads_keys() {
    let prev = defaults();
    let mut raw = raw_all_absent();
    raw.windowboxing = text("yes");
    raw.maintain_aspect_ratio = text("false");
    raw.renderer = text("opengl");
    raw.vsync = text("true");
    raw.rgb555 = text("1");
    raw.fixed_output = text("center");
    raw.stretch_to_width = Some(1280);
    raw.stretch_to_height = Some(960);
    raw.target_fps = Some(-3);
    raw.draw_fps = Some(1);
    raw.monitor_edge_timer = Some(100);
    let env = EnvOverrides { draw_fps: None, target_fps: None };
    let s = load(&prev, &raw, &env);
    assert!(s.windowboxing);
    assert!(!s.maintain_aspect_ratio);
    assert_eq!(s.renderer, Renderer::OpenGl);
    assert!(!s.auto_renderer);
    assert_eq!(s.swap_interval, 1);
    assert!(s.rgb555);
    assert_eq!(s.fixed_output, DMDFO_CENTER);
    assert_eq!(s.stretch_to_width, 1280);
    assert_eq!(s.stretch_to_height, 960);
    assert_eq!(s.target_fps, 0);
    assert!(s.draw_fps);
    assert_eq!(s.edge_timeout_ms, 100);
}

#[test]
fn environment_overrides_settings_file() {
    let prev = defaults();
    let mut raw = raw_all_absent();
    raw.target_fps = Some(30);
    raw.draw_fps = Some(0);
    let env = EnvOverrides { draw_fps: Some("yes".to_string()), target_fps: Some("75".to_string()) };
    let s = load(&prev, &raw, &env);
    assert_eq!(s.target_fps, 75);
    assert!(s.draw_fps);

    let env_off = EnvOverrides { draw_fps: Some("no".to_string()), target_fps: Some("bad".to_string()) };
    let s2 = load(&prev, &raw, &env_off);
    assert_eq!(s2.target_fps, 30);
    assert!(!s2.draw_fps);
}

#[test]
fn affinity_masks() {
    assert_eq!(apply_affinity(Some((3, 15)), false, (1, 1)), (3, 15));
    assert_eq!(apply_affinity(None, false, (1, 1)), (1, 1));
    assert_eq!(apply_affinity(Some((3, 15)), true, (1, 1)), (0, 0));
}

#[test]
fn join_path_strips_backslashes() {
    assert_eq!(join_path("C:\\Games\\", "ddraw.ini"), "C:\\Games\\ddraw.ini");
    assert_eq!(join_path("C:\\Games\\\\", "x"), "C:\\Games\\x");
    assert_eq!(join_path("C:\\Games", "x"), "C:\\Games\\x");
}

#[test]
fn config_candidates_order() {
    let c = config_candidates(Some("C:\\dir\\"));
    assert_eq!(c, vec![
        "C:\\dir\\rs-ddraw.ini".to_string(),
        "C:\\dir\\ddraw.ini".to_string(),
        "rs-ddraw.ini".to_string(),
        "ddraw.ini".to_string(),
    ]);
    let d = config_candidates(None);
    assert_eq!(d, vec!["rs-ddraw.ini".to_string(), "ddraw.ini".to_string()]);
}

#[test]
fn settings_file_is_first_existing_candidate() {
    let c = config_candidates(Some("C:\\dir"));
    assert_eq!(pick_config(&c, &[false, true, true, false]), "C:\\dir\\ddraw.ini");
    assert_eq!(pick_config(&c, &[false, false, false, true]), "ddraw.ini");
    assert_eq!(pick_config(&c, &[false, false, false, false]), "rs-ddraw.ini");
    assert_eq!(pick_config(&[], &[]), "rs-ddraw.ini");
}

#[test]
fn module_directory_of_path() {
    assert_eq!(parent_dir("C:\\Games\\RA2\\ddraw.dll"), Some("C:\\Games\\RA2".to_string()));
    assert_eq!(parent_dir("C:/x/ddraw.dll"), Some("C:/x".to_string()));
    assert_eq!(parent_dir("C:\\ddraw.dll"), Some("C:".to_string()));
    assert_eq!(parent_dir("ddraw.dll"), None);
}
