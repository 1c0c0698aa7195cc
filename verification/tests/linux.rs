use moonclip::api::AudioDevice;
use moonclip::detect::parsers::wine_exe_from_cmdline;
use moonclip::detect::types::WindowInfo;
use moonclip::json::Json;
use moonclip::linux::binary::{
    fix_caps, has_capability, kms_server_path, kms_sibling, pick_engine, pick_ffmpeg, sidecar_name,
    FoundBinary,
};
use moonclip::linux::devices::{
    match_device_id, parse_devices, read_listed, require_devices, resolve_obs_device_id,
};
use moonclip::linux::engine::{
    backend_name, clips_dir_in, conceal_file, conceal_plugin, conceal_retry, conceal_script,
    config_root, config_root_in, default_clips_dir, disables_dmabuf, game_icons_dir,
    game_icons_dir_in, is_conceal_file,
    kde_session, legacy_default_clips_dir, orphan_pids, parent_from_stat, script_id,
    LinuxPlatform, ProcessInfo, OBS_REL,
};
use moonclip::linux::gsr::{
    audio_tracks, newest_modified_after, recorder_args, recorder_save, resolve_binary, scale_arg,
    which_gsr, FileStamp, RecorderRequest, RecorderSave,
};
use moonclip::linux::obs;
use moonclip::linux::scan::{
    add_heroic_titles, find_window, heroic_dirs, manifest_dirs, prism_dirs, read_cmdline, scan,
    steam_lists, steam_roots, window_class, window_name, RawProcess,
};
use moonclip::linux::video::{
    list_monitors, offered_codecs, pick_vendor, resolve_monitor, vendor_from_id, CardInfo,
};
use moonclip::os::{detect_candidates, obs_config_root};
use moonclip::render::FORBIDDEN_SOURCE_ID;
use moonclip::settings::TextMap;

/// The engine identity must never leak the upstream product name.
#[test]
fn engine_relative_path_is_neutral() {
    assert!(
        !OBS_REL.to_lowercase().contains("obs"),
        "engine path leaks the upstream name: {OBS_REL}"
    );
}

fn p() -> LinuxPlatform {
    LinuxPlatform
}

#[test]
fn engine_encoder_ids_cover_linux_blocks() {
    assert_eq!(
        p().encoder_id("nvidia", "h264", "gpu"),
        Some("obs_nvenc_h264_tex")
    );
    assert_eq!(p().encoder_id("intel", "h264", "gpu"), Some("obs_qsv11_v2"));
    assert_eq!(p().encoder_id("amd", "h264", "gpu"), Some("ffmpeg_vaapi"));
    // VAAPI ids are codec-specific: the H.264 id must never serve HEVC/AV1.
    assert_eq!(
        p().encoder_id("amd", "hevc", "gpu"),
        Some("hevc_ffmpeg_vaapi")
    );
    assert_eq!(p().encoder_id("amd", "av1", "gpu"), Some("av1_ffmpeg_vaapi"));
    assert_eq!(p().encoder_id("nvidia", "h264", "cpu"), Some("obs_x264"));
}

#[test]
fn engine_video_source_is_portal_never_game() {
    let (id, _) = p().video_source("", "");
    assert_eq!(id, "pipewire-desktop-capture-source");
    let (id, _) = p().video_source("", "Game");
    assert_eq!(id, "pipewire-window-capture-source");
    assert_ne!(id, FORBIDDEN_SOURCE_ID);
}

#[test]
fn config_lives_inside_moonclip_data_dir() {
    let root = config_root().unwrap();
    let s = String::from_utf8_lossy(&root);
    assert!(s.contains("MoonClip"), "{s}");
    assert!(s.ends_with("obs/config"), "{s}");
    assert!(!s.ends_with(".config/obs-studio"), "{s}");
}

#[test]
fn engine_launch_args_do_not_force_config_dir() {
    for tray in [true, false] {
        let args = p().obs_launch_args("MoonClip", "MoonClip", tray);
        let s = args.join(" ");
        assert!(s.contains("--multi"), "{s}");
        // Neither flag exists on Linux OBS; isolation is XDG_CONFIG_HOME only.
        assert!(!s.contains("--config-dir"), "{s}");
        assert!(!s.contains("--portable"), "{s}");
    }
}

/// The launch command line must never name the upstream product.
#[test]
fn launch_args_have_no_upstream_name() {
    let args = p().obs_launch_args("MoonClip", "MoonClip", true);
    let s = args.join(" ").to_lowercase();
    assert!(!s.contains("obs"), "{s}");
}

#[test]
fn launch_env_isolates_config() {
    let rt = p()
        .prepare_runtime(b"/usr/bin/obs", Ok(b"/cfg".to_vec()))
        .unwrap_or_else(|e| panic!("{e}"));
    assert!(rt.extra_args.is_empty(), "{:?}", rt.extra_args);
    let env = p().obs_launch_env(b"/home/u/.local/share/MoonClip/obs/config");
    assert_eq!(
        env,
        vec![
            (
                "XDG_CONFIG_HOME".to_string(),
                "/home/u/.local/share/MoonClip/obs/config".to_string()
            ),
            ("QT_NO_XDG_DESKTOP_PORTAL".to_string(), "1".to_string()),
        ]
    );
}

fn q() -> obs::LinuxPlatform {
    obs::LinuxPlatform
}

#[test]
fn obs_encoder_ids_cover_linux_blocks() {
    assert_eq!(
        q().encoder_id("nvidia", "h264", "gpu"),
        Some("obs_nvenc_h264_tex")
    );
    assert_eq!(q().encoder_id("intel", "h264", "gpu"), Some("obs_qsv11_v2"));
    assert_eq!(q().encoder_id("amd", "h264", "gpu"), Some("ffmpeg_vaapi"));
    // VAAPI ids are codec-specific: the H.264 id must never serve HEVC/AV1.
    assert_eq!(
        q().encoder_id("amd", "hevc", "gpu"),
        Some("hevc_ffmpeg_vaapi")
    );
    assert_eq!(q().encoder_id("amd", "av1", "gpu"), Some("av1_ffmpeg_vaapi"));
    assert_eq!(q().encoder_id("nvidia", "h264", "cpu"), Some("obs_x264"));
}

#[test]
fn obs_video_source_is_portal_never_game() {
    let (id, _) = q().video_source("", "");
    assert_eq!(id, "pipewire-desktop-capture-source");
    let (id, _) = q().video_source("", "Game");
    assert_eq!(id, "pipewire-window-capture-source");
    assert_ne!(id, FORBIDDEN_SOURCE_ID);
}

#[test]
fn runtime_lives_inside_moonclip_data_dir() {
    let root = obs::runtime_root().unwrap();
    let s = String::from_utf8_lossy(&root);
    assert!(s.contains("MoonClip"), "{s}");
    assert!(!s.ends_with(".config/obs-studio"), "{s}");
    assert_eq!(obs::config_root().unwrap(), [root.as_slice(), b"/config"].concat());
}

#[test]
fn obs_launch_args_do_not_force_config_dir() {
    let s = q().obs_launch_args("MoonClip", "MoonClip").join(" ");
    assert!(s.contains("--multi"), "{s}");
    assert!(!s.contains("--config-dir"), "{s}");
}

#[test]
fn system_paths_are_detected() {
    assert!(obs::is_system_path("/usr/bin/obs"));
    assert!(obs::is_system_path("/var/lib/flatpak/app/obs"));
    assert!(!obs::is_system_path("/home/u/.local/share/MoonClip/obs/bin/obs"));
    assert!(!obs::is_system_path("/tmp/obs-portable/bin/obs"));
}

#[test]
fn prepare_runtime_falls_back_for_system_obs() {
    let rt = q().prepare_runtime(b"/usr/bin/obs", b"/staged/bin/obs", b"/cfg");
    assert!(!rt.portable);
    assert!(rt.extra_args.iter().any(|a| a == "--config-dir"));
}

#[test]
fn portable_copy_and_marker_roundtrip() {
    let fp = obs::obs_build_fingerprint("/src/bin/64bit/obs64.exe", 3, 1_700_000_000);
    assert!(fp.contains("obs64.exe"), "{fp}");
    assert!(!obs::marker_matches(None, &fp));
    assert!(obs::marker_matches(Some(&fp), &fp));
    assert!(!obs::marker_matches(Some(&fp), "something else"));
}

#[test]
fn a_stale_copy_is_made_again() {
    let stage = |there, marker: Option<&str>| {
        obs::stage_runtime(b"/data/obs", "/opt/app/obs/bin/obs", there, marker, "fp")
            .unwrap_or_else(|e| panic!("{e}"))
    };
    assert!(matches!(stage(true, Some("fp")), obs::StageStep::Ready(_)));
    assert!(matches!(stage(true, Some("old")), obs::StageStep::Copy(_)));
    assert!(matches!(stage(false, Some("fp")), obs::StageStep::Copy(_)));
    assert!(matches!(stage(true, None), obs::StageStep::Copy(_)));
}

#[test]
fn sysfs_ids_map() {
    assert_eq!(vendor_from_id("0x10de\n"), "nvidia");
    assert_eq!(vendor_from_id("0x1002\n"), "amd");
    assert_eq!(vendor_from_id("0x8086\n"), "intel");
    assert_eq!(vendor_from_id("0x1234\n"), "unknown");
}

const SINKS: &str = r#"[
    {"index": 0, "name": "alsa_output.pci-0000_00_1f.3.analog-stereo", "description": "Built-in Audio Analog Stereo"}
]"#;
const SOURCES: &str = r#"[
    {"index": 0, "name": "alsa_output.pci-0000_00_1f.3.analog-stereo.monitor", "description": "Monitor of Built-in Audio", "monitor_of_sink": 0},
    {"index": 1, "name": "alsa_input.usb-Mic-00.analog-stereo", "description": "USB Mic", "monitor_of_sink": null}
]"#;

fn dev(id: &str, desc: &str, kind: &str) -> AudioDevice {
    AudioDevice {
        id: id.into(),
        description: desc.into(),
        kind: kind.into(),
    }
}

#[test]
fn parser_lists_defaults_sinks_and_real_mics() {
    let devices = parse_devices(SINKS, SOURCES, Some("alsa_output"), Some("alsa_input"));
    let ids: Vec<&str> = devices.iter().map(|d| d.id.as_str()).collect();
    assert_eq!(ids[0], "default_output");
    assert_eq!(ids[1], "default_input");
    assert!(ids.contains(&"alsa_output.pci-0000_00_1f.3.analog-stereo"));
    assert!(ids.contains(&"alsa_input.usb-Mic-00.analog-stereo"));
    assert!(!ids.contains(&"alsa_output.pci-0000_00_1f.3.analog-stereo.monitor"));
    assert_eq!(devices[0].kind, "desktop");
    assert_eq!(devices[1].kind, "mic");
}

#[test]
fn parser_survives_empty_and_garbage() {
    assert_eq!(parse_devices("", "", None, None).len(), 2);
    assert_eq!(parse_devices("not json", "[]", None, None).len(), 2);
}

fn sink_ids(sinks: &str) -> Vec<String> {
    parse_devices(sinks, "[]", None, None)
        .into_iter()
        .skip(2)
        .map(|d| format!("{}={}", d.id, d.description))
        .collect()
}

#[test]
fn a_listing_is_read_field_by_field() {
    assert_eq!(
        sink_ids(r#" [ {"name":"a","description":"A"} , {"name":"b"}, ["c","C"], ["d"] ] "#),
        ["a=A", "b=", "c=C", "d="]
    );
    // Separators and brackets inside texts are no syntax, and keys may be escaped.
    assert_eq!(sink_ids(r#"[{"n\u0061me":"x,]}:\"y","other":"}"}]"#), ["x,]}:\"y="]);
    // A field that counts may stand only once, however it is written.
    assert!(sink_ids(r#"[{"name":"a","name":"b"}]"#).is_empty());
    assert!(sink_ids(r#"[{"name":"a"},{"name":"b","n\u0061me":"c"}]"#).is_empty());
    assert!(sink_ids(r#"[{"name":"a","description":"x","description":"y"}]"#).is_empty());
    // What else stands there is skipped unread.
    assert_eq!(sink_ids(r#"[{"x":1,"x":1e999,"name":"a","y":"\ud800"}]"#), ["a="]);
    assert!(sink_ids(r#"[{"name":"a"},{"description":"no name"}]"#).is_empty());
    assert!(sink_ids(r#"[{"name":5}]"#).is_empty());
    assert!(sink_ids(r#"[["a","A","more"]]"#).is_empty());
    assert!(sink_ids(r#"[{"name":"a"},]"#).is_empty());
    assert!(sink_ids(r#"{"name":"a"}"#).is_empty());
    // A list, an entry and a value may nest 127 deep together.
    let deep = |n: usize| {
        let value = format!("{}{}", "[".repeat(n), "]".repeat(n));
        format!(r#"[{{"name":"m"}},{{"name":"t","monitor_of_sink":{value}}}]"#)
    };
    assert_eq!(parse_devices("[]", &deep(125), None, None).len(), 3);
    assert_eq!(parse_devices("[]", &deep(126), None, None).len(), 2);
    // What is skipped may nest deeper.
    let skipped = deep(300).replace("monitor_of_sink", "other");
    assert_eq!(parse_devices("[]", &skipped, None, None).len(), 4);
    let taps = r#"[{"name":"m","monitor_of_sink":null},{"name":"t","monitor_of_sink":{"id":1}}]"#;
    let mics = parse_devices("[]", taps, None, None);
    assert_eq!(mics.len(), 3);
    assert_eq!((mics[2].id.as_str(), mics[2].kind.as_str()), ("m", "mic"));
}

#[test]
fn entries_are_described_by_their_fields() {
    let text = |s: &str| Some(Ok(Json::Str(s.to_string())));
    let l = read_listed(&vec![text("a"), None]).unwrap();
    assert_eq!((l.name.as_str(), l.description.as_str(), l.monitor), ("a", "", false));
    let l = read_listed(&vec![text("a"), text("A"), Some(Ok(Json::Unsigned(0)))]).unwrap();
    assert_eq!((l.description.as_str(), l.monitor), ("A", true));
    assert!(!read_listed(&vec![text("a"), None, Some(Ok(Json::Null))]).unwrap().monitor);
    assert!(read_listed(&vec![None, text("A")]).is_none());
    assert!(read_listed(&vec![text("a"), Some(Ok(Json::Null))]).is_none());
    assert!(read_listed(&vec![text("a"), None, Some(Err("bad".to_string()))]).is_none());
}

#[test]
fn magic_ids_pass_through() {
    assert_eq!(match_device_id("default_output", &[], true), "default");
    assert_eq!(match_device_id("", &[], true), "default");
    assert_eq!(
        match_device_id("alsa_input.usb-Mic", &[], false),
        "alsa_input.usb-Mic"
    );
}

#[test]
fn legacy_names_and_descriptions_resolve() {
    let devices = vec![
        dev("default_output", "alsa_output", "desktop"),
        dev("default_input", "alsa_input", "mic"),
        dev(
            "alsa_output.pci-0000_00_1f.3.analog-stereo",
            "Built-in Audio Analog Stereo",
            "desktop",
        ),
        dev("alsa_input.usb-Mic-00.analog-stereo", "USB Mic", "mic"),
    ];
    assert_eq!(
        match_device_id("alsa_output.pci-0000_00_1f.3.analog-stereo", &devices, true),
        "alsa_output.pci-0000_00_1f.3.analog-stereo"
    );
    assert_eq!(
        match_device_id("Built-in Audio Analog Stereo", &devices, true),
        "alsa_output.pci-0000_00_1f.3.analog-stereo"
    );
    assert_eq!(
        match_device_id("USB Mic", &devices, false),
        "alsa_input.usb-Mic-00.analog-stereo"
    );
    assert_eq!(match_device_id("default_output", &devices, true), "default");
    assert_eq!(match_device_id("Speakers (USB)", &devices, true), "default");
}

fn raw(pid: u32, comm: &str, cmdline: &[u8]) -> RawProcess {
    RawProcess {
        pid,
        comm: Some(comm.to_string()),
        cmdline: cmdline.to_vec(),
        exe: None,
        stat: None,
        environ: None,
        cgroup: None,
        open_files: vec![],
        window: None,
    }
}

#[test]
fn fixture_scan_classifies_candidates() {
    // 1111: plain GPU app with Steam env + X11 window.
    let mut steam = raw(1111, "Terraria", b"./Terraria\0");
    steam.stat = Some("1111 (Terraria) S 1 1111 1111 0 -1".to_string());
    steam.environ = Some(b"PATH=/usr/bin\0SteamAppId=105600\0".to_vec());
    steam.cgroup = Some("0::/user.slice/user-1000.slice/session-2.scope".to_string());
    steam.exe = Some("/games/Terraria".to_string());
    steam.open_files = vec!["/dev/dri/renderD128".to_string()];
    let windows = vec![WindowInfo {
        id: 0x3a00007,
        name: "Terraria".to_string(),
        class: "terraria".to_string(),
        wm_pid: 1111,
    }];
    steam.window = find_window(&windows, 1111);

    // 2222: compositor (blacklisted).
    let compositor = raw(2222, "kwin_wayland", b"/usr/bin/kwin_wayland\0--no-lockscreen\0");
    // 3333: kernel thread (empty cmdline).
    let kernel = raw(3333, "kworker/0:1", b"");
    // 4444: Wine process running a real .exe.
    let mut wine = raw(
        4444,
        "wine-preloader",
        b"Z:\\games\\eldenring.exe\0steam.exe\0-novid\0",
    );
    wine.stat = Some("4444 (wine-preloader) S 1 4444 4444 0 -1".to_string());
    wine.exe = Some("/usr/bin/wine-preloader".to_string());
    wine.open_files = vec!["/dev/nvidia0".to_string()];
    // 5555: Wine plumbing (must be skipped).
    let server = raw(5555, "wineserver", b"wineserver\0");

    let found = scan(&vec![steam, compositor, kernel, wine, server]);
    assert_eq!(found.len(), 2, "only the two games must survive");
    let game = found.iter().find(|c| c.pid == 1111).unwrap();
    assert!(game.uses_gpu);
    assert!(!game.is_wine);
    assert_eq!(game.steam_app_id, Some(105600));
    assert_eq!(game.window.as_ref().unwrap().class, "terraria");
    assert_eq!(game.exe_basename(), "terraria");
    assert_eq!(game.fallback_title(), "Terraria");

    let wine = found.iter().find(|c| c.pid == 4444).unwrap();
    assert!(wine.is_wine);
    assert!(wine.uses_gpu);
    assert_eq!(
        wine_exe_from_cmdline(&wine.cmdline).as_deref(),
        Some("Z:\\games\\eldenring.exe")
    );
}

#[test]
fn manifest_lookups_from_fixtures() {
    let mut titles = TextMap::new();
    add_heroic_titles(
        &mut titles,
        r#"{ "Terraria": { "title": "Terraria", "executable": "Terraria.exe" } }"#,
    );
    assert_eq!(
        titles.get("terraria.exe").map(String::as_str),
        Some("Terraria")
    );
    let acf = "\"AppState\"\n{\n\t\"appid\"\t\t\"105600\"\n\t\"name\"\t\t\"Terraria\"\n}";
    assert_eq!(
        moonclip::detect::parsers::parse_acf(acf),
        Some((105600, "Terraria".to_string()))
    );
    assert_eq!(
        moonclip::detect::parsers::prism_name("MiMundo", Some("name=Mi Mundo\n")),
        "Mi Mundo"
    );
}

fn stamp(path: &str, extension: &str, modified_ms: i64) -> FileStamp {
    FileStamp {
        path: path.to_string(),
        extension: Some(extension.to_string()),
        is_file: true,
        modified_ms: Some(modified_ms),
    }
}

#[test]
fn newest_modified_after_filters_by_time() {
    let now = 1_000_000;
    let files = vec![
        stamp("/c/Replay_test.mp4", "mp4", now),
        stamp("/c/thumb_test.jpg", "jpg", now),
    ];
    assert_eq!(newest_modified_after(&files, now - 60_000), Some(0));
    assert_eq!(newest_modified_after(&files, now + 60_000), None);
}

#[test]
fn the_newest_of_several_clips_is_taken() {
    let files = vec![
        stamp("/c/a.mp4", "mp4", 10),
        stamp("/c/b.mp4", "mp4", 30),
        stamp("/c/c.mp4", "mp4", 20),
    ];
    assert_eq!(newest_modified_after(&files, 0), Some(1));
}

#[test]
fn paths_live_in_their_directories() {
    assert_eq!(
        config_root_in(Some(b"/home/u/.local/share")).unwrap(),
        b"/home/u/.local/share/MoonClip/obs/config"
    );
    // A directory that is no text stays as it is.
    assert_eq!(config_root_in(Some(b"/d\xff/")).unwrap(), b"/d\xff/MoonClip/obs/config");
    assert_eq!(game_icons_dir_in(Some(b"/d\xff")).unwrap(), b"/d\xff/MoonClip/icons");
    assert!(config_root_in(None).is_err());
    assert!(game_icons_dir_in(None).is_none());
    assert_eq!(clips_dir_in(Some(b"/home/u/Videos")), b"/home/u/Videos/MoonClip");
    assert_eq!(clips_dir_in(None), b"MoonClip");
    assert!(default_clips_dir().ends_with(b"MoonClip"));
    assert!(game_icons_dir().unwrap().ends_with(b"MoonClip/icons"));
    let dir = dirs::data_local_dir().unwrap().into_os_string().into_encoded_bytes();
    assert_eq!(config_root(), config_root_in(Some(&dir)));
    assert_eq!(p().obs_launch_env(b"/cfg\xff")[0].1, "/cfg\u{fffd}");
    assert_eq!(backend_name(), "obs");
    assert!(legacy_default_clips_dir().is_none());
    assert_eq!(obs_config_root(), config_root());
    let (failed, message) = match p().prepare_runtime(b"/usr/bin/obs", Err("no data".to_string())) {
        Ok(_) => (false, String::new()),
        Err(e) => (true, e),
    };
    assert!(failed && message == "no data");
}

#[test]
fn command_lines_survive_broken_text() {
    assert_eq!(read_cmdline(b"a\0b c\0"), ["a", "b c"]);
    assert_eq!(read_cmdline(b"a\xff\0"), ["a\u{fffd}"]);
    assert!(read_cmdline(b"").is_empty());
}

#[test]
fn window_texts_are_read() {
    assert_eq!(window_class(b"steam_app_1\0Game\0"), "Game");
    assert_eq!(window_name(&Some(b"Title".to_vec()), &None), "Title");
    assert_eq!(window_name(&None, &Some(b"Plain".to_vec())), "Plain");
    assert_eq!(window_name(&None, &None), "");
    assert!(find_window(&vec![], 1).is_none());
}

#[test]
fn manifest_directories_end_in_steamapps() {
    let list = "\"libraryfolders\"\n{\n\"0\"\n{\n\"path\"\t\"/mnt/g\"\n}\n}\n";
    assert_eq!(manifest_dirs(list), ["/mnt/g/steamapps"]);
    assert!(manifest_dirs("").is_empty());
}

#[test]
fn candidates_are_scanned() {
    let found = detect_candidates(&vec![raw(1, "firefox", b"firefox\0")]);
    assert!(found.is_empty());
}

#[test]
fn engines_are_found_in_order() {
    let bundled = || {
        Some(FoundBinary {
            path: "/opt/engine".to_string(),
            source: "bundled".to_string(),
        })
    };
    let found = pick_engine(Some("/env/engine".to_string()), true, bundled());
    assert_eq!(found.ok().unwrap().path, "/env/engine");
    let found = pick_engine(Some("/env/engine".to_string()), false, bundled());
    assert_eq!(
        found.err().unwrap(),
        "MOONCLIP_OBS_BIN points nowhere: /env/engine"
    );
    let found = pick_engine(None, false, bundled());
    assert_eq!(found.ok().unwrap().path, "/opt/engine");
    assert!(pick_engine(None, false, None).is_err());
    assert_eq!(
        sidecar_name("x86_64-unknown-linux-gnu", ""),
        "ffmpeg-x86_64-unknown-linux-gnu"
    );
    assert_eq!(pick_ffmpeg(Some("/f".to_string()), None, "/l", &vec![]), "/f");
    assert_eq!(pick_ffmpeg(None, None, "/l", &vec![]), "ffmpeg");
}

#[test]
fn capabilities_are_read_from_the_report() {
    assert!(has_capability(b"/usr/bin/gsr-kms-server cap_sys_admin=ep\n"));
    assert!(!has_capability(b"/usr/bin/gsr-kms-server\n"));
    assert!(fix_caps(true, true).is_ok());
    assert_eq!(fix_caps(false, false).unwrap_err(), "setcap rejected or failed");
    assert_eq!(
        fix_caps(true, false).unwrap_err(),
        "capability still missing after setcap"
    );
    assert_eq!(kms_sibling("/opt/gsr/gpu-screen-recorder"), "/opt/gsr/gsr-kms-server");
    assert_eq!(kms_sibling("gpu-screen-recorder"), "gsr-kms-server");
    // A path without a name gets one.
    assert_eq!(kms_sibling("/"), "/gsr-kms-server");
    assert_eq!(kms_sibling("/opt/.."), "/opt/../gsr-kms-server");
    assert_eq!(kms_sibling("."), "./gsr-kms-server");
    assert_eq!(kms_sibling(""), "gsr-kms-server");
    assert_eq!(
        kms_server_path("/opt/gsr/gpu-screen-recorder", true),
        "/opt/gsr/gsr-kms-server"
    );
    assert_ne!(
        kms_server_path("/opt/gsr/gpu-screen-recorder", false),
        "/opt/gsr/gsr-kms-server"
    );
}

#[test]
fn listed_devices_resolve_to_an_id() {
    assert!(require_devices(vec![]).is_err());
    let list = Ok(vec![dev("alsa_in", "Mic", "mic")]);
    assert_eq!(resolve_obs_device_id("Mic", &list, false), "alsa_in");
    let failed = Err("pactl".to_string());
    assert_eq!(resolve_obs_device_id("default_input", &failed, false), "default");
}

#[test]
fn the_boot_card_names_the_vendor() {
    let card = |name: &str, vendor: &str, boot: Option<&str>| CardInfo {
        name: name.to_string(),
        vendor: Some(vendor.to_string()),
        boot_vga: boot.map(|b| b.to_string()),
    };
    let cards = vec![
        card("card0", "0x8086\n", Some("0\n")),
        card("card1", "0x10de\n", Some("1\n")),
    ];
    assert_eq!(pick_vendor(&cards), "nvidia");
    assert_eq!(pick_vendor(&vec![]), "unknown");
    assert!(list_monitors().is_empty());
    assert!(resolve_monitor(&[], "DP-1").is_none());
    assert!(offered_codecs("nvidia").contains(&"h264".to_string()));
}

#[test]
fn the_recorder_is_told_what_to_record() {
    let q = RecorderRequest {
        source: "portal".to_string(),
        fps: 60,
        codec: "h264".to_string(),
        duration_seconds: 30,
        out_height: 720,
        bitrate_kbps: 20_000,
        video_opts: None,
        desktop_device: "default_output".to_string(),
        mic_device: "default_input".to_string(),
        output_dir: "/clips".to_string(),
    };
    let args = recorder_args(&q);
    let follows = |flag: &str, value: &str| args.windows(2).any(|w| w[0] == flag && w[1] == value);
    assert!(follows("-w", "portal"), "{args:?}");
    assert!(follows("-f", "60"), "{args:?}");
    assert!(follows("-r", "30"), "{args:?}");
    assert!(follows("-o", "/clips"), "{args:?}");
    assert_eq!(scale_arg(0), None);
    assert_eq!(scale_arg(720), Some("1280x720"));
    assert_eq!(audio_tracks("d", "m"), ["d|m", "d", "m"]);
}

#[test]
fn orphans_of_the_engine_are_found() {
    let process = |pid, parent, exe: &str| ProcessInfo {
        pid,
        parent,
        exe: exe.to_string(),
    };
    let all = vec![
        process(10, 1, "/opt/engine"),
        process(11, 1, "/usr/bin/other"),
        process(12, 99, "/opt/engine"),
        // Its parent runs.
        process(13, 11, "/opt/engine"),
        process(14, 0, "/opt/engine"),
    ];
    assert_eq!(orphan_pids(&all, 99, "/opt/engine"), [10, 12]);
    assert_eq!(orphan_pids(&all, 12, "/opt/engine"), [10]);
    assert_eq!(parent_from_stat("4444 (wine pre) loader) S 17 4444"), 17);
    assert_eq!(parent_from_stat("junk"), 0);
}

#[test]
fn concealing_is_tried_again_with_growing_pauses() {
    let steps: Vec<(u64, bool)> = (1..=5)
        .map(conceal_retry)
        .map(|r| (r.pause_ms, r.again))
        .collect();
    assert_eq!(
        steps,
        [(200, true), (400, true), (600, true), (800, true), (1000, false)]
    );
    assert!(disables_dmabuf(true, false));
    assert!(!disables_dmabuf(true, true) && !disables_dmabuf(false, false));
}

#[test]
fn the_engine_window_is_concealed_on_kde() {
    assert!(kde_session(Some("KDE"), None));
    assert!(kde_session(None, Some("true")));
    assert!(!kde_session(Some("GNOME"), None));
    assert!(conceal_script(77).starts_with("var targetPid = 77;\n"));
    assert_eq!(conceal_plugin(77), "moonclip-conceal-77");
    assert_eq!(conceal_file(77), "moonclip-kwin-conceal-77.js");
    assert!(is_conceal_file(&conceal_file(3)) && !is_conceal_file("other.js"));
    assert_eq!(script_id("()\n"), None);
    assert_eq!(script_id("(15,)\n").as_deref(), Some("15"));
}

#[test]
fn a_recorder_is_found_in_order() {
    let no = || Err("not in PATH".to_string());
    let named = resolve_binary(Some("/n".into()), true, Some("/b".into()), no());
    assert_eq!(named.as_deref(), Ok("/n"));
    let lost = resolve_binary(Some("/n".into()), false, Some("/b".into()), no());
    assert_eq!(lost.unwrap_err(), "MOONCLIP_GSR_BIN points nowhere: /n");
    let beside = resolve_binary(None, false, Some("/b".into()), no());
    assert_eq!(beside.as_deref(), Ok("/b"));
    let found = resolve_binary(None, false, None, which_gsr(true, b"/usr/bin/gsr\n"));
    assert_eq!(found.as_deref(), Ok("/usr/bin/gsr"));
    let none = resolve_binary(None, false, None, which_gsr(true, b"\n"));
    assert!(none.unwrap_err().starts_with("gpu-screen-recorder not found."));
    assert_eq!(which_gsr(false, b"/x").unwrap_err(), "not in PATH");
}

#[test]
fn the_recorder_gets_five_seconds_to_write() {
    let files = vec![stamp("/c/a.mp4", "mp4", 10)];
    assert!(matches!(recorder_save(&files, 5, 9_000), RecorderSave::Written(0)));
    assert!(matches!(recorder_save(&files, 11, 4_999), RecorderSave::Again));
    assert!(matches!(recorder_save(&files, 11, 5_000), RecorderSave::Fail(_)));
}

#[test]
fn launchers_keep_their_lists_below_home() {
    assert_eq!(
        steam_roots("/h"),
        ["/h/.steam/steam", "/h/.local/share/Steam", "/h/.steam/root"]
    );
    assert_eq!(
        steam_lists("/s"),
        ["/s/steamapps/libraryfolders.vdf", "/s/config/libraryfolders.vdf"]
    );
    assert_eq!(heroic_dirs("/h")[0], "/h/.config/heroic/GamesConfig");
    assert_eq!(prism_dirs("/h")[0], "/h/.local/share/PrismLauncher/instances");
}
