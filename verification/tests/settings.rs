use moonclip::capture::{
    build_capture_config, choose_password, plan_capture, plan_with, websocket_password, CaptureEnv,
    GameContext, StartOverrides,
};
use moonclip::changes::{set_setting, set_settings, set_video_quality, ChangePlan, SettingPair};
use moonclip::encoder_custom::{read_custom_encoder, read_custom_video, read_payload};
use moonclip::encoder_tables::EncoderFamily;
use moonclip::linux::video::Monitor;
use moonclip::settings::{
    buffer_seconds, check_payloads, custom_capture_params, setting_flag, setting_str, setting_u32,
    validate_custom_pair, TextMap,
};

fn stored(pairs: &[(&str, &str)]) -> TextMap {
    let mut m = TextMap::new();
    for (k, v) in pairs {
        m.insert(k.to_string(), v.to_string());
    }
    m
}

fn pairs(v: &[SettingPair]) -> Vec<(&str, &str)> {
    v.iter().map(|p| (p.key.as_str(), p.value.as_str())).collect()
}

fn pair(k: &str, v: &str) -> SettingPair {
    SettingPair {
        key: k.to_string(),
        value: v.to_string(),
    }
}

#[test]
fn ladder_mode_ignores_custom_values() {
    assert_eq!(
        custom_capture_params("ladder", "120", "50000", 60, 20000),
        (60, 20000, false)
    );
}

#[test]
fn custom_accepts_medal_fps_values() {
    assert_eq!(
        custom_capture_params("custom", "24", "50000", 60, 20000),
        (24, 50000, false)
    );
    assert_eq!(
        custom_capture_params("custom", "120", "50000", 60, 20000),
        (120, 50000, false)
    );
    assert_eq!(
        custom_capture_params("custom", "144", "50000", 60, 20000),
        (144, 50000, false)
    );
    assert_eq!(
        custom_capture_params("custom", "90", "50000", 60, 20000),
        (60, 50000, true)
    );
    assert_eq!(
        custom_capture_params("custom", "junk", "50000", 30, 10000),
        (30, 50000, false)
    );
}

#[test]
fn custom_bitrate_range_guards() {
    assert_eq!(
        custom_capture_params("custom", "60", "2000", 60, 20000),
        (60, 20000, false)
    );
    assert_eq!(
        custom_capture_params("custom", "60", "100000", 60, 20000),
        (60, 100000, false)
    );
    assert_eq!(
        custom_capture_params("custom", "60", "100001", 60, 20000),
        (60, 20000, false)
    );
    assert_eq!(
        custom_capture_params("custom", "60", "", 60, 20000),
        (60, 20000, false)
    );
}

#[test]
fn blank_settings_fall_back() {
    let s = stored(&[("fps", "  "), ("gpu_index", "2"), ("mute_mic", "true")]);
    assert_eq!(setting_str(&s, "fps", "60"), "60");
    assert_eq!(setting_str(&s, "codec", "h264"), "h264");
    assert_eq!(setting_u32(&s, "gpu_index", "0", 0), 2);
    assert!(setting_flag(&s, "mute_mic"));
    assert!(!setting_flag(&s, "mute_game"));
    assert_eq!(buffer_seconds(&s), 30);
    assert_eq!(buffer_seconds(&stored(&[("buffer_seconds", "2")])), 5);
    assert_eq!(buffer_seconds(&stored(&[("buffer_seconds", "-7")])), 5);
    assert_eq!(buffer_seconds(&stored(&[("buffer_seconds", "+90")])), 90);
    assert_eq!(buffer_seconds(&stored(&[("buffer_seconds", " 90")])), 30);
}

const NVENC_10BIT: &str =
    r#"{"encoder":"obs_nvenc_hevc_tex","settings":{"profile":"main10"}}"#;
const VIDEO_NV12: &str = r#"{"out_width":1280,"out_height":720,"scale_type":"bicubic","fps_type":"integer","fps_common":60,"fps_int":50,"fps_num":60,"fps_den":1,"color_format":"NV12","color_space":"709","color_range":"Full"}"#;

#[test]
fn a_pair_is_checked_together() {
    let none = stored(&[]);
    assert!(validate_custom_pair(&none, &none).is_ok());
    let video_only = stored(&[("custom_video_json", VIDEO_NV12)]);
    assert_eq!(
        validate_custom_pair(&video_only, &none).unwrap_err(),
        "custom video needs a custom encoder first"
    );
    let encoder = stored(&[("custom_encoder_json", NVENC_10BIT)]);
    assert!(validate_custom_pair(&encoder, &none).is_ok());
    assert_eq!(
        validate_custom_pair(&encoder, &video_only).unwrap_err(),
        "profile 'main10' needs P010 color format (10-bit)"
    );
    let p010 = VIDEO_NV12.replace("NV12", "P010");
    let proposed = stored(&[("custom_video_json", &p010)]);
    assert!(validate_custom_pair(&proposed, &encoder).is_ok());
}

fn plan(r: Result<ChangePlan, String>) -> ChangePlan {
    match r {
        Ok(p) => p,
        Err(e) => panic!("{e}"),
    }
}

#[test]
fn a_change_knows_its_way_back() {
    let s = stored(&[("fps", "60"), ("locale", "es")]);
    let p = plan(set_setting(&s, "fps", "30"));
    assert_eq!(pairs(&p.writes), [("fps", "30")]);
    assert_eq!(pairs(&p.undo), [("fps", "60")]);
    assert!(p.restart && p.start_again);
    let p = plan(set_setting(&s, "locale", "en"));
    assert!(!p.restart);
    let p = plan(set_setting(&s, "monitor", "1"));
    assert!(p.restart && !p.start_again && p.undo.is_empty());
    assert!(set_setting(&s, "custom_encoder_json", "junk").is_err());
}

#[test]
fn several_settings_change_at_once() {
    let s = stored(&[("container", "mp4")]);
    let p = plan(set_settings(&s, vec![pair("container", "mkv"), pair("video_mode", "custom")]));
    assert_eq!(pairs(&p.writes), [("container", "mkv"), ("video_mode", "custom")]);
    assert_eq!(pairs(&p.undo), [("container", "mp4")]);
    assert!(p.restart && p.start_again);
    let p = plan(set_settings(&s, vec![]));
    assert!(!p.restart && p.writes.is_empty());
    let bad = vec![pair("container", "mkv"), pair("custom_video_json", VIDEO_NV12)];
    assert_eq!(
        set_settings(&s, bad).err().unwrap(),
        "custom video needs a custom encoder first"
    );
    // The later of two values for one key is the one that is checked.
    let both = vec![
        pair("custom_encoder_json", "junk"),
        pair("custom_encoder_json", NVENC_10BIT),
    ];
    assert!(set_settings(&s, both).is_ok());
}

#[test]
fn a_ladder_cell_leaves_custom_mode() {
    let s = stored(&[("video_mode", "custom"), ("fps", "144")]);
    let heights = [720, 1080];
    let p = plan(set_video_quality(&s, &heights, "hevc", 720, 60));
    assert_eq!(
        pairs(&p.writes),
        [
            ("video_codec", "hevc"),
            ("out_height", "720"),
            ("fps", "60"),
            ("video_mode", "ladder")
        ]
    );
    assert_eq!(pairs(&p.undo), [("fps", "144"), ("video_mode", "custom")]);
    assert!(set_video_quality(&s, &heights, "hevc", 0, 24).is_ok());
    let fail = |c: &str, h, f| set_video_quality(&s, &heights, c, h, f).err().unwrap();
    assert_eq!(fail("x264", 720, 60), "unknown codec");
    assert_eq!(fail("h264", 720, 50), "fps must be one of 24/30/60/120/144");
    assert_eq!(fail("h264", 900, 60), "unknown height");
}

fn env() -> CaptureEnv {
    CaptureEnv {
        output_dir: "/clips".to_string(),
        devices: Err("none".to_string()),
        vendor: "nvidia".to_string(),
        obs_bin: "/opt/engine".to_string(),
        websocket_password: "0123456789abcdef".to_string(),
    }
}

#[test]
fn defaults_make_a_ladder_configuration() {
    let s = stored(&[]);
    let o = StartOverrides::default();
    let p = plan_capture(&s, &o, None).unwrap_or_else(|e| panic!("{e}"));
    assert_eq!((p.ladder_height, p.codec.as_str()), (1080, "h264"));
    let c = build_capture_config(p, &s, &o, 20_000, &env());
    assert_eq!((c.fps, c.bitrate_kbps, c.duration_seconds), (60, 20_000, 30));
    assert_eq!((c.base_width, c.base_height, c.out_height), (1920, 1080, 0));
    assert_eq!((c.codec.as_str(), c.encoder.as_str()), ("h264", "gpu"));
    assert_eq!(c.desktop_device, "default");
    assert_eq!(c.websocket_port, 4456);
    assert_eq!(c.container, "mp4");
    assert_eq!(c.obs_bin.as_deref(), Some("/opt/engine"));
    assert!(c.custom_encoder.is_none() && c.custom_video.is_none());
}

#[test]
fn stored_settings_shape_the_configuration() {
    let s = stored(&[
        ("video_codec", "x264"),
        ("out_height", "720"),
        ("fps", "144"),
        ("engine_ws_port", "80"),
        ("gain_game", "250"),
        ("container", "mkv"),
        ("monitor", "DP-1"),
    ]);
    let m = Monitor {
        name: "DP-1".to_string(),
        alt_id: String::new(),
        label: "Main".to_string(),
        width: 2560,
        height: 1440,
        primary: true,
    };
    let o = StartOverrides {
        bitrate_kbps: Some(9000),
        game: Some(GameContext {
            key: "steam:1".to_string(),
            title: "Game".to_string(),
            source_kind: Some("portal".to_string()),
            window_match: None,
            token: Some("tok".to_string()),
            duration_seconds: Some(45),
        }),
        ..Default::default()
    };
    let p = plan_capture(&s, &o, Some(&m)).unwrap_or_else(|e| panic!("{e}"));
    assert_eq!(p.ladder_height, 720);
    let c = build_capture_config(p, &s, &o, 20_000, &env());
    assert_eq!((c.codec.as_str(), c.encoder.as_str()), ("h264", "cpu"));
    assert_eq!((c.base_width, c.out_height, c.fps), (2560, 720, 144));
    assert_eq!((c.bitrate_kbps, c.duration_seconds), (9000, 45));
    assert_eq!((c.websocket_port, c.gain_game), (1024, 200));
    assert_eq!(c.container, "mkv");
    assert_eq!(c.monitor, "DP-1");
    assert_eq!((c.window.as_str(), c.portal_restore_token.as_str()), ("steam:1", "tok"));
}

#[test]
fn custom_mode_takes_codec_and_rate_from_its_payloads() {
    let hevc = r#"{"encoder":"obs_nvenc_hevc_tex","settings":{"cqp":20}}"#;
    let s = stored(&[
        ("video_mode", "custom"),
        ("custom_encoder_json", hevc),
        ("custom_video_json", VIDEO_NV12),
        ("custom_fps", "144"),
        ("custom_bitrate_kbps", "50000"),
    ]);
    let o = StartOverrides::default();
    let p = plan_capture(&s, &o, None).unwrap_or_else(|e| panic!("{e}"));
    assert_eq!((p.codec.as_str(), p.ladder_height), ("hevc", 720));
    let c = build_capture_config(p, &s, &o, 20_000, &env());
    assert_eq!((c.fps, c.bitrate_kbps), (50, 50_000));
    // The pair gate holds here too.
    let s = stored(&[
        ("video_mode", "custom"),
        ("custom_encoder_json", NVENC_10BIT),
        ("custom_video_json", VIDEO_NV12),
    ]);
    assert_eq!(
        plan_capture(&s, &o, None).err().unwrap(),
        "profile 'main10' needs P010 color format (10-bit)"
    );
    // Outside custom mode the payloads are not even read.
    let s = stored(&[("custom_encoder_json", "junk")]);
    assert!(plan_capture(&s, &o, None).is_ok());
}

#[test]
fn payloads_are_checked_as_they_were_read() {
    let blank = read_payload("  ");
    assert!(blank.is_none());
    let encoder = read_payload(NVENC_10BIT);
    let video = read_payload(VIDEO_NV12);
    let junk = read_payload("junk");
    assert!(check_payloads(&blank, &blank).is_ok());
    assert!(check_payloads(&encoder, &blank).is_ok());
    assert_eq!(
        check_payloads(&blank, &video).unwrap_err(),
        "custom video needs a custom encoder first"
    );
    assert_eq!(
        check_payloads(&encoder, &video).unwrap_err(),
        "profile 'main10' needs P010 color format (10-bit)"
    );
    assert!(check_payloads(&junk, &blank)
        .unwrap_err()
        .starts_with("custom encoder is not valid JSON: "));
    let read = read_custom_encoder(encoder.as_ref().unwrap()).unwrap_or_else(|e| panic!("{e}"));
    assert_eq!(read.encoder, "obs_nvenc_hevc_tex");
    let read = read_custom_video(EncoderFamily::Nvenc, "hevc", video.as_ref().unwrap())
        .unwrap_or_else(|e| panic!("{e}"));
    assert_eq!(read.color_format, "NV12");
    assert!(read_custom_video(EncoderFamily::Nvenc, "hevc", junk.as_ref().unwrap())
        .err()
        .unwrap()
        .starts_with("custom video is not valid JSON: "));
    // A plan takes the payloads that it is handed.
    let s = stored(&[("video_mode", "custom")]);
    let o = StartOverrides::default();
    let p = plan_with(&s, &o, None, &encoder, &blank).unwrap_or_else(|e| panic!("{e}"));
    assert_eq!(p.codec, "hevc");
    assert_eq!(
        plan_with(&s, &o, None, &encoder, &video).err().unwrap(),
        "profile 'main10' needs P010 color format (10-bit)"
    );
}

#[test]
fn short_passwords_are_replaced() {
    let kept = choose_password("0123456789abcdef", "a", "b");
    assert_eq!((kept.password.as_str(), kept.fresh), ("0123456789abcdef", false));
    let made = choose_password("short", "aa", "bb");
    assert_eq!((made.password.as_str(), made.fresh), ("aabb", true));
    let a = websocket_password(&stored(&[]));
    let b = websocket_password(&stored(&[]));
    assert!(a.fresh && a.password.len() == 64);
    assert!(a.password.chars().all(|c| c.is_ascii_hexdigit() && !c.is_ascii_uppercase()));
    assert_ne!(a.password, b.password);
}
