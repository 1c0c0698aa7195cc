use moonclip::api::{CaptureConfig, CustomEncoder};
use moonclip::encoder_custom::{parse_custom_encoder, parse_custom_video};
use moonclip::encoder_options::catalog_windows;
use moonclip::encoder_tables::EncoderFamily;
use moonclip::engine::{
    check_save, check_saved_file, engine_death_reason, find_trouble, learn_canvas, log_tail,
    log_with_error, newest_log, png_dimensions, require_scene_name, require_source, save_step,
    start_step, volume_source, Canvas, LogFile, SaveStep, StartEvent, StartPhase, StartStep,
};
use moonclip::json::{decimal_fraction, parse_json, pretty_json, Json};
use moonclip::obs_files::{
    collection_file, existing_restore_token, keep_token, live_restore_token, plan_obs_config,
    seed_token,
};
use moonclip::profile::{
    clamp_u32, even, normalize_device_id, replay_mb, scaled_width, ObsProfile, PlatformAnswers,
};
use moonclip::render::{
    gain_hundredths, render_basic_ini, render_collection, render_global_ini,
    render_record_encoder_json, render_user_ini, render_websocket_config, SourceUuids,
    FORBIDDEN_SOURCE_ID, GAME_SOURCE_NAME, MAIN_CANVAS_UUID, MIC_SOURCE_NAME, SCENE_NAME,
    VIDEO_SOURCE_NAME,
};

fn encoder_id(vendor: &str, codec: &str, encoder: &str) -> Option<&'static str> {
    if encoder == "cpu" {
        return Some("obs_x264");
    }
    match (vendor, codec) {
        ("nvidia", "h264") => Some("obs_nvenc_h264_tex"),
        ("nvidia", "hevc") => Some("obs_nvenc_hevc_tex"),
        ("nvidia", "av1") => Some("obs_nvenc_av1_tex"),
        ("amd", "h264") => Some("h264_texture_amf"),
        ("intel", "h264") => Some("obs_qsv11_v2"),
        _ => None,
    }
}

/// A platform that captures a monitor, as on Windows.
fn fake_platform(c: &CaptureConfig) -> PlatformAnswers {
    PlatformAnswers {
        catalog: catalog_windows(),
        ladder_encoder: encoder_id(&c.vendor, &c.codec, &c.encoder),
        video_source_id: "monitor_capture",
        video_settings: vec![
            ("capture_cursor".to_string(), Json::Bool(true)),
            ("method".to_string(), Json::Signed(1)),
            ("monitor".to_string(), Json::Str(c.monitor.clone())),
        ],
        game_audio_id: "wasapi_output_capture",
        mic_audio_id: "wasapi_input_capture",
    }
}

fn config() -> CaptureConfig {
    CaptureConfig {
        duration_seconds: 30,
        fps: 60,
        output_dir: "C:/clips".into(),
        codec: "h264".into(),
        encoder: "gpu".into(),
        gpu_index: 0,
        bitrate_kbps: 20_000,
        out_height: 1080,
        monitor: "0".into(),
        window: String::new(),
        window_match: None,
        desktop_device: "default_output".into(),
        mic_device: "default_input".into(),
        gain_game: 100,
        gain_mic: 100,
        mute_game: false,
        mute_mic: false,
        audio_single_track: false,
        container: "mp4".into(),
        vendor: "nvidia".into(),
        base_width: 2560,
        base_height: 1440,
        portal_restore_token: String::new(),
        custom_encoder: None,
        custom_video: None,
        obs_bin: Some("obs64.exe".into()),
        websocket_port: 4456,
        websocket_password: "abc123".into(),
    }
}

fn from_config(c: &CaptureConfig) -> Result<ObsProfile, String> {
    ObsProfile::from_config(c, &fake_platform(c))
}

fn built(c: &CaptureConfig) -> ObsProfile {
    match from_config(c) {
        Ok(p) => p,
        Err(e) => panic!("{e}"),
    }
}

fn profile() -> ObsProfile {
    built(&config())
}

fn document(text: &str) -> serde_json::Value {
    serde_json::from_str(text).unwrap()
}

#[test]
fn profile_scales_output_and_keeps_base() {
    let p = profile();
    assert_eq!((p.base_width, p.base_height), (2560, 1440));
    assert_eq!((p.out_width, p.out_height), (1920, 1080));
    assert_eq!(p.encoder_id, "obs_nvenc_h264_tex");
    assert_eq!(p.rec_tracks(), 7);
    assert_eq!(p.tracks_linked(), 3);
}

#[test]
fn source_resolution_keeps_base_as_output() {
    let mut c = config();
    c.out_height = 0;
    let p = built(&c);
    assert_eq!((p.out_width, p.out_height), (2560, 1440));
}

#[test]
fn single_track_uses_one_mixer() {
    let mut c = config();
    c.audio_single_track = true;
    let p = built(&c);
    assert_eq!(p.rec_tracks(), 1);
    assert_eq!(p.tracks_linked(), 1);
}

#[test]
fn cpu_encoder_maps_to_x264() {
    let mut c = config();
    c.encoder = "cpu".into();
    assert_eq!(built(&c).encoder_id, "obs_x264");
}

#[test]
fn unsupported_codec_vendor_fails_loudly() {
    let mut c = config();
    c.vendor = "unknown".into();
    let err = from_config(&c).err().unwrap();
    assert!(err.contains("no OBS encoder"), "{err}");
}

#[test]
fn basic_ini_has_advanced_replay_and_tracks() {
    let p = profile();
    let ini = render_basic_ini(&p);
    assert!(ini.contains("Mode=Advanced"), "{ini}");
    assert!(ini.contains("RecRB=true"));
    assert!(ini.contains("RecRBTime=30"));
    assert!(ini.contains("RecTracks=7"));
    assert!(ini.contains("RecEncoder=obs_nvenc_h264_tex"));
    assert!(ini.contains("Track1Bitrate=320"));
    assert!(ini.contains("Track3Bitrate=192"));
    assert!(ini.contains("Track1Name=Master Mix [Game+Voice]"));
    assert!(ini.contains("OutputCX=1920"));
    assert!(ini.contains("FPSCommon=60"));
    assert!(ini.contains("RecFormat2=mp4"));
}

#[test]
fn basic_ini_single_track_writes_one_track() {
    let mut c = config();
    c.audio_single_track = true;
    let ini = render_basic_ini(&built(&c));
    assert!(ini.contains("RecTracks=1"), "{ini}");
}

#[test]
fn record_encoder_json_uses_registry_recipes() {
    // Ladder NVENC: measured recipe with OBS 32 keys (preset, NOT preset2).
    let p = profile();
    assert_eq!(p.encoder_id, "obs_nvenc_h264_tex");
    let v = document(&render_record_encoder_json(&p));
    assert_eq!(v["rate_control"], "CBR");
    assert_eq!(v["bitrate"], 20_000);
    assert_eq!(v["preset"], "p5");
    assert_eq!(v["tune"], "hq");
    assert_eq!(v["multipass"], "disabled");
    assert_eq!(v["adaptive_quantization"], true);
    assert_eq!(v["device"], -1);
    assert_eq!(v["profile"], "high");
    assert!(v.get("preset2").is_none(), "{v}");
    assert!(v.get("psycho_aq").is_none(), "{v}");
    assert!(v.get("gpu").is_none(), "{v}");

    // CPU ladder: measured x264 recipe.
    let mut c = config();
    c.encoder = "cpu".into();
    let v = document(&render_record_encoder_json(&built(&c)));
    assert_eq!(v["rate_control"], "CBR");
    assert_eq!(v["preset"], "veryfast");

    // Unvalidated ladder family (AMD): Auto recipe only.
    let mut c = config();
    c.vendor = "amd".into();
    let p = built(&c);
    assert_eq!(p.encoder_id, "h264_texture_amf");
    let v = document(&render_record_encoder_json(&p));
    assert_eq!(v, document(r#"{"bitrate": 20000, "rate_control": "CBR"}"#));
}

#[test]
fn custom_encoder_and_video_render_verbatim() {
    let mut c = config();
    let raw_enc = r#"{"encoder":"obs_nvenc_h264_tex","settings":{"rate_control":"CQP","cqp":20,"preset":"p7"}}"#;
    c.custom_encoder = Some(parse_custom_encoder(raw_enc).unwrap_or_else(|e| panic!("{e}")));
    let raw_vid = r#"{"out_width":2560,"out_height":1440,"scale_type":"lanczos","fps_type":"fractional","fps_common":60,"fps_int":60,"fps_num":60000,"fps_den":1001,"color_format":"NV12","color_space":"709","color_range":"Partial"}"#;
    c.custom_video = Some(parse_custom_video(EncoderFamily::Nvenc, "h264", raw_vid).unwrap());
    let p = built(&c);
    assert_eq!(p.codec, "h264");
    let v = document(&render_record_encoder_json(&p));
    assert_eq!(v["rate_control"], "CQP");
    assert_eq!(v["cqp"], 20);
    // Custom bitrate absent -> ladder bitrate drives the ring math.
    assert_eq!(p.bitrate_kbps, 20_000);
    let ini = render_basic_ini(&p);
    assert!(ini.contains("OutputCX=2560"), "{ini}");
    assert!(ini.contains("OutputCY=1440"), "{ini}");
    assert!(ini.contains("ScaleType=lanczos"), "{ini}");
    assert!(ini.contains("FPSType=2"), "{ini}");
    assert!(ini.contains("FPSNum=60000"), "{ini}");
    assert!(ini.contains("FPSDen=1001"), "{ini}");

    // Unknown encoder id on this platform fails loudly.
    let mut c = config();
    c.custom_encoder = Some(CustomEncoder {
        encoder: "wat".into(),
        settings: vec![],
    });
    let err = from_config(&c).err().unwrap();
    assert!(err.contains("not in this OBS build"), "{err}");
}

#[test]
fn volume_helpers_map_tracks_and_multipliers() {
    assert_eq!(volume_source("game"), Some(GAME_SOURCE_NAME));
    assert_eq!(volume_source("mic"), Some(MIC_SOURCE_NAME));
    assert_eq!(volume_source("mix"), None);
}

#[test]
fn device_ids_normalize_magic_values() {
    assert_eq!(normalize_device_id("", true), "default");
    assert_eq!(normalize_device_id("default_output", true), "default");
    assert_eq!(normalize_device_id("default", true), "default");
    assert_eq!(normalize_device_id("default_input", false), "default");
    assert_eq!(
        normalize_device_id("{0.0.1.00000000}.{guid}", true),
        "{0.0.1.00000000}.{guid}"
    );
    // A desktop id is not valid for the mic and vice versa.
    assert_eq!(normalize_device_id("default_input", true), "default_input");
}

#[test]
fn collection_never_uses_game_capture() {
    let p = profile();
    let uuids = SourceUuids::generate();
    let text = render_collection(&p, &uuids);
    assert!(!text.contains(FORBIDDEN_SOURCE_ID), "{text}");
    assert!(text.contains("monitor_capture"));
    let v = document(&text);
    assert_eq!(v["AuxAudioDevice1"]["mixers"], 3);
    assert_eq!(v["AuxAudioDevice2"]["mixers"], 5);
    assert_eq!(v["AuxAudioDevice1"]["volume"], 1.0);
    assert_eq!(v["sources"][0]["name"], SCENE_NAME);
    assert_eq!(v["sources"][1]["id"], "monitor_capture");
    // Scene and capture source MUST have distinct names: OBS resolves the
    // program scene by name and a collision produced all-black clips.
    assert_eq!(v["sources"][1]["name"], VIDEO_SOURCE_NAME);
    assert_ne!(v["sources"][0]["name"], v["sources"][1]["name"]);
    // Scene explicitly bound to libobs' main canvas.
    assert_eq!(v["sources"][0]["canvas_uuid"], MAIN_CANVAS_UUID);
    // The scene item references the capture source by uuid (OBS 30+).
    assert_eq!(
        v["sources"][0]["settings"]["items"][0]["source_uuid"],
        uuids.video.as_str()
    );
}

#[test]
fn collection_applies_gains_and_mutes() {
    let mut c = config();
    c.gain_game = 150;
    c.gain_mic = 50;
    c.mute_mic = true;
    let v = document(&render_collection(&built(&c), &SourceUuids::generate()));
    assert_eq!(v["AuxAudioDevice1"]["volume"], 1.5);
    assert_eq!(v["AuxAudioDevice2"]["volume"], 0.5);
    assert_eq!(v["AuxAudioDevice2"]["muted"], true);
    assert_eq!(v["AuxAudioDevice1"]["muted"], false);
}

#[test]
fn collection_single_track_mixes_only_track_one() {
    let mut c = config();
    c.audio_single_track = true;
    let v = document(&render_collection(&built(&c), &SourceUuids::generate()));
    assert_eq!(v["AuxAudioDevice1"]["mixers"], 1);
    assert_eq!(v["AuxAudioDevice2"]["mixers"], 1);
}

#[test]
fn websocket_config_is_private() {
    let v = document(&render_websocket_config(4456, "deck"));
    assert_eq!(v["server_enabled"], true);
    assert_eq!(v["server_port"], 4456);
    assert_eq!(v["auth_required"], true);
    assert_eq!(v["server_password"], "deck");
}

#[test]
fn existing_restore_token_reads_collection() {
    let with = r#"{"sources":[{"id":"scene","settings":{}},{"id":"pipewire-desktop-capture-source","settings":{"RestoreToken":"tok123"}}]}"#;
    assert_eq!(existing_restore_token(with), Some("tok123".to_string()));
    let without = r#"{"sources":[{"id":"pipewire-desktop-capture-source","settings":{}}]}"#;
    assert_eq!(existing_restore_token(without), None);
}

#[test]
fn replay_mb_has_margin_and_floor() {
    assert_eq!(replay_mb(20_000, 30), 173);
    assert_eq!(replay_mb(60_000, 60), 722);
    assert!(replay_mb(100_000, 600) > 100_000 * 600 / 8 / 1024);
}

/// Volumes are kept in hundredths, and written as the number they stand for.
#[test]
fn gain_volume_conversion() {
    let volume = |gain: u32| -> f64 { decimal_fraction(gain_hundredths(gain)).parse().unwrap() };
    assert_eq!(volume(0), 0.0);
    assert_eq!(volume(100), 1.0);
    assert_eq!(volume(150), 1.5);
    assert_eq!(volume(500), 2.0);
}

#[test]
fn global_ini_selects_generated_profile() {
    let ini = render_global_ini();
    assert!(ini.contains("Profile=MoonClip"));
    assert!(ini.contains("SceneCollection=MoonClip"));
}

#[test]
fn user_ini_suppresses_first_run_wizard() {
    for tray in [true, false] {
        let ini = render_user_ini(tray);
        assert!(ini.contains("[General]"), "{ini}");
        assert!(ini.contains("FirstRun=true"), "{ini}");
    }
}

#[test]
fn user_ini_disables_tray_when_asked() {
    let on = render_user_ini(true);
    assert!(!on.contains("SysTrayEnabled"), "{on}");
    let off = render_user_ini(false);
    assert!(off.contains("SysTrayEnabled=false"), "{off}");
    assert!(off.contains("SysTrayWhenStarted=false"), "{off}");
    assert!(off.contains("SysTrayMinimizeToTray=false"), "{off}");
}

#[test]
fn ring_memory_keeps_its_floor_and_grows() {
    assert_eq!(replay_mb(1, 1), 128);
    assert!(replay_mb(30_000, 60) <= replay_mb(30_000, 61));
    assert!(replay_mb(30_000, 60) <= replay_mb(30_001, 60));
}

#[test]
fn widths_follow_the_shape_of_the_base() {
    assert_eq!(scaled_width(2560, 1440, 1080), 1920);
    assert_eq!(scaled_width(1920, 1080, 1080), 1920);
    assert_eq!(scaled_width(1366, 768, 720), 1280);
    assert_eq!((even(7), even(8), even(1)), (6, 8, 2));
    assert_eq!((clamp_u32(4, 5, 9), clamp_u32(12, 5, 9)), (5, 9));
}

#[test]
fn each_profile_error_has_its_message() {
    let mut c = config();
    c.vendor = "unknown".into();
    assert_eq!(
        from_config(&c).err().unwrap(),
        "no OBS encoder for codec 'h264' / 'gpu' on 'unknown'"
    );
    let mut c = config();
    c.custom_encoder = Some(CustomEncoder {
        encoder: "wat".into(),
        settings: vec![],
    });
    assert_eq!(
        from_config(&c).err().unwrap(),
        "encoder 'wat' not in this OBS build"
    );
    let mut c = config();
    c.custom_encoder = Some(CustomEncoder {
        encoder: "obs_x264".into(),
        settings: vec![("preset".to_string(), Json::Str("p7".to_string()))],
    });
    assert_eq!(
        from_config(&c).err().unwrap(),
        "invalid value 'p7' for 'preset'"
    );
}

#[test]
fn custom_bitrate_drives_the_ring() {
    let mut c = config();
    c.custom_encoder = Some(CustomEncoder {
        encoder: "obs_x264".into(),
        settings: vec![("bitrate".to_string(), Json::Unsigned(60_000))],
    });
    c.duration_seconds = 60;
    let p = built(&c);
    assert_eq!((p.bitrate_kbps, p.replay_mb), (60_000, 722));
}

fn uuids() -> SourceUuids {
    SourceUuids {
        scene: "s".into(),
        video: "v".into(),
        game_audio: "g".into(),
        mic_audio: "m".into(),
    }
}

#[test]
fn a_start_writes_its_files_below_its_root() {
    let mut p = profile();
    p.video_source_id = "pipewire-desktop-capture-source".to_string();
    let previous = r#"{"sources":[{"id":"pipewire-desktop-capture-source","settings":{"RestoreToken":"tok"}}]}"#;
    let files = plan_obs_config("/data/obs/config", &p, true, Some(previous), &uuids());
    for (path, _) in &files.files {
        assert!(path.starts_with("/data/obs/config/"), "{path}");
    }
    assert!(files.files.len() >= 6);
    assert!(files.dirs.contains(&"C:/clips".to_string()));
    let collection = collection_file("/data/obs/config");
    let (_, text) = files.files.iter().find(|f| f.0 == collection).unwrap();
    // The token of the previous start comes back from what this one wrote.
    assert_eq!(existing_restore_token(text).as_deref(), Some("tok"));
    let again = plan_obs_config("/data/obs/config", &p, true, Some(text), &uuids());
    let (_, text) = again.files.iter().find(|f| f.0 == collection).unwrap();
    assert_eq!(existing_restore_token(text).as_deref(), Some("tok"));
}

#[test]
fn a_token_of_this_start_is_kept() {
    let mut p = profile();
    p.video_settings
        .push(("RestoreToken".to_string(), Json::Str("mine".to_string())));
    let previous = r#"{"sources":[{"id":"pipewire-desktop-capture-source","settings":{"RestoreToken":"old"}}]}"#;
    let seeded = seed_token(&p, Some(previous));
    let token = seeded.video_settings.iter().find(|e| e.0 == "RestoreToken");
    assert_eq!(token.unwrap().1.as_str(), Some("mine"));
    let kept = keep_token(&profile(), Some("old".to_string()));
    let token = kept.video_settings.iter().find(|e| e.0 == "RestoreToken");
    assert_eq!(token.unwrap().1.as_str(), Some("old"));
    assert!(keep_token(&profile(), None)
        .video_settings
        .iter()
        .all(|e| e.0 != "RestoreToken"));
}

#[test]
fn tokens_are_read_from_live_settings() {
    assert_eq!(
        live_restore_token(r#"{"RestoreToken":"abc"}"#).as_deref(),
        Some("abc")
    );
    assert_eq!(live_restore_token(r#"{"RestoreToken":""}"#), None);
    assert_eq!(live_restore_token("{}"), None);
    assert_eq!(live_restore_token("junk"), None);
}

#[test]
fn fresh_uuids_are_uuids() {
    let a = SourceUuids::generate();
    for text in [&a.scene, &a.video, &a.game_audio, &a.mic_audio] {
        let id = uuid::Uuid::parse_str(text).unwrap();
        assert_eq!(id.get_version_num(), 4);
        assert_eq!(&id.to_string(), text);
    }
    assert_ne!(a.scene, a.video);
}

#[test]
fn png_headers_give_their_size() {
    let mut png = vec![0x89, b'P', b'N', b'G', 0x0d, 0x0a, 0x1a, 0x0a];
    png.extend([0, 0, 0, 13]);
    png.extend(*b"IHDR");
    png.extend([0, 0, 7, 128, 0, 0, 4, 56]);
    assert_eq!(png_dimensions(&png), Some((1920, 1080)));
    assert_eq!(png_dimensions(&png[..23]), None);
    png[0] = 0;
    assert_eq!(png_dimensions(&png), None);
}

#[test]
fn the_canvas_learns_the_size_of_its_source() {
    let now = Canvas {
        base_width: 1920,
        base_height: 1080,
        out_width: 1280,
        out_height: 720,
    };
    assert!(learn_canvas(&now, false, 1920, 1080).is_none());
    let c = learn_canvas(&now, false, 2560, 1440).unwrap();
    assert_eq!((c.base_width, c.base_height), (2560, 1440));
    assert_eq!((c.out_width, c.out_height), (1280, 720));
    let c = learn_canvas(&now, true, 2560, 1440).unwrap();
    assert_eq!((c.out_width, c.out_height), (2560, 1440));
}

fn lines(v: &[&str]) -> Vec<String> {
    v.iter().map(|s| s.to_string()).collect()
}

#[test]
fn logs_name_the_trouble() {
    let tail = lines(&["info: ok", "ERROR: no encoder"]);
    assert_eq!(find_trouble(&tail).as_deref(), Some("ERROR: no encoder"));
    assert!(engine_death_reason(&tail).contains("ERROR: no encoder"));
    assert_eq!(find_trouble(&lines(&["info: ok"])), None);
    let long: Vec<String> = (0..60).map(|n| format!("line {n}")).collect();
    let tail = log_tail(&long.join("\n"));
    assert_eq!(tail.last().map(String::as_str), Some("line 59"));
    assert!(tail.len() < 60);
    let log = |is_text, modified_ms| LogFile { is_text, modified_ms };
    let files = vec![log(true, Some(1)), log(false, Some(9)), log(true, Some(5)), log(true, None)];
    assert_eq!(newest_log(&files), Some(2));
    assert_eq!(newest_log(&vec![]), None);
}

fn step(phase: StartPhase, event: StartEvent) -> StartStep {
    start_step(phase, &event, "MARK", &lines(&["fine"]))
}

#[test]
fn a_start_goes_through_its_phases() {
    assert!(matches!(
        step(StartPhase::Config, StartEvent::ConfigSeen),
        StartStep::Next(StartPhase::Connect)
    ));
    assert!(matches!(
        step(StartPhase::Config, StartEvent::ConfigMissing { elapsed_ms: 11_999 }),
        StartStep::Again
    ));
    match step(StartPhase::Config, StartEvent::ConfigMissing { elapsed_ms: 12_000 }) {
        StartStep::Fail { message, .. } => assert!(message.contains("MARK"), "{message}"),
        _ => panic!("a start without its configuration must fail"),
    }
    assert!(matches!(
        step(StartPhase::Connect, StartEvent::Connected),
        StartStep::Next(StartPhase::Start)
    ));
    assert!(matches!(
        step(StartPhase::Connect, StartEvent::NotConnected { elapsed_ms: 1 }),
        StartStep::Again
    ));
    assert!(matches!(
        step(StartPhase::Connect, StartEvent::NotConnected { elapsed_ms: 45_000 }),
        StartStep::Fail { .. }
    ));
    assert!(matches!(
        step(StartPhase::Start, StartEvent::Started),
        StartStep::Next(StartPhase::Output)
    ));
    assert!(matches!(
        step(StartPhase::Start, StartEvent::Refused { error: "e".into() }),
        StartStep::Next(StartPhase::Restart)
    ));
    assert!(matches!(
        step(StartPhase::Restart, StartEvent::Refused { error: "e".into() }),
        StartStep::Fail { .. }
    ));
    assert!(matches!(
        step(StartPhase::Output, StartEvent::Active),
        StartStep::Next(StartPhase::Scene)
    ));
    assert!(matches!(
        step(StartPhase::Output, StartEvent::Inactive { elapsed_ms: 6_000 }),
        StartStep::Fail { .. }
    ));
    assert!(matches!(
        step(StartPhase::Scene, StartEvent::SceneIs { name: SCENE_NAME.to_string() }),
        StartStep::Done
    ));
    assert!(matches!(
        step(StartPhase::Scene, StartEvent::SceneIs { name: "Other".into() }),
        StartStep::Fail { .. }
    ));
}

#[test]
fn a_save_waits_for_a_new_file() {
    assert!(matches!(save_step(Some("a"), Some("a"), 0), SaveStep::Again));
    assert!(matches!(save_step(None, None, 44_999), SaveStep::Again));
    match save_step(Some("a"), Some("b"), 100) {
        SaveStep::Written(path) => assert_eq!(path, "b"),
        _ => panic!("a new path is the saved clip"),
    }
    assert!(matches!(save_step(Some("a"), Some("a"), 45_000), SaveStep::Fail(_)));
}

#[test]
fn sources_and_scenes_are_named() {
    assert_eq!(require_source("game"), Ok(GAME_SOURCE_NAME));
    assert!(require_source("mix").is_err());
    assert_eq!(require_scene_name("Mine").as_deref(), Ok("Mine"));
    assert!(require_scene_name("").is_err());
}

#[test]
fn documents_come_back_as_they_were_written() {
    let doc = Json::Object(vec![
        ("a".to_string(), Json::Array(vec![Json::Null, Json::Bool(true)])),
        ("b".to_string(), Json::Signed(-3)),
        ("c".to_string(), Json::Str("\"q\"\n".to_string())),
    ]);
    let text = pretty_json(&doc);
    assert_eq!(
        text,
        "{\n  \"a\": [\n    null,\n    true\n  ],\n  \"b\": -3,\n  \"c\": \"\\\"q\\\"\\n\"\n}"
    );
    let back = parse_json(&text).unwrap_or_else(|e| panic!("{e}"));
    assert_eq!(pretty_json(&back), text);
    assert_eq!(back.get("b").and_then(|v| v.as_i64()), Some(-3));
    assert!(back.get("d").is_none());
    assert_eq!(parse_json("1 2").err().unwrap(), "trailing characters at line 1 column 3");
    // Of two entries with one key the later one stays, and keys are in order.
    let back = parse_json(r#"{"z":1,"a":2,"z":3.5}"#).unwrap_or_else(|e| panic!("{e}"));
    let keys: Vec<&str> = back.as_object().unwrap().iter().map(|e| e.0.as_str()).collect();
    assert_eq!(keys, ["a", "z"]);
    assert_eq!(pretty_json(&back), "{\n  \"a\": 2,\n  \"z\": 3.5\n}");
}

#[test]
fn a_save_needs_a_running_engine() {
    assert!(check_save(true, true).is_ok());
    assert_eq!(check_save(false, true).unwrap_err(), "recorder not running");
    assert_eq!(check_save(true, false).unwrap_err(), "obs-websocket not connected");
    assert_eq!(check_saved_file("/c/a.mp4", true).as_deref(), Ok("/c/a.mp4"));
    assert_eq!(
        check_saved_file("/c/a.mp4", false).unwrap_err(),
        "OBS reported a saved replay that is not on disk: /c/a.mp4"
    );
    let tail = log_with_error(lines(&["a"]), &Some("late".to_string()));
    assert_eq!(tail, ["a", "moonclip: late"]);
    assert_eq!(log_with_error(lines(&["a"]), &None), ["a"]);
}

#[test]
fn widths_are_those_of_double_precision() {
    let original = |w: u32, h: u32, out: u32| -> u32 {
        let q = (w as f64 * out as f64 / h as f64).round() as u32;
        even(q.max(2))
    };
    let mut x: u64 = 0x1234_5678_9abc_def1;
    for i in 0..200_000u32 {
        x = x.wrapping_mul(6364136223846793005).wrapping_add(1442695040888963407);
        let (w, h) = ((x >> 32) as u32, (x >> 7) as u32);
        let out = (x.rotate_left(17) >> 32) as u32;
        let shift = i % 31;
        for (w, h, out) in [(w, h, out), (w >> shift, h >> (31 - shift), out >> (shift / 2)), (w, h, h)] {
            if w > 0 && h > 0 {
                assert_eq!(scaled_width(w, h, out), original(w, h, out), "{w} {h} {out}");
            }
        }
    }
    for (w, h, out) in [
        (1920, 1080, 720),
        (3, 2, 1),
        (u32::MAX, 2, 1),
        (u32::MAX, 1, u32::MAX),
        (u32::MAX, u32::MAX, u32::MAX),
        (4294967295, 4294967294, 2147483647),
        (1, u32::MAX, 1),
        (1, u32::MAX, 0),
    ] {
        assert_eq!(scaled_width(w, h, out), original(w, h, out), "{w} {h} {out}");
    }
}
