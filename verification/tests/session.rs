use moonclip::capture::GameContext;
use moonclip::clips::{
    check_on_disk, check_preview_track, clip_length, clip_name_step, extension_of, find_clip, find_duration,
    is_length_wrong, next_free_name, preview_args, purge_missing_clips, resolve_clip_src,
    retry_thumbnail, split_duration, stem_of, thumb_name, thumbnail_args, IndexedClip, NameStep,
};
use moonclip::encoder_options::{catalog_linux, lookup_encoder};
use moonclip::encoder_tables::EncoderFamily;
use moonclip::frame_rate::rate_is_off;
use moonclip::hardware_test::{
    check_probe, expected_test_height, finish_test, test_fallback, test_overrides, test_seconds,
    validate_test_clip, TestRecording, TestTarget, VideoProbe,
};
use moonclip::json::Json;
use moonclip::linux::video::Monitor;
use moonclip::options::{
    encoder_colors, encoder_form, encoder_option, family_slug, height_option, offer_codecs,
    read_selection, video_options, LadderCell, LadderRow,
};
use moonclip::paths::{basename_of, join, parent, same_path};
use moonclip::records::{read_record, split_array, text_at, whole_at};
use moonclip::session::{
    after_start, check_start, current_status, engine_version, forget_source, gain_step, gain_write,
    hotkey_notice, is_first_time, is_spanish, liveness, mute_write, notice_text, obs_info,
    read_gains, source_step, started_status, stopped_status, GainStep, Liveness, Notice,
    SourceStep, StoreWrite,
};
use moonclip::settings::TextMap;
use moonclip::text::{
    ascii_uppered, decimal_of, decimal_of_int, lines_of, parse_i64, parse_u32, parse_u64,
    split_on, trimmed, words_of,
};

fn stored(pairs: &[(&str, &str)]) -> TextMap {
    let mut m = TextMap::new();
    for (k, v) in pairs {
        m.insert(k.to_string(), v.to_string());
    }
    m
}

fn strings(v: &[&str]) -> Vec<String> {
    v.iter().map(|s| s.to_string()).collect()
}

#[test]
fn probe_check_matches_request() {
    let probe = VideoProbe {
        codec_name: "h264".into(),
        profile: "High".into(),
        width: 1920,
        height: 1080,
        fps_bits: 60.0f64.to_bits(),
        fps_text: "60.0".into(),
    };
    assert!(check_probe(&probe, "h264", 1080, 60).is_ok());
    // Wrong codec / height / fps all fail loudly.
    assert!(check_probe(&probe, "hevc", 1080, 60).is_err());
    assert!(check_probe(&probe, "h264", 1440, 60).is_err());
    assert!(check_probe(&probe, "h264", 1080, 30).is_err());
    // NTSC-ish drift is tolerated; real mismatch is not.
    let mut p = probe.clone();
    p.fps_bits = 59.94f64.to_bits();
    assert!(check_probe(&p, "h264", 1080, 60).is_ok());
}

#[test]
fn rates_are_compared_as_doubles() {
    let rates = [
        0.0, -0.0, 1.0, 2.0, 2.0000000000000004, -1.0, -1.0000000000000002, -2.0, -1e-15, -3e-16,
        -2e-16, 1e-300, -1e-300, 5e-324, -5e-324, 27.999, 28.0, 28.000000000000004, 29.97, 30.25,
        31.999999999999996, 32.0, 32.00000000000001, 59.94, 60.0, 62.0004, 144.0, 360.5,
        4294967293.0, 4294967292.999999, 4294967297.0, 4294967297.000001, 1e15, 4503599627370496.0,
        9e15, 1e30, -1e30, f64::MAX, f64::MIN_POSITIVE, f64::INFINITY, f64::NEG_INFINITY, f64::NAN,
    ];
    for fps in rates {
        for expected in [0u32, 1, 2, 3, 4, 30, 60, 144, 360, u32::MAX] {
            assert_eq!(
                rate_is_off(fps.to_bits(), expected),
                (fps - expected as f64).abs() > 2.0,
                "{fps:e} {expected}"
            );
        }
    }
    // Some that lie everywhere, by a fixed walk through the bits.
    let mut bits: u64 = 0x9e37_79b9_7f4a_7c15;
    for _ in 0..200_000 {
        bits = bits.wrapping_mul(6364136223846793005).wrapping_add(1442695040888963407);
        let fps = f64::from_bits(bits);
        let expected = (bits >> 20) as u32 % 400;
        let near = expected as f64 + (bits >> 11) as f64 / (1u64 << 51) as f64 - 2.0;
        for fps in [fps, near, near + 2.0, -near] {
            assert_eq!(
                rate_is_off(fps.to_bits(), expected),
                (fps - expected as f64).abs() > 2.0,
                "{fps:e} {expected}"
            );
        }
    }
}

#[test]
fn each_probe_error_has_its_message() {
    let probe = VideoProbe {
        codec_name: "h264".into(),
        profile: "High".into(),
        width: 1920,
        height: 1080,
        fps_bits: 29.97f64.to_bits(),
        fps_text: format!("{:.1}", 29.97),
    };
    assert_eq!(
        check_probe(&probe, "hevc", 1080, 60).unwrap_err(),
        "encoded codec is 'h264', expected 'hevc'"
    );
    assert_eq!(
        check_probe(&probe, "h264", 720, 60).unwrap_err(),
        "encoded 1080p, expected 720p"
    );
    assert_eq!(
        check_probe(&probe, "h264", 1080, 60).unwrap_err(),
        "encoded 30.0 fps, expected 60 fps"
    );
}

#[test]
fn each_clip_error_has_its_message() {
    assert!(validate_test_clip(10_000, 100_000, 10).is_ok());
    assert!(validate_test_clip(17_000, 100_000, 10).is_ok());
    let fail = |ms, bytes| validate_test_clip(ms, bytes, 10).unwrap_err();
    assert_eq!(fail(10_000, 9), "clip is suspiciously small (9 bytes)");
    assert_eq!(fail(0, 100_000), "clip duration could not be measured");
    assert_eq!(fail(4_999, 100_000), "recorded 4999 ms of the requested 10000 ms");
    assert_eq!(
        fail(17_001, 100_000),
        "recorded 17001 ms, far more than requested (10000 ms)"
    );
}

#[test]
fn tests_are_short_and_step_down() {
    assert_eq!(test_seconds(None), 10);
    assert_eq!((test_seconds(Some(1)), test_seconds(Some(99))), (5, 30));
    assert_eq!(test_fallback(1080, 60), (Some(720), Some(60)));
    assert_eq!(test_fallback(720, 60), (Some(720), Some(30)));
    assert_eq!(test_fallback(720, 30), (None, None));
}

#[test]
fn a_test_asks_for_its_values() {
    let settings = Some(vec![("cqp".to_string(), Json::Unsigned(20))]);
    let o = test_overrides(Some(720), None, None, Some("obs_nvenc_hevc_tex".into()), settings, None)
        .unwrap_or_else(|e| panic!("{e}"));
    assert_eq!((o.height, o.duration_seconds), (Some(720), Some(10)));
    assert_eq!(o.custom_encoder.as_ref().unwrap().encoder, "obs_nvenc_hevc_tex");
    assert_eq!(expected_test_height(&o, &stored(&[]), Some(1440)), 720);
    let none = test_overrides(None, None, None, None, None, None).unwrap_or_else(|e| panic!("{e}"));
    assert_eq!(expected_test_height(&none, &stored(&[]), Some(1440)), 1440);
    assert_eq!(expected_test_height(&none, &stored(&[]), None), 1080);
    assert_eq!(expected_test_height(&none, &stored(&[("out_height", "480")]), None), 480);
    let unknown = test_overrides(None, None, None, Some("nope".into()), None, None);
    assert_eq!(unknown.err().unwrap(), "unknown encoder 'nope'");
    let bad = Some(vec![("gpu".to_string(), Json::Unsigned(0))]);
    let refused = test_overrides(None, None, None, Some("obs_x264".into()), bad, None);
    assert_eq!(refused.err().unwrap(), "unknown option 'gpu' for this encoder");
}

fn target() -> TestTarget {
    TestTarget {
        height: 1080,
        fps: 60,
        codec: "h264".into(),
        encoder: "gpu".into(),
        bitrate_kbps: 20_000,
        seconds: 10,
    }
}

#[test]
fn a_test_reports_what_it_measured() {
    let good = TestRecording {
        duration_ms: 10_100,
        size_bytes: 100_000,
        probe: Some(VideoProbe {
            codec_name: "h264".into(),
            profile: "High".into(),
            width: 1920,
            height: 1080,
            fps_bits: 60.0f64.to_bits(),
            fps_text: "60.0".into(),
        }),
    };
    let unread = TestRecording {
        duration_ms: 10_100,
        size_bytes: 100_000,
        probe: None,
    };
    let r = finish_test(target(), 900, Ok(unread));
    assert_eq!(
        r.error.as_deref(),
        Some("could not read the video stream of the test clip")
    );
    let r = finish_test(target(), 900, Ok(good));
    assert!(r.ok && r.error.is_none() && r.fallback_height.is_none());
    assert_eq!((r.measured_duration_ms, r.startup_ms), (10_100, 900));
    let r = finish_test(target(), 900, Err("no engine".into()));
    assert!(!r.ok);
    assert_eq!(r.error.as_deref(), Some("no engine"));
    assert_eq!((r.fallback_height, r.fallback_fps), (Some(720), Some(60)));
}

#[test]
fn clip_names_stay_unique() {
    assert!(matches!(clip_name_step("a.mp4", &strings(&["b.mp4"])), NameStep::Keep));
    match clip_name_step("a.mp4", &strings(&["a.mp4", "a_2.mp4"])) {
        NameStep::Try { n, name } => assert_eq!((n, name.as_str()), (3, "a_3.mp4")),
        _ => panic!("a taken name gets a number"),
    }
    match next_free_name("a.mp4", &vec![], 4) {
        NameStep::Try { n, name } => assert_eq!((n, name.as_str()), (4, "a_4.mp4")),
        _ => panic!("the next number is tried"),
    }
    let all: Vec<String> = (2..=999).map(|n| format!("a_{n}.mp4")).collect();
    match next_free_name("a.mp4", &all, 2) {
        NameStep::Fail(e) => assert_eq!(e, "cannot find a free clip name"),
        _ => panic!("no number is left"),
    }
}

#[test]
fn clip_paths_stay_inside() {
    assert_eq!(resolve_clip_src("/clips", "a.mp4").unwrap(), "/clips/a.mp4");
    for name in ["../a.mp4", "/etc/passwd", "\\a", "a/../../b"] {
        assert_eq!(resolve_clip_src("/clips", name).unwrap_err(), "invalid file name");
    }
    assert_eq!(stem_of("a.b.mp4"), "a.b");
    assert_eq!(stem_of(".hidden"), ".hidden");
    assert_eq!(extension_of("a.mp4").as_deref(), Some("mp4"));
    assert_eq!(extension_of(".hidden"), None);
    assert_eq!(thumb_name("a.mp4"), "thumb_a.jpg");
}

#[test]
fn durations_are_read_from_reports() {
    let report = "Input #0\n  Duration: 00:01:02.50, start: 0.0\n";
    assert_eq!(find_duration(report).as_deref(), Some("00:01:02.50"));
    assert_eq!(find_duration("nothing"), None);
    let d = split_duration("01:02:03.5").unwrap();
    assert_eq!((d.hours, d.minutes, d.seconds.as_str()), (1, 2, "03.5"));
    assert!(split_duration("N/A").is_none());
    assert_eq!(clip_length(Some(1_500), &stored(&[])), 1_500);
    assert_eq!(clip_length(None, &stored(&[("buffer_seconds", "20")])), 20_000);
    assert!(is_length_wrong(10_000, 20_000));
    assert!(!is_length_wrong(10_000, 10_000));
    assert_eq!(check_preview_track(2).unwrap(), "0:2");
    assert_eq!(
        check_preview_track(4).unwrap_err(),
        "track must be 1 (mix), 2 (game) or 3 (mic)"
    );
    assert!(retry_thumbnail(1_499) && !retry_thumbnail(1_500));
}

#[test]
fn a_source_gets_more_time_the_first_time() {
    assert!(is_first_time(""));
    assert!(!is_first_time("tok"));
    assert!(matches!(source_step(0, false), SourceStep::Again(_)));
    assert!(matches!(source_step(u64::MAX, true), SourceStep::Fail(_)));
}

fn pairs(v: &[StoreWrite]) -> Vec<(&str, &str)> {
    v.iter()
        .map(|w| match w {
            StoreWrite::Setting { key, value } => (key.as_str(), value.as_str()),
            StoreWrite::Game { key, title, .. } => (key.as_str(), title.as_str()),
        })
        .collect()
}

#[test]
fn a_start_stores_what_it_learned() {
    let token = Some("tok".to_string());
    let writes = after_start(&None, &token, 2560, 1440, 5);
    assert_eq!(
        pairs(&writes),
        [
            ("engine_restore_token", "tok"),
            ("engine_source_width", "2560"),
            ("engine_source_height", "1440")
        ]
    );
    let game = Some(GameContext {
        key: "steam:1".into(),
        title: "Game".into(),
        source_kind: None,
        window_match: None,
        token: None,
        duration_seconds: None,
    });
    let writes = after_start(&game, &token, 2560, 1440, 5);
    assert!(pairs(&writes).contains(&("steam:1", "Game")));
    assert_eq!(
        pairs(&forget_source()),
        [
            ("engine_restore_token", ""),
            ("engine_source_width", ""),
            ("engine_source_height", "")
        ]
    );
}

#[test]
fn status_follows_the_engine() {
    let on = started_status(3);
    assert!(on.running && on.tracks_linked == 3 && on.backend == "obs");
    assert!(!stopped_status().running);
    let s = current_status(true, Some(2), None, Some("late".into()));
    assert!(s.running);
    assert_eq!((s.tracks_linked, s.engine_error.as_deref()), (2, Some("late")));
    assert!(matches!(liveness(false, true, &vec![]), Liveness::Absent));
    assert!(matches!(liveness(true, true, &vec![]), Liveness::Alive));
    assert!(matches!(liveness(true, false, &vec![]), Liveness::Died(_)));
    assert!(check_start(false).is_ok());
    assert_eq!(check_start(true).unwrap_err(), "buffer already running");
}

#[test]
fn gains_come_back_as_they_were_written() {
    let (write, percent) = gain_write("game", 250).unwrap_or_else(|e| panic!("{e}"));
    assert_eq!(percent, 200);
    assert_eq!(pairs(&[write]), [("gain_game", "200")]);
    let g = read_gains(&stored(&[("gain_game", "200"), ("mute_mic", "1")]));
    assert_eq!((g.game, g.mic, g.mute_game, g.mute_mic), (200, 100, false, true));
    let mute = mute_write("mic", true).unwrap_or_else(|e| panic!("{e}"));
    assert_eq!(pairs(&[mute]), [("mute_mic", "1")]);
    assert_eq!(
        gain_write("mix", 1).err().unwrap(),
        "track must be 'game' or 'mic'"
    );
    assert!(mute_write("mix", true).is_err());
    assert!(matches!(gain_step(true, true), GainStep::Done));
    assert!(matches!(gain_step(true, false), GainStep::Restart));
    assert!(matches!(gain_step(false, false), GainStep::Done));
}

#[test]
fn the_engine_tells_its_version() {
    assert_eq!(engine_version(b"OBS Studio - 32.0.1\nmore\n", b""), "OBS Studio - 32.0.1");
    assert_eq!(engine_version(b"", b"from stderr\n"), "from stderr");
    let found = Some(("/opt/engine".to_string(), "bundled".to_string()));
    let info = obs_info(&stored(&[]), None, found, vec![]);
    assert!(info.present);
    assert_eq!((info.websocket_port, info.profile.as_str()), (4456, "MoonClip"));
    let missing = obs_info(&stored(&[("engine_ws_port", "5000")]), None, None, vec![]);
    assert!(!missing.present);
    assert_eq!((missing.source.as_str(), missing.websocket_port), ("missing", 5000));
    assert!(is_spanish(&stored(&[("locale", "es-AR")])));
    assert!(!is_spanish(&stored(&[("locale", "en")])));
    assert!(is_spanish(&stored(&[])));
}

fn ids(codecs: &[&str]) -> Vec<String> {
    offer_codecs(&strings(codecs)).iter().map(|c| c.id.clone()).collect()
}

#[test]
fn codecs_are_offered_as_the_encoders_know_them() {
    assert_eq!(ids(&["h264", "vp9", "av1"]), ["h264", "av1"]);
    assert_eq!(ids(&["vp9"]), ["h264"]);
}

fn ladder() -> Vec<LadderRow> {
    vec![LadderRow {
        height: 1080,
        cells: vec![LadderCell {
            kbps: 20_000,
            recommended: (15_000, 30_000),
            ring_mb_60s: 200,
        }],
    }]
}

#[test]
fn the_video_page_lists_what_can_be_chosen() {
    let rows = ladder();
    let h = height_option(&rows[0]);
    assert_eq!((h.height, h.label.as_str()), (1080, "1080p"));
    assert_eq!((h.bitrates, h.ring_mb_60s), (vec![20_000], vec![200]));
    let monitors = vec![Monitor {
        name: "DP-1".into(),
        alt_id: String::new(),
        label: "Main".into(),
        width: 2560,
        height: 1440,
        primary: true,
    }];
    let s = stored(&[
        ("fps", "120"),
        ("video_codec", "hevc"),
        ("custom_encoder_json", r#"{"encoder":"obs_x264","settings":{"crf":20}}"#),
    ]);
    let codecs = offer_codecs(&strings(&["h264", "hevc"]));
    let v = video_options(&s, "nvidia", codecs, &rows, &monitors, &catalog_linux());
    assert_eq!((v.current_codec.as_str(), v.current_fps), ("hevc", 120));
    assert!(v.fps_options.contains(&120));
    assert_eq!(v.encoders.len(), catalog_linux().len());
    assert_eq!(v.encoder_schema.len(), catalog_linux().len());
    assert_eq!(v.monitors[0].label, "Main");
    assert!(!v.portal_ready);
    let custom = v.custom.unwrap();
    assert_eq!(custom.encoder, "obs_x264");
    assert_eq!(custom.settings[0].1.as_i64(), Some(20));
}

#[test]
fn encoders_say_whether_they_can_be_used() {
    let nvenc = lookup_encoder("obs_nvenc_h264_tex").unwrap();
    let codecs = offer_codecs(&strings(&["h264"]));
    let o = encoder_option(&nvenc, "nvidia", &codecs);
    assert!(o.available && o.validated && o.family == "nvenc");
    assert!(!encoder_option(&nvenc, "amd", &codecs).available);
    let hevc = lookup_encoder("obs_nvenc_hevc_tex").unwrap();
    assert!(!encoder_option(&hevc, "nvidia", &codecs).available);
    let form = encoder_form(&nvenc);
    assert_eq!((form.encoder.as_str(), form.codec.as_str()), ("obs_nvenc_h264_tex", "h264"));
    let preset = form.options.iter().find(|o| o.key == "preset").unwrap();
    assert_eq!(preset.kind, "enum");
    assert!(preset.supported && preset.values.contains(&"p7".to_string()));
    assert!(encoder_colors(&nvenc).formats.contains(&"NV12".to_string()));
    assert_eq!(family_slug(EncoderFamily::Vaapi), "vaapi");
}

#[test]
fn a_stored_selection_is_shown_only_when_it_is_valid() {
    assert!(read_selection("", "").is_none());
    assert!(read_selection("junk", "").is_none());
    let encoder = r#"{"encoder":"obs_x264","settings":{}}"#;
    let s = read_selection(encoder, "").unwrap();
    assert!(s.video.is_none());
    let video = r#"{"out_width":1280,"out_height":720,"scale_type":"bicubic","fps_type":"integer","fps_common":60,"fps_int":50,"fps_num":60,"fps_den":1,"color_format":"NV12","color_space":"709","color_range":"Full"}"#;
    let s = read_selection(encoder, video).unwrap();
    assert_eq!(s.video.unwrap().out_width, 1280);
    // All fields in their order, as a list.
    let list = r#"[1280,720,"bicubic","integer",60,50,60,1,"NV12","709","Full"]"#;
    assert_eq!(read_selection(encoder, list).unwrap().video.unwrap().fps_int, 50);
    // A field that stands twice, or not at all, is no selection.
    let twice = video.replace("{\"out_width\"", "{\"out_width\":640,\"out_width\"");
    assert!(read_selection(encoder, &twice).is_none());
    let missing = video.replace("\"out_width\":1280,", "");
    assert!(read_selection(encoder, &missing).is_none());
    let more = video.replace("{", "{\"note\":[1,{}],\"note\":2,");
    assert!(read_selection(encoder, &more).unwrap().video.is_some());
    let signed = video.replace("1280", "-1280");
    assert!(read_selection(encoder, &signed).is_none());
}

#[test]
fn records_are_read_into_their_fields() {
    let fields = read_record(r#"{"b":"x,y","a":[1,2],"c":0}"#, &["a", "b", "d"], 1).unwrap();
    assert_eq!(fields.len(), 3);
    assert!(matches!(&fields[0], Some(Ok(Json::Array(v))) if v.len() == 2));
    assert_eq!(text_at(&fields, 1).as_deref(), Some("x,y"));
    assert!(fields[2].is_none());
    assert_eq!(whole_at(&fields, 1), None);
    let fields = read_record("[7, \"s\"]", &["a", "b", "d"], 1).unwrap();
    assert_eq!(whole_at(&fields, 0), Some(7));
    assert!(fields[2].is_none());
    assert!(read_record("[1,2]", &["a"], 1).is_none());
    assert!(read_record(r#"{"a":1,"a":2}"#, &["a"], 1).is_none());
    assert!(read_record(r#"{"a":1,"a":2}"#, &["b"], 1).is_some());
    assert!(read_record("{}", &["a"], 1).unwrap()[0].is_none());
    assert!(read_record("{\"a\":1", &["a"], 1).is_none());
    assert!(read_record("5", &["a"], 1).is_none());
    assert_eq!(split_array("[1, [2,3], \"4,5\"]").unwrap().len(), 3);
    assert!(split_array("{}").is_none());
}

#[test]
fn paths_are_joined_and_taken_apart() {
    assert_eq!(join("/a", "b"), "/a/b");
    assert_eq!(join("/a/", "b"), "/a/b");
    assert_eq!(join("/a", "/b"), "/b");
    assert_eq!(basename_of("/a/b.mp4"), "b.mp4");
    assert_eq!(parent("/a/b").as_deref(), Some("/a"));
    assert_eq!(parent("/"), None);
    assert!(same_path("/a//b/", "/a/./b"));
    assert!(!same_path("/a/b", "/a/c"));
}

#[test]
fn texts_are_cut_and_read() {
    assert_eq!(trimmed("\t a b\u{a0}\n"), "a b");
    assert_eq!(split_on("a,,b", ','), ["a", "", "b"]);
    assert_eq!(words_of(" a  b\n"), ["a", "b"]);
    assert_eq!(lines_of("a\r\nb\n"), ["a", "b"]);
    assert_eq!((decimal_of(0), decimal_of_int(i64::MIN)), ("0".into(), "-9223372036854775808".into()));
    assert_eq!(parse_u64("18446744073709551615", u64::MAX), Some(u64::MAX));
    assert_eq!(parse_u64("18446744073709551616", u64::MAX), None);
    assert_eq!((parse_u32("+7"), parse_u32("-7"), parse_u32("")), (Some(7), None, None));
    assert_eq!((parse_i64("-7"), parse_i64("-")), (Some(-7), None));
    assert_eq!(ascii_uppered("aé1"), "Aé1");
}

fn row(id: &str, on_disk: bool) -> IndexedClip {
    IndexedClip {
        id: id.to_string(),
        file_name: format!("{id}.mp4"),
        on_disk,
    }
}

#[test]
fn clips_without_a_file_leave_the_index() {
    let rows = vec![row("a", true), row("b", false), row("c", false)];
    assert_eq!(purge_missing_clips(&rows), ["b", "c"]);
    assert_eq!(find_clip(&rows, "c"), Ok(2));
    assert_eq!(find_clip(&rows, "z").unwrap_err(), "clip not found");
    assert!(check_on_disk(&rows[0]).is_ok());
    assert_eq!(check_on_disk(&rows[1]).unwrap_err(), "file gone from disk: b.mp4");
}

#[test]
fn previews_are_lenient_about_video_range() {
    let args = thumbnail_args("1.00", "/c/a.mp4", "/c/thumb_a.jpg");
    assert_eq!(
        args.join(" "),
        "-y -hide_banner -loglevel error -ss 1.00 -i /c/a.mp4 -vframes 1 -q:v 2 -strict unofficial /c/thumb_a.jpg"
    );
    let args = preview_args("/c/a.mp4", "0:2", "/t/p.m4a");
    assert_eq!(
        args.join(" "),
        "-y -hide_banner -loglevel error -i /c/a.mp4 -map 0:2 -c:a aac /t/p.m4a"
    );
}

#[test]
fn notices_speak_the_language_of_the_user() {
    assert_eq!(
        notice_text(&Notice::Restarted, true),
        "Búfer reiniciado con la nueva configuración"
    );
    assert_eq!(
        notice_text(&Notice::Reverted, false),
        "Change not applied; previous configuration restored"
    );
    assert_eq!(
        notice_text(&hotkey_notice(None), false),
        "Buffer stopped — press Start to record"
    );
    assert_eq!(
        notice_text(&hotkey_notice(Some(Ok("a.mp4".into()))), true),
        "Clip guardado: a.mp4"
    );
    assert_eq!(
        notice_text(&hotkey_notice(Some(Err("no disk".into()))), false),
        "Save failed: no disk"
    );
}
