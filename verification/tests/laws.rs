//! What holds of several functions together, on chosen values.

use moonclip::capture::{build_capture_config, plan_capture, CaptureEnv, StartOverrides};
use moonclip::changes::{set_settings, set_video_quality, SettingPair};
use moonclip::detect::parsers::{
    is_blacklisted, is_wine_helper, parse_libraryfolders, BLACKLIST, WINE_HELPERS,
};
use moonclip::encoder_custom::{check_custom_video, parse_custom_video};
use moonclip::encoder_options::{
    catalog_linux, catalog_windows, ladder_recipe, lookup_encoder, resolved_options,
    valid_color_formats, validate,
};
use moonclip::encoder_tables::{options_for, EncoderFamily, SpecDefault};
use moonclip::linux::engine::LinuxPlatform;
use moonclip::linux::video::offered_codecs;
use moonclip::obs_files::{existing_restore_token, plan_obs_config};
use moonclip::profile::{normalize_device_id, ObsProfile};
use moonclip::render::{render_basic_ini, SourceUuids, FORBIDDEN_SOURCE_ID};
use moonclip::settings::TextMap;
use moonclip::text::trimmed;

fn stored(pairs: &[(&str, &str)]) -> TextMap {
    let mut m = TextMap::new();
    for (k, v) in pairs {
        m.insert(k.to_string(), v.to_string());
    }
    m
}

const FAMILIES: [EncoderFamily; 5] = [
    EncoderFamily::Nvenc,
    EncoderFamily::X264,
    EncoderFamily::Qsv,
    EncoderFamily::Amf,
    EncoderFamily::Vaapi,
];

const VIDEO: &str = r#"{"out_width":1281,"out_height":721,"scale_type":"LANCZOS","fps_type":"Fractional","fps_common":60,"fps_int":60,"fps_num":60000,"fps_den":1001,"color_format":"p010","color_space":"709","color_range":"full"}"#;

#[test]
fn defaults_can_be_chosen_for_every_codec() {
    for family in FAMILIES {
        let table = options_for(family);
        for codec in ["h264", "hevc", "av1"] {
            let formats = valid_color_formats(family, codec);
            assert_eq!(formats[0], "NV12");
            let options = resolved_options(family, codec);
            assert_eq!(options.len(), table.len());
            for (r, o) in options.iter().zip(&table) {
                assert_eq!((r.key, r.step, r.i18n), (o.key, o.step, o.i18n));
                match r.default {
                    Some(SpecDefault::Str(d)) => assert!(r.values.contains(&d), "{codec} {}", r.key),
                    Some(SpecDefault::Int(d)) => assert!(r.min <= d && d <= r.max, "{codec} {}", r.key),
                    _ => {}
                }
                let ten_bit = r.values.iter().any(|v| r.p010_values.contains(v))
                    || r.int_values.iter().any(|v| r.p010_ints.contains(v));
                assert!(!ten_bit || formats.contains(&"P010"), "{codec} {}", r.key);
            }
        }
    }
}

#[test]
fn lower_case_goes_word_by_word() {
    for n in 0..=0x10ffffu32 {
        let Some(c) = char::from_u32(n) else { continue };
        let word = format!("Ab{c}Q{c}");
        let low = word.to_lowercase();
        assert!(low.starts_with("ab"));
        assert_eq!(word.to_ascii_uppercase().to_lowercase(), low);
        assert_eq!(word.to_ascii_lowercase().to_lowercase(), low);
        assert!(!c.to_uppercase().to_string().is_empty());
        for between in ['/', '\\', ' ', '\u{85}', '\u{2003}', '\u{3000}'] {
            let other = c.to_string().to_lowercase();
            assert_eq!(format!("{word}{between}{c}").to_lowercase(), format!("{low}{between}{other}"));
        }
    }
    // A final sigma looks at its own word alone.
    for between in ['/', '\\', ' ', '\t', '\u{a0}'] {
        for (a, b) in [("AΣ", "ΣB"), ("Σ", "ΑΣ"), ("ΑΣ.", "Σ"), ("aΣ'", "'ΣΑ")] {
            assert_eq!(
                format!("{a}{between}{b}").to_lowercase(),
                format!("{}{between}{}", a.to_lowercase(), b.to_lowercase())
            );
        }
    }
}

#[test]
fn only_the_name_of_a_process_counts() {
    for name in BLACKLIST {
        assert!(is_blacklisted(name), "{name}");
        assert!(is_blacklisted(&name.to_ascii_uppercase()), "{name}");
        assert!(is_blacklisted(&format!("/opt/Game dir/{name}")), "{name}");
        assert!(is_blacklisted(&format!("C:\\Ñandú\\{name}")), "{name}");
    }
    for name in WINE_HELPERS {
        assert!(is_wine_helper(name) && is_blacklisted(name), "{name}");
        assert!(is_wine_helper(&format!("Z:\\{}", name.to_ascii_uppercase())), "{name}");
        assert!(name.ends_with(".exe"));
    }
    assert!(is_blacklisted("MoonClip-anything else"));
    assert!(is_blacklisted("/opt/ΑΣ/moonclip-ñandú") && is_blacklisted("MOONCLIPΣ "));
    assert!(is_wine_helper("C:\\ΑΣ\\Services.EXE") && is_blacklisted("C:\\ΑΣ\\Services.EXE"));
    assert!(!is_wine_helper(" services.exe") && is_blacklisted(" services.exe"));
    assert!(!is_blacklisted("/games/eldenring.exe") && !is_blacklisted("TERRARIA"));
}

#[test]
fn a_checked_video_tab_stays_as_it_is() {
    let once = parse_custom_video(EncoderFamily::Nvenc, "hevc", VIDEO).unwrap();
    let twice = check_custom_video(EncoderFamily::Nvenc, "hevc", &once).unwrap();
    assert_eq!((once.out_width, once.out_height), (1280, 720));
    assert_eq!((twice.out_width, twice.out_height), (1280, 720));
    assert_eq!(once.scale_type, "lanczos");
    assert_eq!(twice.scale_type, once.scale_type);
    assert_eq!(twice.fps_type, "fractional");
    assert_eq!(twice.color_format, "P010");
    assert_eq!(twice.color_range, "Full");
}

#[test]
fn every_ladder_recipe_passes_the_checks() {
    for entry in catalog_windows().iter().chain(catalog_linux().iter()) {
        let recipe = ladder_recipe(entry.id, 20_000, 1, entry.codec).unwrap();
        if let Err(e) = validate(entry.family, entry.codec, &recipe) {
            panic!("{}: {e}", entry.id);
        }
        let found = lookup_encoder(entry.id).unwrap();
        assert_eq!((found.family, found.codec), (entry.family, entry.codec));
    }
}

#[test]
fn offered_codecs_have_an_encoder() {
    for vendor in ["nvidia", "amd", "intel"] {
        for codec in offered_codecs(vendor) {
            let (codec, encoder) = match codec.as_str() {
                "x264" => ("h264", "cpu"),
                other => (other, "gpu"),
            };
            let id = LinuxPlatform.encoder_id(vendor, codec, encoder);
            assert!(id.is_some(), "{vendor} {codec}");
        }
    }
}

#[test]
fn resolved_ids_and_trimmed_texts_stay() {
    for stored in ["", " default_output ", "alsa_output.x", "default_input"] {
        let once = normalize_device_id(stored, true);
        assert_eq!(normalize_device_id(&once, true), once);
    }
    let once = trimmed(" \t a \u{2003}");
    assert_eq!(trimmed(&once), once);
}

#[test]
fn libraries_are_listed_once() {
    let text = "\"0\"\n{\n\"path\"\t\"/a\"\n}\n\"1\"\n{\n\"path\"\t\"/a/\"\n}\n\"2\"\n{\n\"path\"\t\"/b\"\n}\n";
    let paths = parse_libraryfolders(text);
    assert_eq!(paths.len(), 2);
    assert_eq!(paths[1], "/b");
}

fn env(vendor: &str) -> CaptureEnv {
    CaptureEnv {
        output_dir: "/clips".to_string(),
        devices: Err("none".to_string()),
        vendor: vendor.to_string(),
        obs_bin: "/opt/engine".to_string(),
        websocket_password: "0123456789abcdef".to_string(),
    }
}

fn started(settings: &TextMap, vendor: &str) -> ObsProfile {
    let o = StartOverrides::default();
    let plan = plan_capture(settings, &o, None).unwrap_or_else(|e| panic!("{e}"));
    let config = build_capture_config(plan, settings, &o, 20_000, &env(vendor));
    ObsProfile::from_config(&config, &LinuxPlatform.answers(&config))
        .unwrap_or_else(|e| panic!("{e}"))
}

#[test]
fn a_planned_start_gets_its_profile() {
    let ladder = started(&stored(&[("video_codec", "hevc")]), "amd");
    assert_eq!(ladder.encoder_id, "hevc_ffmpeg_vaapi");
    assert_eq!(ladder.video_source_id, "pipewire-desktop-capture-source");
    let custom = stored(&[
        ("video_mode", "custom"),
        (
            "custom_encoder_json",
            r#"{"encoder":"obs_nvenc_hevc_tex","settings":{"profile":"main10","bitrate":30000}}"#,
        ),
        ("custom_video_json", VIDEO),
    ]);
    let p = started(&custom, "nvidia");
    assert_eq!((p.encoder_id.as_str(), p.codec.as_str()), ("obs_nvenc_hevc_tex", "hevc"));
    assert_eq!((p.out_width, p.out_height, p.fps), (1280, 720, 59));
    assert_eq!(p.bitrate_kbps, 30_000);
    assert!(render_basic_ini(&p).contains("ColorFormat=P010\n"));
}

#[test]
fn a_scene_never_hooks_a_game_and_keeps_its_token() {
    let p = started(&stored(&[("engine_restore_token", "tok")]), "intel");
    let uuids = SourceUuids::generate();
    let files = plan_obs_config("/data/config", &p, false, None, &uuids);
    let scene = &files.files.iter().find(|f| f.0.ends_with("scenes/MoonClip.json")).unwrap().1;
    assert!(!scene.contains(FORBIDDEN_SOURCE_ID));
    assert_eq!(existing_restore_token(scene).as_deref(), Some("tok"));
    // A later start without a stored token still restores silently.
    let q = started(&stored(&[]), "intel");
    let files = plan_obs_config("/data/config", &q, false, Some(scene), &uuids);
    let scene = &files.files.iter().find(|f| f.0.ends_with("scenes/MoonClip.json")).unwrap().1;
    assert_eq!(existing_restore_token(scene).as_deref(), Some("tok"));
}

#[test]
fn a_change_that_is_taken_back_leaves_what_was_stored() {
    let before = [("fps", "144"), ("video_mode", "custom"), ("locale", "es")];
    let mut now = stored(&before);
    let plan = match set_video_quality(&now, &[720], "av1", 720, 30) {
        Ok(plan) => plan,
        Err(e) => panic!("{e}"),
    };
    for p in &plan.writes {
        now.insert(p.key.clone(), p.value.clone());
    }
    assert_eq!(now.get("video_mode").map(String::as_str), Some("ladder"));
    assert_eq!(now.get("locale").map(String::as_str), Some("es"));
    for p in &plan.undo {
        now.insert(p.key.clone(), p.value.clone());
    }
    for (key, value) in before {
        assert_eq!(now.get(key).map(String::as_str), Some(value));
    }
}

#[test]
fn a_refused_change_writes_nothing() {
    let values = vec![SettingPair {
        key: "custom_encoder_json".to_string(),
        value: r#"{"encoder":"obs_x264","settings":{"crf":99}}"#.to_string(),
    }];
    assert!(set_settings(&stored(&[]), values).is_err());
}
