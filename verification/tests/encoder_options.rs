use moonclip::encoder_custom::{
    canon, custom_effective_fps, even_clamp, parse_custom_encoder, parse_custom_video,
    FPS_COMMON_VALUES, FPS_TYPES,
};
use moonclip::encoder_options::{
    auto_recipe, catalog_linux, catalog_windows, families_for_vendor, family_of, family_validated,
    ladder_recipe, lookup_encoder, resolved_options, valid_color_formats, validate, validate_pair,
    ResolvedOption, SCALE_FILTERS,
};
use moonclip::encoder_tables::{options_for, EncoderFamily, SpecDefault, SpecKind};
use moonclip::json::Json;

type Settings = Vec<(String, Json)>;

fn keys(m: &Settings) -> Vec<&str> {
    let mut v: Vec<&str> = m.iter().map(|e| e.0.as_str()).collect();
    v.sort_unstable();
    v
}

fn kv(m: &mut Settings, k: &str, v: Json) {
    m.push((k.to_string(), v));
}

fn text(s: &str) -> Json {
    Json::Str(s.to_string())
}

fn signed(n: i64) -> Json {
    Json::Signed(n)
}

fn value<'a>(m: &'a Settings, key: &str) -> &'a Json {
    &m.iter().find(|e| e.0 == key).unwrap().1
}

#[test]
fn family_ids_cover_both_catalogs() {
    for e in catalog_windows().iter().chain(catalog_linux().iter()) {
        assert_eq!(
            family_of(e.id),
            Some(e.family),
            "catalog id '{}' must resolve to its family",
            e.id
        );
    }
    assert_eq!(family_of("obs_x264"), Some(EncoderFamily::X264));
    assert_eq!(family_of("game_capture"), None);
    assert_eq!(family_of(""), None);
}

#[test]
fn catalog_has_no_duplicate_ids() {
    for catalog in [catalog_windows(), catalog_linux()] {
        let mut ids: Vec<&str> = catalog.iter().map(|e| e.id).collect();
        ids.sort_unstable();
        ids.dedup();
        assert_eq!(ids.len(), catalog.len());
    }
}

#[test]
fn validated_families_are_nvenc_and_x264_only() {
    assert!(family_validated(EncoderFamily::Nvenc));
    assert!(family_validated(EncoderFamily::X264));
    assert!(!family_validated(EncoderFamily::Amf));
    assert!(!family_validated(EncoderFamily::Qsv));
    assert!(!family_validated(EncoderFamily::Vaapi));
}

#[test]
fn nvenc_uses_obs32_keys_not_legacy() {
    let options = options_for(EncoderFamily::Nvenc);
    let all: Vec<&str> = options.iter().map(|s| s.key).collect();
    for stale in ["preset2", "psycho_aq", "gpu"] {
        assert!(!all.contains(&stale), "stale key '{stale}' must not exist");
    }
    for required in [
        "rate_control",
        "bitrate",
        "max_bitrate",
        "target_quality",
        "cqp",
        "keyint_sec",
        "preset",
        "tune",
        "multipass",
        "profile",
        "lookahead",
        "adaptive_quantization",
        "device",
        "bf",
        "opts",
    ] {
        assert!(all.contains(&required), "missing NVENC key '{required}'");
    }
}

#[test]
fn qsv_uses_target_usage_not_preset() {
    let options = options_for(EncoderFamily::Qsv);
    let all: Vec<&str> = options.iter().map(|s| s.key).collect();
    assert!(!all.contains(&"preset"), "QSV must not write 'preset'");
    assert!(
        !all.contains(&"async_depth"),
        "QSV must not write 'async_depth'"
    );
    for required in [
        "rate_control",
        "bitrate",
        "max_bitrate",
        "cqp",
        "icq_quality",
        "target_usage",
        "profile",
        "keyint_sec",
        "latency",
        "bframes",
    ] {
        assert!(all.contains(&required), "missing QSV key '{required}'");
    }
}

#[test]
fn auto_recipe_is_minimal_and_cross_family_safe() {
    let auto = auto_recipe(20000);
    assert_eq!(keys(&auto), ["bitrate", "rate_control"]);
    assert_eq!(value(&auto, "rate_control").as_str(), Some("CBR"));
    for family in [
        EncoderFamily::Nvenc,
        EncoderFamily::X264,
        EncoderFamily::Qsv,
        EncoderFamily::Amf,
        EncoderFamily::Vaapi,
    ] {
        assert!(
            validate(family, "h264", &auto).is_ok(),
            "auto recipe must validate everywhere"
        );
    }
}

#[test]
fn ladder_recipes_match_validation_state() {
    let nv = ladder_recipe("obs_nvenc_h264_tex", 20000, 0, "h264").unwrap();
    assert!(keys(&nv).contains(&"preset"));
    assert!(keys(&nv).contains(&"adaptive_quantization"));
    assert_eq!(value(&nv, "device").as_i64(), Some(-1));
    let nv2 = ladder_recipe("obs_nvenc_h264_tex", 20000, 2, "h264").unwrap();
    assert_eq!(value(&nv2, "device").as_i64(), Some(2));
    let hevc = ladder_recipe("obs_nvenc_hevc_tex", 12000, 0, "hevc").unwrap();
    assert_eq!(value(&hevc, "profile").as_str(), Some("main"));
    let x = ladder_recipe("obs_x264", 20000, 0, "h264").unwrap();
    assert_eq!(value(&x, "preset").as_str(), Some("veryfast"));
    for id in [
        "h264_texture_amf",
        "h265_texture_amf",
        "obs_qsv11_v2",
        "obs_qsv11_hevc",
        "ffmpeg_vaapi",
    ] {
        let auto = ladder_recipe(id, 20000, 0, "h264").unwrap();
        assert_eq!(keys(&auto), ["bitrate", "rate_control"], "{id}");
    }
    assert!(ladder_recipe("ffmpeg_nvenc", 20000, 0, "h264").is_none());
}

#[test]
fn validate_accepts_documented_values() {
    let mut m = Vec::new();
    kv(&mut m, "rate_control", text("CBR"));
    kv(&mut m, "preset", text("p7"));
    kv(&mut m, "tune", text("ll"));
    kv(&mut m, "profile", text("high"));
    kv(&mut m, "bf", signed(4));
    kv(&mut m, "device", signed(-1));
    kv(&mut m, "lookahead", Json::Bool(true));
    kv(&mut m, "opts", text("keyint=120"));
    let out = validate(EncoderFamily::Nvenc, "h264", &m).unwrap_or_else(|e| panic!("{e}"));
    assert_eq!(value(&out, "preset").as_str(), Some("p7"));

    let mut q = Vec::new();
    kv(&mut q, "rate_control", text("CQP"));
    kv(&mut q, "cqp", signed(23));
    kv(&mut q, "target_usage", text("TU1"));
    kv(&mut q, "latency", text("ultra-low"));
    assert!(validate(EncoderFamily::Qsv, "h264", &q).is_ok());

    let mut x = Vec::new();
    kv(&mut x, "rate_control", text("CRF"));
    kv(&mut x, "crf", signed(20));
    kv(&mut x, "preset", text("medium"));
    kv(&mut x, "tune", text("zerolatency"));
    kv(&mut x, "x264opts", text("keyint=120:min-keyint=60"));
    assert!(validate(EncoderFamily::X264, "h264", &x).is_ok());
}

#[test]
fn validate_rejects_unknown_keys_and_values() {
    let mut m = Vec::new();
    kv(&mut m, "preset2", text("p7"));
    assert!(validate(EncoderFamily::Nvenc, "h264", &m).is_err());

    let mut m = Vec::new();
    kv(&mut m, "preset", text("p9"));
    assert!(validate(EncoderFamily::Nvenc, "h264", &m).is_err());

    let mut m = Vec::new();
    kv(&mut m, "bitrate", signed(10));
    assert!(validate(EncoderFamily::Nvenc, "h264", &m).is_err());

    let mut m = Vec::new();
    kv(&mut m, "lookahead", text("yes"));
    assert!(validate(EncoderFamily::Nvenc, "h264", &m).is_err());

    let mut m = Vec::new();
    kv(&mut m, "profile", text("main10"));
    assert!(validate(EncoderFamily::Nvenc, "h264", &m).is_err());

    let mut m = Vec::new();
    kv(&mut m, "target_usage", text("medium"));
    assert!(validate(EncoderFamily::Qsv, "h264", &m).is_err());
}

fn find(family: EncoderFamily, codec: &str, key: &str) -> ResolvedOption {
    resolved_options(family, codec)
        .into_iter()
        .find(|r| r.key == key)
        .unwrap()
}

#[test]
fn resolver_scopes_options_per_codec() {
    let p = find(EncoderFamily::Nvenc, "hevc", "profile");
    assert!(p.supported);
    assert_eq!(p.values, vec!["main10", "main"]);
    assert_eq!(p.default, Some(SpecDefault::Str("main")));
    assert_eq!(p.p010_values, vec!["high10", "main10"]);
    let p = find(EncoderFamily::Nvenc, "av1", "profile");
    assert_eq!(p.values, vec!["main"]);
    let cqp = |codec: &str| find(EncoderFamily::Nvenc, codec, "cqp");
    assert_eq!((cqp("h264").min, cqp("h264").max), (1, 51));
    assert_eq!((cqp("av1").min, cqp("av1").max), (1, 63));
    let bf = |codec: &str| find(EncoderFamily::Amf, codec, "bf");
    assert!(bf("h264").supported);
    assert!(bf("av1").supported);
    assert_eq!((bf("h264").min, bf("h264").max), (0, 5));
    assert!(!bf("hevc").supported);
    let p = find(EncoderFamily::Amf, "hevc", "profile");
    assert!(!p.supported);
    let options = resolved_options(EncoderFamily::Amf, "h264");
    let keys: Vec<&str> = options.iter().map(|r| r.key).collect();
    for stale in ["vbaq", "enforce_hrd", "params", "preanalysis"] {
        assert!(!keys.contains(&stale), "stale AMF key '{stale}'");
    }
    assert!(keys.contains(&"ffmpeg_opts"));
    assert!(keys.contains(&"pre_analysis"));
    let lvl = |codec: &str| find(EncoderFamily::Vaapi, codec, "level");
    assert!(lvl("h264").int_values.contains(&52));
    assert!(!lvl("h264").int_values.contains(&4));
    assert!(lvl("av1").int_values.contains(&4));
    assert!(!lvl("av1").int_values.contains(&52));
    fn default_of(family: EncoderFamily, codec: &str, key: &str) -> Option<SpecDefault> {
        resolved_options(family, codec)
            .into_iter()
            .find(|r| r.key == key)
            .and_then(|r| r.default)
    }
    assert_eq!(
        default_of(EncoderFamily::Nvenc, "hevc", "profile"),
        Some(SpecDefault::Str("main"))
    );
    assert_eq!(
        default_of(EncoderFamily::Qsv, "av1", "profile"),
        Some(SpecDefault::Str("main"))
    );
    assert_eq!(
        default_of(EncoderFamily::Amf, "av1", "preset"),
        Some(SpecDefault::Str("highQuality"))
    );
    assert_eq!(
        default_of(EncoderFamily::Nvenc, "h264", "profile"),
        Some(SpecDefault::Str("high"))
    );
}

#[test]
fn validate_pair_enforces_codec_scope_and_p010() {
    let mut m = Vec::new();
    kv(&mut m, "cqp", signed(60));
    assert!(validate_pair(EncoderFamily::Nvenc, "h264", &m, None).is_err());
    assert!(validate_pair(EncoderFamily::Nvenc, "av1", &m, None).is_ok());
    let mut m = Vec::new();
    kv(&mut m, "profile", text("main10"));
    assert!(validate_pair(EncoderFamily::Nvenc, "hevc", &m, Some("NV12")).is_err());
    assert!(validate_pair(EncoderFamily::Nvenc, "hevc", &m, Some("P010")).is_ok());
    assert!(validate_pair(EncoderFamily::Nvenc, "hevc", &m, None).is_ok());
    let mut m = Vec::new();
    kv(&mut m, "bf", signed(2));
    assert!(validate_pair(EncoderFamily::Amf, "hevc", &m, None).is_err());
    assert!(validate_pair(EncoderFamily::Amf, "h264", &m, None).is_ok());
    let mut m = Vec::new();
    kv(&mut m, "preset", text("highQuality"));
    assert!(validate_pair(EncoderFamily::Amf, "h264", &m, None).is_err());
    assert!(validate_pair(EncoderFamily::Amf, "av1", &m, None).is_ok());
    let mut m = Vec::new();
    kv(&mut m, "level", signed(4));
    assert!(validate_pair(EncoderFamily::Vaapi, "hevc", &m, None).is_err());
    assert!(validate_pair(EncoderFamily::Vaapi, "av1", &m, None).is_ok());
}

#[test]
fn profile_values_are_codec_scoped() {
    fn profile(family: EncoderFamily, codec: &str) -> Vec<&'static str> {
        find(family, codec, "profile").values
    }
    assert!(profile(EncoderFamily::Nvenc, "h264").contains(&"high"));
    assert!(!profile(EncoderFamily::Nvenc, "h264").contains(&"main10"));
    assert_eq!(profile(EncoderFamily::Nvenc, "av1"), vec!["main"]);
    assert_eq!(profile(EncoderFamily::Qsv, "hevc"), vec!["main", "main10"]);
    assert!(profile(EncoderFamily::Amf, "h264").contains(&"baseline"));
    assert!(!profile(EncoderFamily::Amf, "h264").contains(&"constrained_baseline"));
    assert_eq!(profile(EncoderFamily::Amf, "av1"), vec!["main"]);
    fn profile_ints(codec: &str) -> Vec<i64> {
        find(EncoderFamily::Vaapi, codec, "profile").int_values
    }
    assert_eq!(profile_ints("h264"), vec![578, 77, 100]);
    assert_eq!(profile_ints("hevc"), vec![1, 2]);
    assert_eq!(profile_ints("av1"), vec![0]);
}

#[test]
fn color_formats_respect_encoder_limits() {
    assert!(!valid_color_formats(EncoderFamily::X264, "h264").contains(&"P010"));
    assert_eq!(valid_color_formats(EncoderFamily::Qsv, "h264"), &["NV12"]);
    assert!(valid_color_formats(EncoderFamily::Qsv, "hevc").contains(&"P010"));
    assert!(valid_color_formats(EncoderFamily::Nvenc, "h264").contains(&"NV12"));
}

#[test]
fn every_spec_has_i18n_key_and_unique_key() {
    for family in [
        EncoderFamily::Nvenc,
        EncoderFamily::X264,
        EncoderFamily::Qsv,
        EncoderFamily::Amf,
        EncoderFamily::Vaapi,
    ] {
        let opts = options_for(family);
        assert!(!opts.is_empty());
        let mut seen = Vec::new();
        for s in &opts {
            assert!(s.i18n.starts_with("obsopt."), "{}", s.key);
            assert!(!seen.contains(&s.key), "dup {}", s.key);
            seen.push(s.key);
            if matches!(s.kind, SpecKind::Enum) {
                assert!(!s.values.is_empty(), "{}", s.key);
                if let Some(SpecDefault::Str(d)) = s.default {
                    assert!(s.values.contains(&d), "{} default {d}", s.key);
                }
            }
            if matches!(s.kind, SpecKind::Int) && s.int_values.is_empty() {
                assert!(s.min <= s.max, "{}", s.key);
            }
            for (c, vs) in &s.codec_values {
                assert!(!vs.is_empty(), "{} {c}", s.key);
            }
            for (c, d) in &s.codec_defaults {
                if let SpecDefault::Str(d) = d {
                    let allowed = s
                        .codec_values
                        .iter()
                        .find(|e| e.0 == *c)
                        .map(|e| e.1)
                        .unwrap_or(s.values);
                    assert!(allowed.contains(d), "{} {c} default {d} not in list", s.key);
                }
            }
            for c in s.codecs {
                assert!(
                    ["h264", "hevc", "av1"].contains(c),
                    "{} unknown codec {c}",
                    s.key
                );
            }
        }
    }
}

#[test]
fn vaapi_profile_ints_match_ffmpeg_abi() {
    fn profile_ints(codec: &str) -> Vec<i64> {
        find(EncoderFamily::Vaapi, codec, "profile").int_values
    }
    assert_eq!(profile_ints("h264"), vec![578, 77, 100]);
    assert_eq!(profile_ints("hevc"), vec![1, 2]);
    assert_eq!(profile_ints("av1"), vec![0]);
    let mut m = Vec::new();
    kv(&mut m, "profile", signed(77));
    assert!(validate(EncoderFamily::Vaapi, "h264", &m).is_ok());
    let mut m = Vec::new();
    kv(&mut m, "profile", signed(100));
    assert!(validate(EncoderFamily::Vaapi, "hevc", &m).is_err());
}

#[test]
fn custom_encoder_payload_roundtrip() {
    let raw = r#"{"encoder":"obs_nvenc_h264_tex","settings":{"rate_control":"CQP","cqp":20,"preset":"p7"}}"#;
    let c = parse_custom_encoder(raw).unwrap_or_else(|e| panic!("{e}"));
    assert_eq!(c.encoder, "obs_nvenc_h264_tex");
    assert_eq!(value(&c.settings, "cqp").as_i64(), Some(20));
    assert!(parse_custom_encoder(r#"{"encoder":"nope","settings":{}}"#).is_err());
    assert!(parse_custom_encoder(
        r#"{"encoder":"obs_nvenc_h264_tex","settings":{"preset2":"p7"}}"#
    )
    .is_err());
    assert!(parse_custom_encoder("junk").is_err());
}

const VIDEO: &str = r#"{"out_width":2560,"out_height":1440,"scale_type":"lanczos","fps_type":"common","fps_common":120,"fps_int":60,"fps_num":60000,"fps_den":1001,"color_format":"NV12","color_space":"709","color_range":"Partial"}"#;

#[test]
fn custom_video_payload_validates() {
    let raw = VIDEO;
    let v = parse_custom_video(EncoderFamily::Nvenc, "h264", raw).unwrap();
    assert_eq!((v.out_width, v.out_height), (2560, 1440));
    assert_eq!(custom_effective_fps(&v), 120);
    let odd = raw.replace("\"out_width\":2560", "\"out_width\":2559");
    let v = parse_custom_video(EncoderFamily::Nvenc, "h264", &odd).unwrap();
    assert_eq!(v.out_width, 2558);
    let ci = raw
        .replace("\"scale_type\":\"lanczos\"", "\"scale_type\":\"Lanczos\"")
        .replace("\"color_range\":\"Partial\"", "\"color_range\":\"partial\"");
    let v = parse_custom_video(EncoderFamily::Nvenc, "h264", &ci).unwrap();
    assert_eq!(v.scale_type, "lanczos");
    assert_eq!(v.color_range, "Partial");
    let frac = raw.replace("\"fps_type\":\"common\"", "\"fps_type\":\"fractional\"");
    let v = parse_custom_video(EncoderFamily::Nvenc, "h264", &frac).unwrap();
    assert_eq!(custom_effective_fps(&v), 59);
    let p010 = raw.replace("\"color_format\":\"NV12\"", "\"color_format\":\"P010\"");
    assert!(parse_custom_video(EncoderFamily::X264, "h264", &p010).is_err());
    let i444 = raw.replace("\"color_format\":\"NV12\"", "\"color_format\":\"I444\"");
    assert!(parse_custom_video(EncoderFamily::Qsv, "h264", &i444).is_err());
    let bad = raw.replace("\"scale_type\":\"lanczos\"", "\"scale_type\":\"spline\"");
    assert!(parse_custom_video(EncoderFamily::Nvenc, "h264", &bad).is_err());
    let bad = raw.replace("\"fps_common\":120", "\"fps_common\":90");
    assert!(parse_custom_video(EncoderFamily::Nvenc, "h264", &bad).is_err());
}

#[test]
fn each_setting_error_has_its_message() {
    let fail = |family, codec: &str, k: &str, v: Json, color: Option<&str>| -> String {
        let m = vec![(k.to_string(), v)];
        match validate_pair(family, codec, &m, color) {
            Ok(_) => panic!("{k} must fail"),
            Err(e) => e,
        }
    };
    let nv = EncoderFamily::Nvenc;
    assert_eq!(
        fail(nv, "h264", "gpu", signed(0), None),
        "unknown option 'gpu' for this encoder"
    );
    assert_eq!(
        fail(EncoderFamily::Amf, "hevc", "bf", signed(2), None),
        "option 'bf' not valid for hevc on this encoder"
    );
    assert_eq!(fail(nv, "h264", "preset", signed(1), None), "option 'preset' must be text");
    assert_eq!(
        fail(nv, "h264", "preset", text("p9"), None),
        "invalid value 'p9' for 'preset'"
    );
    assert_eq!(
        fail(nv, "hevc", "profile", text("main10"), Some("NV12")),
        "profile 'main10' needs P010 color format (10-bit)"
    );
    assert_eq!(fail(nv, "h264", "bf", text("2"), None), "option 'bf' must be an integer");
    assert_eq!(
        fail(nv, "h264", "bf", Json::Unsigned(u64::MAX), None),
        "option 'bf' must be an integer"
    );
    assert_eq!(
        fail(nv, "h264", "bitrate", signed(10), None),
        "option 'bitrate' must be 50-4294967 (got 10)"
    );
    assert_eq!(
        fail(nv, "h264", "device", signed(-2), None),
        "option 'device' must be -1-16 (got -2)"
    );
    assert_eq!(
        fail(EncoderFamily::Vaapi, "hevc", "profile", signed(100), None),
        "invalid value 100 for 'profile'"
    );
    assert_eq!(
        fail(EncoderFamily::Vaapi, "hevc", "profile", signed(2), Some("NV12")),
        "profile 2 needs P010 color format (10-bit)"
    );
    assert_eq!(
        fail(nv, "h264", "lookahead", text("yes"), None),
        "option 'lookahead' must be true/false"
    );
    assert_eq!(fail(nv, "h264", "opts", Json::Bool(true), None), "option 'opts' must be text");
}

#[test]
fn the_first_wrong_setting_is_reported() {
    let m = vec![
        ("bf".to_string(), signed(9)),
        ("preset".to_string(), text("p9")),
    ];
    assert_eq!(
        validate(EncoderFamily::Nvenc, "h264", &m).err().unwrap(),
        "option 'bf' must be 0-4 (got 9)"
    );
    // In a stored selection the keys are checked in their order.
    let raw = r#"{"encoder":"obs_nvenc_h264_tex","settings":{"preset":"p9","bf":9}}"#;
    assert_eq!(
        parse_custom_encoder(raw).err().unwrap(),
        "option 'bf' must be 0-4 (got 9)"
    );
}

#[test]
fn each_payload_error_has_its_message() {
    let enc = |raw: &str| parse_custom_encoder(raw).err().unwrap();
    assert!(enc("junk").starts_with("custom encoder is not valid JSON: "));
    assert_eq!(enc("[]"), "custom encoder needs an 'encoder' id");
    assert_eq!(enc(r#"{"encoder":7}"#), "custom encoder needs an 'encoder' id");
    assert_eq!(enc(r#"{"encoder":"nope"}"#), "unknown encoder 'nope'");
    assert_eq!(
        enc(r#"{"encoder":"obs_x264","settings":[]}"#),
        "custom encoder needs a 'settings' object"
    );
    let vid = |raw: &str| parse_custom_video(EncoderFamily::Nvenc, "h264", raw).err().unwrap();
    assert!(vid("{").starts_with("custom video is not valid JSON: "));
    assert_eq!(vid("{}"), "custom video needs 'out_width'");
    assert_eq!(
        vid(&VIDEO.replace("\"out_height\":1440", "\"out_height\":\"1440\"")),
        "out_height must be a number"
    );
    assert_eq!(
        vid(&VIDEO.replace("\"fps_type\":\"common\"", "\"fps_type\":1")),
        "fps_type must be text"
    );
    assert_eq!(
        vid(&VIDEO.replace("\"out_width\":2560", "\"out_width\":1")),
        "output resolution must be 2-8192 px"
    );
    assert_eq!(
        vid(&VIDEO.replace("lanczos", "spline")),
        "unknown scale filter (use bicubic/lanczos/…)"
    );
    assert_eq!(
        vid(&VIDEO.replace("\"common\"", "\"often\"")),
        "fps_type must be common, integer or fractional"
    );
    assert_eq!(
        vid(&VIDEO.replace("NV12", "rgba")),
        "color format RGBA not valid for this encoder"
    );
    assert_eq!(vid(&VIDEO.replace("\"709\"", "\"7\"")), "unknown color space");
    assert_eq!(
        vid(&VIDEO.replace("Partial", "Half")),
        "color range must be Partial or Full"
    );
    assert_eq!(
        vid(&VIDEO.replace("\"fps_common\":120", "\"fps_common\":90")),
        "fps_common must be a common OBS value (10/24/30/60/120/…)"
    );
    let whole = VIDEO.replace("\"common\"", "\"integer\"");
    assert_eq!(
        vid(&whole.replace("\"fps_int\":60", "\"fps_int\":361")),
        "fps_int must be 1-360"
    );
    let frac = VIDEO.replace("\"common\"", "\"fractional\"");
    assert_eq!(
        vid(&frac.replace("\"fps_den\":1001", "\"fps_den\":0")),
        "fps_num/fps_den must be 1-1000000"
    );
}

#[test]
fn video_numbers_are_cut_to_32_bits() {
    let wide = VIDEO.replace("\"out_width\":2560", "\"out_width\":4294967396");
    let v = parse_custom_video(EncoderFamily::Nvenc, "h264", &wide).unwrap();
    assert_eq!(v.out_width, 100);
}

#[test]
fn lower_case_color_formats_are_raised() {
    let low = VIDEO.replace("NV12", "nv12");
    let v = parse_custom_video(EncoderFamily::Nvenc, "h264", &low).unwrap();
    assert_eq!(v.color_format, "NV12");
    // Beyond ASCII the mapping is that of Unicode.
    let wide = VIDEO.replace("NV12", "straße");
    assert_eq!(
        parse_custom_video(EncoderFamily::Nvenc, "h264", &wide).err().unwrap(),
        "color format STRASSE not valid for this encoder"
    );
}

#[test]
fn vendors_have_their_families() {
    assert_eq!(
        families_for_vendor("nvidia"),
        vec![EncoderFamily::Nvenc, EncoderFamily::X264]
    );
    assert_eq!(
        families_for_vendor("amd"),
        vec![EncoderFamily::Amf, EncoderFamily::Vaapi, EncoderFamily::X264]
    );
    assert_eq!(
        families_for_vendor("intel"),
        vec![EncoderFamily::Qsv, EncoderFamily::X264]
    );
    assert_eq!(families_for_vendor("unknown"), vec![EncoderFamily::X264]);
    assert_eq!(lookup_encoder("av1_texture_amf").unwrap().codec, "av1");
    assert!(lookup_encoder("nope").is_none());
}

#[test]
fn names_come_back_in_the_case_of_their_list() {
    assert_eq!(canon(&SCALE_FILTERS, "BILINEAR"), Some("bilinear"));
    assert_eq!(canon(&FPS_TYPES, "Integer"), Some("integer"));
    assert_eq!(canon(&FPS_TYPES, "whole"), None);
    assert_eq!((even_clamp(1), even_clamp(7), even_clamp(9000)), (2, 6, 8192));
    assert!(FPS_COMMON_VALUES.contains(&144));
}
