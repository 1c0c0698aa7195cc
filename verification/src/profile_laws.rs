//! What of the configuration stands in the profile, and what of the settings
//! reaches the scene.

use vstd::prelude::*;

use crate::api::{ConfigModel, CustomVideoModel};
use crate::capture::{config_of, CaptureEnv, OverridesModel, PlanModel};
use crate::config_laws::{is_on, law_each_switch_follows_its_own_setting};
use crate::encoder_laws::{law_catalog_ids_resolve, lemma_distinct_entry};
use crate::encoder_options::{
    auto_settings, encoder_family, find_entry, known_encoder, ladder_settings, linux_catalog,
    nvenc_settings, windows_catalog, x264_settings,
};
use crate::encoder_tables::EncoderFamily;
use crate::json::{entry_of, hundredths_text, json_pretty, JsonModel};
use crate::linux::engine::{ladder_encoder, platform_answers};
use crate::obs_files::{start_files, start_texts, StartTexts};
use crate::paths::join_path;
use crate::profile::{profile_of, video_tab, width_for, PlatformModel, ProfileModel};
use crate::render::{
    basic_ini, collection_entries, collection_text, object_of, user_ini, websocket_entries,
    UuidsModel,
};
use crate::scene_laws::{below, law_audio_sources_record_their_own_device};
use crate::text::{contains, decimal, occurs_at, trim};

verus! {

broadcast use vstd::string::group_string_axioms;

// ---------------------------------------------------------------------------
// Profile
// ---------------------------------------------------------------------------
/// Within limits.
pub open spec fn limited(v: int, low: int, high: int) -> int {
    if v <= low {
        low
    } else if v >= high {
        high
    } else {
        v
    }
}

/// The device that OBS is given for a configured one.
pub open spec fn obs_device(configured: Seq<char>, default_name: Seq<char>) -> Seq<char> {
    let t = trim(configured);
    if t.len() == 0 || t == default_name {
        "default"@
    } else {
        t
    }
}

/// A profile takes over what the configuration says: folder, container, length,
/// both audio sources with their gains and mutes, the tracks and the websocket.
pub proof fn law_profile_takes_over_the_configuration(cfg: ConfigModel, platform: PlatformModel)
    ensures
        profile_of(cfg, platform) matches Ok(p) ==> {
            &&& p.output_dir == cfg.output_dir
            &&& p.container == if cfg.container == "mkv"@ {
                "mkv"@
            } else {
                "mp4"@
            }
            &&& p.replay_seconds == limited(cfg.duration_seconds as int, 1, 3600)
            &&& p.desktop_device == obs_device(cfg.desktop_device, "default_output"@)
            &&& p.mic_device == obs_device(cfg.mic_device, "default_input"@)
            &&& p.gain_game == limited(cfg.gain_game as int, 0, 200)
            &&& p.gain_mic == limited(cfg.gain_mic as int, 0, 200)
            &&& p.mute_game == cfg.mute_game
            &&& p.mute_mic == cfg.mute_mic
            &&& p.single_track == cfg.audio_single_track
            &&& p.websocket_port == cfg.websocket_port
            &&& p.websocket_password == cfg.websocket_password
            &&& p.gpu_index == cfg.gpu_index
            &&& p.video_source_id == platform.video_source_id
            &&& p.game_audio_id == platform.game_audio_id
            &&& p.mic_audio_id == platform.mic_audio_id
            &&& cfg.base_width >= 2 ==> p.base_width == cfg.base_width - cfg.base_width % 2
            &&& cfg.base_height >= 2 ==> p.base_height == cfg.base_height - cfg.base_height % 2
        },
{
}

/// Without custom video, the picture has the frame rate of the configuration
/// and its height, or that of the source where none below it is asked for. Its
/// colours are those of ordinary video.
pub proof fn law_plain_video_follows_the_configuration(cfg: ConfigModel)
    requires
        cfg.base_height >= 2,
        cfg.base_width >= 2,
    ensures
        ({
            let v = video_tab(cfg, None);
            let base = cfg.base_height - cfg.base_height % 2;
            &&& v.fps == limited(cfg.fps as int, 1, 360)
            &&& v.fps_type == 0
            &&& v.fps_common == decimal(v.fps as nat)
            &&& cfg.out_height == 0 || cfg.out_height >= base ==> v.out_height == base
                && v.out_width == cfg.base_width - cfg.base_width % 2
            &&& 2 <= cfg.out_height < base ==> v.out_height == cfg.out_height - cfg.out_height % 2
            &&& v.color_format == "NV12"@
            &&& v.color_space == "709"@
            &&& v.color_range == "Partial"@
            &&& v.scale_type == "bicubic"@
        }),
{
}

/// Custom video is taken over as it is.
pub proof fn law_custom_video_is_taken_over(cfg: ConfigModel, c: CustomVideoModel)
    ensures
        ({
            let v = video_tab(cfg, Some(c));
            &&& v.out_width == c.out_width
            &&& v.out_height == c.out_height
            &&& v.scale_type == c.scale_type
            &&& v.color_format == c.color_format
            &&& v.color_space == c.color_space
            &&& v.color_range == c.color_range
            &&& v.fps_int == c.fps_int
            &&& v.fps_num == c.fps_num
            &&& v.fps_den == c.fps_den
            &&& v.fps_common == decimal(c.fps_common as nat)
            &&& c.fps_type == "common"@ ==> v.fps_type == 0 && v.fps == limited(c.fps_common, 1, 360)
            &&& c.fps_type == "integer"@ ==> v.fps_type == 1 && v.fps == limited(c.fps_int, 1, 360)
            &&& c.fps_type == "fractional"@ && c.fps_den >= 1 ==> v.fps_type == 2 && v.fps == limited(
                c.fps_num / c.fps_den,
                1,
                360,
            )
        }),
{
    reveal_strlit("common");
    reveal_strlit("integer");
    reveal_strlit("fractional");
    assert("common"@.len() == 6 && "integer"@.len() == 7 && "fractional"@.len() == 10);
}

/// A restore token of the configuration stands among the settings of the
/// captured source, and without one nothing is added to them.
pub proof fn law_profile_keeps_the_restore_token(cfg: ConfigModel, platform: PlatformModel)
    ensures
        profile_of(cfg, platform) matches Ok(p) ==> {
            &&& trim(cfg.portal_restore_token).len() > 0 ==> entry_of(
                p.video_settings,
                "RestoreToken"@,
            ) == Some(JsonModel::Str(cfg.portal_restore_token))
            &&& trim(cfg.portal_restore_token).len() == 0 ==> p.video_settings
                == platform.video_settings
        },
{
    if profile_of(cfg, platform) is Ok && trim(cfg.portal_restore_token).len() > 0 {
        let es = profile_of(cfg, platform)->Ok_0.video_settings;
        assert(es.drop_last() =~= platform.video_settings);
        assert(es.last() == ("RestoreToken"@, JsonModel::Str(cfg.portal_restore_token)));
    }
}

// ---------------------------------------------------------------------------
// Encoder
// ---------------------------------------------------------------------------
proof fn lemma_recipe_keys(bitrate: nat, gpu_index: nat, codec: Seq<char>)
    ensures
        entry_of(auto_settings(bitrate), "bitrate"@) == Some(JsonModel::Int(bitrate as int)),
        entry_of(auto_settings(bitrate), "rate_control"@) == Some(JsonModel::Str("CBR"@)),
        entry_of(x264_settings(bitrate), "bitrate"@) == Some(JsonModel::Int(bitrate as int)),
        entry_of(x264_settings(bitrate), "rate_control"@) == Some(JsonModel::Str("CBR"@)),
        entry_of(nvenc_settings(bitrate, gpu_index, codec), "bitrate"@) == Some(
            JsonModel::Int(bitrate as int),
        ),
        entry_of(nvenc_settings(bitrate, gpu_index, codec), "max_bitrate"@) == Some(
            JsonModel::Int(bitrate as int),
        ),
        entry_of(nvenc_settings(bitrate, gpu_index, codec), "rate_control"@) == Some(
            JsonModel::Str("CBR"@),
        ),
        entry_of(nvenc_settings(bitrate, gpu_index, codec), "device"@) == Some(
            JsonModel::Int(
                if gpu_index == 0 {
                    -1
                } else {
                    gpu_index as int
                },
            ),
        ),
{
    reveal_strlit("adaptive_quantization");
    reveal_strlit("bf");
    reveal_strlit("bitrate");
    reveal_strlit("device");
    reveal_strlit("keyint_sec");
    reveal_strlit("lookahead");
    reveal_strlit("max_bitrate");
    reveal_strlit("multipass");
    reveal_strlit("preset");
    reveal_strlit("profile");
    reveal_strlit("rate_control");
    reveal_strlit("tune");
    assert("bitrate"@[0] == 'b' && "profile"@[0] == 'p' && "device"@[0] == 'd' && "preset"@[0] == 'p');
    let a = auto_settings(bitrate);
    assert forall|j: int| 0 <= j < a.len() && j != 0 implies (#[trigger] a[j]).0 != a[0].0 by {
        assert(a[j].0.len() != 7);
    }
    assert forall|j: int| 0 <= j < a.len() && j != 1 implies (#[trigger] a[j]).0 != a[1].0 by {
        assert(a[j].0.len() != 12);
    }
    lemma_distinct_entry(a, 0);
    lemma_distinct_entry(a, 1);
    let x = x264_settings(bitrate);
    assert forall|j: int| 0 <= j < x.len() && j != 0 implies (#[trigger] x[j]).0 != x[0].0 by {
        assert(x[j].0.len() != 7 || x[j].0[0] != 'b');
    }
    assert forall|j: int| 0 <= j < x.len() && j != 4 implies (#[trigger] x[j]).0 != x[4].0 by {
        assert(x[j].0.len() != 12);
    }
    lemma_distinct_entry(x, 0);
    lemma_distinct_entry(x, 4);
    let n = nvenc_settings(bitrate, gpu_index, codec);
    assert forall|j: int| 0 <= j < n.len() && j != 2 implies (#[trigger] n[j]).0 != n[2].0 by {
        assert(n[j].0.len() != 7 || n[j].0[0] != 'b');
    }
    assert forall|j: int| 0 <= j < n.len() && j != 3 implies (#[trigger] n[j]).0 != n[3].0 by {
        assert(n[j].0.len() != 6 || n[j].0[0] != 'd');
    }
    assert forall|j: int| 0 <= j < n.len() && j != 6 implies (#[trigger] n[j]).0 != n[6].0 by {
        assert(n[j].0.len() != 11);
    }
    assert forall|j: int| 0 <= j < n.len() && j != 10 implies (#[trigger] n[j]).0 != n[10].0 by {
        assert(n[j].0.len() != 12);
    }
    lemma_distinct_entry(n, 2);
    lemma_distinct_entry(n, 3);
    lemma_distinct_entry(n, 6);
    lemma_distinct_entry(n, 10);
}

/// Every recipe of the ladder asks for the given bitrate, held constant; that of
/// NVENC allows no more than it and runs on the given GPU.
pub proof fn law_recipes_ask_for_the_bitrate(
    encoder_id: Seq<char>,
    bitrate: nat,
    gpu_index: nat,
    codec: Seq<char>,
)
    ensures
        ladder_settings(encoder_id, bitrate, gpu_index, codec) matches Some(settings) ==> {
            &&& entry_of(settings, "bitrate"@) == Some(JsonModel::Int(bitrate as int))
            &&& entry_of(settings, "rate_control"@) == Some(JsonModel::Str("CBR"@))
            &&& encoder_family(encoder_id) == Some(EncoderFamily::Nvenc) ==> {
                &&& entry_of(settings, "max_bitrate"@) == Some(JsonModel::Int(bitrate as int))
                &&& gpu_index > 0 ==> entry_of(settings, "device"@) == Some(
                    JsonModel::Int(gpu_index as int),
                )
            }
        },
        ladder_settings(encoder_id, bitrate, gpu_index, codec) is Some <==> encoder_family(
            encoder_id,
        ) is Some,
{
    lemma_recipe_keys(bitrate, gpu_index, codec);
}

/// Without a custom encoder the profile records at the configured bitrate,
/// within a thousand and two hundred thousand kbps, and its encoder is told so.
/// A custom encoder is used with the settings that were chosen for it.
pub proof fn law_profile_records_at_its_bitrate(cfg: ConfigModel, platform: PlatformModel)
    ensures
        profile_of(cfg, platform) matches Ok(p) ==> {
            &&& cfg.custom_encoder is None ==> {
                &&& p.bitrate_kbps == limited(cfg.bitrate_kbps as int, 1_000, 200_000)
                &&& entry_of(p.encoder_settings, "bitrate"@) == Some(JsonModel::Int(p.bitrate_kbps))
                &&& p.codec == cfg.codec
                &&& Some(p.encoder_id) == platform.ladder_encoder
            }
            &&& cfg.custom_encoder matches Some(c) ==> p.encoder_settings == c.settings
        },
{
    let bitrate = limited(cfg.bitrate_kbps as int, 1_000, 200_000) as nat;
    if profile_of(cfg, platform) is Ok && cfg.custom_encoder is None {
        let p = profile_of(cfg, platform)->Ok_0;
        law_recipes_ask_for_the_bitrate(p.encoder_id, bitrate, cfg.gpu_index, p.codec);
    }
}

/// The encoder of the ladder is one of the vendor's own, for the codec that is
/// asked for; on the processor it is x264 whatever the vendor.
pub proof fn law_ladder_encoder_fits_vendor_and_codec(
    vendor: Seq<char>,
    codec: Seq<char>,
    encoder: Seq<char>,
)
    ensures
        encoder == "cpu"@ ==> ladder_encoder(vendor, codec, encoder) == Some("obs_x264"@),
        encoder != "cpu"@ ==> (ladder_encoder(vendor, codec, encoder) matches Some(id) ==> {
            &&& known_encoder(id) matches Some(e) && e.codec == codec && e.family == (
            if vendor == "nvidia"@ {
                EncoderFamily::Nvenc
            } else if vendor == "intel"@ {
                EncoderFamily::Qsv
            } else {
                EncoderFamily::Vaapi
            })
        }),
        encoder != "cpu"@ ==> (ladder_encoder(vendor, codec, encoder) is Some <==> (vendor
            == "nvidia"@ || vendor == "intel"@ || vendor == "amd"@) && (codec == "h264"@ || codec
            == "hevc"@ || codec == "av1"@)),
        encoder_family("obs_x264"@) == Some(EncoderFamily::X264),
{
    law_catalog_ids_resolve();
    let l = linux_catalog();
    assert(l[0] == l[0] && l[1] == l[1] && l[2] == l[2] && l[3] == l[3] && l[4] == l[4]);
    assert(known_encoder(l[0].id) == Some(l[0]));
    assert(known_encoder(l[1].id) == Some(l[1]));
    assert(known_encoder(l[2].id) == Some(l[2]));
    assert(known_encoder(l[3].id) == Some(l[3]));
    assert(known_encoder(l[4].id) == Some(l[4]));
    assert(known_encoder(l[5].id) == Some(l[5]));
    assert(known_encoder(l[6].id) == Some(l[6]));
    assert(known_encoder(l[7].id) == Some(l[7]));
    assert(known_encoder(l[8].id) == Some(l[8]));
    assert(known_encoder(l[9].id) == Some(l[9]));
    reveal_strlit("nvidia");
    reveal_strlit("intel");
    reveal_strlit("amd");
    reveal_strlit("h264");
    reveal_strlit("hevc");
    reveal_strlit("av1");
    assert("nvidia"@.len() == 6 && "intel"@.len() == 5 && "amd"@.len() == 3);
    assert("h264"@[1] == '2' && "hevc"@[1] == 'e' && "av1"@.len() == 3);
}

/// The sound of the desktop comes from what is played, and that of the
/// microphone from what is recorded. A window is captured where one is named,
/// and the whole desktop otherwise.
pub proof fn law_platform_sources(cfg: ConfigModel)
    ensures
        ({
            let a = platform_answers(cfg);
            &&& a.game_audio_id == "pulse_output_capture"@
            &&& a.mic_audio_id == "pulse_input_capture"@
            &&& a.video_source_id == if trim(cfg.window).len() > 0 {
                "pipewire-window-capture-source"@
            } else {
                "pipewire-desktop-capture-source"@
            }
            &&& a.ladder_encoder == ladder_encoder(cfg.vendor, cfg.codec, cfg.encoder)
            &&& a.catalog == linux_catalog()
        }),
{
}

// ---------------------------------------------------------------------------
// From the settings to the scene
// ---------------------------------------------------------------------------
/// A source is muted in the scene exactly where its own setting says so, and
/// has there the gain that its own setting says.
pub proof fn law_settings_reach_the_scene(
    plan: PlanModel,
    settings: Map<Seq<char>, Seq<char>>,
    o: OverridesModel,
    ladder_kbps: nat,
    env: CaptureEnv,
    platform: PlatformModel,
    u: UuidsModel,
)
    ensures
        ({
            let cfg = config_of(plan, settings, o, ladder_kbps, env);
            profile_of(cfg, platform) matches Ok(p) ==> {
                let doc = Some(object_of(collection_entries(p, u)));
                let game = below(doc, "AuxAudioDevice1"@);
                let mic = below(doc, "AuxAudioDevice2"@);
                &&& below(game, "muted"@) == Some(JsonModel::Bool(is_on(settings, "mute_game"@)))
                &&& below(mic, "muted"@) == Some(JsonModel::Bool(is_on(settings, "mute_mic"@)))
                &&& below(game, "volume"@) == Some(JsonModel::Float(hundredths_text(cfg.gain_game)))
                &&& below(mic, "volume"@) == Some(JsonModel::Float(hundredths_text(cfg.gain_mic)))
                &&& below(below(game, "settings"@), "device_id"@) == Some(
                    JsonModel::Str(obs_device(cfg.desktop_device, "default_output"@)),
                )
                &&& below(below(mic, "settings"@), "device_id"@) == Some(
                    JsonModel::Str(obs_device(cfg.mic_device, "default_input"@)),
                )
            }
        }),
{
    let cfg = config_of(plan, settings, o, ladder_kbps, env);
    law_each_switch_follows_its_own_setting(plan, settings, o, ladder_kbps, env);
    law_profile_takes_over_the_configuration(cfg, platform);
    if profile_of(cfg, platform) is Ok {
        law_audio_sources_record_their_own_device(profile_of(cfg, platform)->Ok_0, u);
    }
}

// ---------------------------------------------------------------------------
// Files
// ---------------------------------------------------------------------------
proof fn lemma_joined(a: Seq<char>, b: Seq<char>)
    requires
        a.len() > 0,
        a.last() != '/',
        b.len() > 0,
        b[0] != '/',
        b.last() != '/',
    ensures
        join_path(a, b) == a + "/"@ + b,
        join_path(a, b).len() > 0,
        join_path(a, b).last() != '/',
{
    assert((a + "/"@ + b).last() == b.last());
}

/// Each text stands in the file that OBS reads it from.
#[verifier::rlimit(40)]
pub proof fn law_files_stand_where_obs_reads_them(root: Seq<char>, files: StartTexts)
    requires
        root.len() > 0,
        root.last() != '/',
    ensures
        ({
            let all = start_files(root, files);
            let conf = root + "/"@ + "obs-studio"@;
            let profile = conf + "/"@ + "basic"@ + "/"@ + "profiles"@ + "/"@ + "MoonClip"@;
            &&& all.len() == 6
            &&& all[0] == (profile + "/"@ + "basic.ini"@, files.basic_ini)
            &&& all[1] == (profile + "/"@ + "recordEncoder.json"@, files.encoder_json)
            &&& all[2] == (
                conf + "/"@ + "basic"@ + "/"@ + "scenes"@ + "/"@ + "MoonClip.json"@,
                files.collection,
            )
            &&& all[3] == (conf + "/"@ + "global.ini"@, files.global_ini)
            &&& all[4] == (conf + "/"@ + "user.ini"@, files.user_ini)
            &&& all[5] == (
                conf + "/"@ + "plugin_config"@ + "/"@ + "obs-websocket"@ + "/"@ + "config.json"@,
                files.websocket,
            )
        }),
{
    lemma_file_names();
    lemma_joined(root, "obs-studio"@);
    let conf = root + "/"@ + "obs-studio"@;
    lemma_joined(conf, "basic"@);
    let basic = conf + "/"@ + "basic"@;
    lemma_joined(basic, "profiles"@);
    lemma_joined(basic + "/"@ + "profiles"@, "MoonClip"@);
    let profile = basic + "/"@ + "profiles"@ + "/"@ + "MoonClip"@;
    lemma_joined(profile, "basic.ini"@);
    lemma_joined(profile, "recordEncoder.json"@);
    lemma_joined(basic, "scenes"@);
    lemma_joined(basic + "/"@ + "scenes"@, "MoonClip.json"@);
    lemma_joined(conf, "global.ini"@);
    lemma_joined(conf, "user.ini"@);
    lemma_joined(conf, "plugin_config"@);
    lemma_joined(conf + "/"@ + "plugin_config"@, "obs-websocket"@);
    lemma_joined(conf + "/"@ + "plugin_config"@ + "/"@ + "obs-websocket"@, "config.json"@);
}

/// A name of a file or directory of the private configuration.
spec fn is_name(s: Seq<char>) -> bool {
    s.len() > 0 && s[0] != '/' && s.last() != '/'
}

proof fn lemma_file_names()
    ensures
        is_name("obs-studio"@) && is_name("basic"@) && is_name("profiles"@) && is_name("MoonClip"@),
        is_name("basic.ini"@) && is_name("recordEncoder.json"@) && is_name("scenes"@),
        is_name("MoonClip.json"@) && is_name("global.ini"@) && is_name("user.ini"@),
        is_name("plugin_config"@) && is_name("obs-websocket"@) && is_name("config.json"@),
{
    reveal_strlit("obs-studio");
    reveal_strlit("basic");
    reveal_strlit("profiles");
    reveal_strlit("MoonClip");
    reveal_strlit("basic.ini");
    reveal_strlit("recordEncoder.json");
    reveal_strlit("scenes");
    reveal_strlit("MoonClip.json");
    reveal_strlit("global.ini");
    reveal_strlit("user.ini");
    reveal_strlit("plugin_config");
    reveal_strlit("obs-websocket");
    reveal_strlit("config.json");
    assert("obs-studio"@[0] == 'o' && "obs-studio"@[9] == 'o');
    assert("basic"@[0] == 'b' && "basic"@[4] == 'c');
    assert("profiles"@[0] == 'p' && "profiles"@[7] == 's');
    assert("MoonClip"@[0] == 'M' && "MoonClip"@[7] == 'p');
    assert("basic.ini"@[0] == 'b' && "basic.ini"@[8] == 'i');
    assert("recordEncoder.json"@[0] == 'r' && "recordEncoder.json"@[17] == 'n');
    assert("scenes"@[0] == 's' && "scenes"@[5] == 's');
    assert("MoonClip.json"@[0] == 'M' && "MoonClip.json"@[12] == 'n');
    assert("global.ini"@[0] == 'g' && "global.ini"@[9] == 'i');
    assert("user.ini"@[0] == 'u' && "user.ini"@[7] == 'i');
    assert("plugin_config"@[0] == 'p' && "plugin_config"@[12] == 'g');
    assert("obs-websocket"@[0] == 'o' && "obs-websocket"@[12] == 't');
    assert("config.json"@[0] == 'c' && "config.json"@[10] == 'n');
}

// ---------------------------------------------------------------------------
// Recipes
// ---------------------------------------------------------------------------
/// The recipe of NVENC is the one that was measured: a key frame every two
/// seconds, two frames between, one pass, the fifth preset for quality, and the
/// profile of the codec. That of x264 is a fast one with as many key frames.
pub proof fn law_recipes_were_measured(bitrate: nat, gpu_index: nat, codec: Seq<char>)
    ensures
        ({
            let n = nvenc_settings(bitrate, gpu_index, codec);
            &&& entry_of(n, "keyint_sec"@) == Some(JsonModel::Int(2))
            &&& entry_of(n, "bf"@) == Some(JsonModel::Int(2))
            &&& entry_of(n, "multipass"@) == Some(JsonModel::Str("disabled"@))
            &&& entry_of(n, "preset"@) == Some(JsonModel::Str("p5"@))
            &&& entry_of(n, "tune"@) == Some(JsonModel::Str("hq"@))
            &&& entry_of(n, "lookahead"@) == Some(JsonModel::Bool(false))
            &&& entry_of(n, "adaptive_quantization"@) == Some(JsonModel::Bool(true))
            &&& codec == "h264"@ ==> entry_of(n, "profile"@) == Some(JsonModel::Str("high"@))
            &&& codec == "hevc"@ || codec == "av1"@ ==> entry_of(n, "profile"@) == Some(
                JsonModel::Str("main"@),
            )
        }),
        ({
            let x = x264_settings(bitrate);
            &&& entry_of(x, "keyint_sec"@) == Some(JsonModel::Int(2))
            &&& entry_of(x, "preset"@) == Some(JsonModel::Str("veryfast"@))
            &&& entry_of(x, "profile"@) == Some(JsonModel::Str("high"@))
        }),
{
    reveal_strlit("adaptive_quantization");
    reveal_strlit("bf");
    reveal_strlit("bitrate");
    reveal_strlit("device");
    reveal_strlit("keyint_sec");
    reveal_strlit("lookahead");
    reveal_strlit("max_bitrate");
    reveal_strlit("multipass");
    reveal_strlit("preset");
    reveal_strlit("profile");
    reveal_strlit("rate_control");
    reveal_strlit("tune");
    reveal_strlit("h264");
    reveal_strlit("hevc");
    reveal_strlit("av1");
    assert("h264"@[1] == '2' && "hevc"@[1] == 'e' && "av1"@.len() == 3 && "h264"@.len() == 4);
    assert("bitrate"@[0] == 'b' && "profile"@[0] == 'p' && "device"@[0] == 'd' && "preset"@[0] == 'p');
    assert("lookahead"@[0] == 'l' && "multipass"@[0] == 'm');
    let n = nvenc_settings(bitrate, gpu_index, codec);
    assert forall|j: int| 0 <= j < n.len() && j != 0 implies (#[trigger] n[j]).0 != n[0].0 by {
        assert(n[j].0.len() != 21);
    }
    assert forall|j: int| 0 <= j < n.len() && j != 1 implies (#[trigger] n[j]).0 != n[1].0 by {
        assert(n[j].0.len() != 2);
    }
    assert forall|j: int| 0 <= j < n.len() && j != 4 implies (#[trigger] n[j]).0 != n[4].0 by {
        assert(n[j].0.len() != 10);
    }
    assert forall|j: int| 0 <= j < n.len() && j != 5 implies (#[trigger] n[j]).0 != n[5].0 by {
        assert(n[j].0.len() != 9 || n[j].0[0] != 'l');
    }
    assert forall|j: int| 0 <= j < n.len() && j != 7 implies (#[trigger] n[j]).0 != n[7].0 by {
        assert(n[j].0.len() != 9 || n[j].0[0] != 'm');
    }
    assert forall|j: int| 0 <= j < n.len() && j != 8 implies (#[trigger] n[j]).0 != n[8].0 by {
        assert(n[j].0.len() != 6 || n[j].0[0] != 'p');
    }
    assert forall|j: int| 0 <= j < n.len() && j != 9 implies (#[trigger] n[j]).0 != n[9].0 by {
        assert(n[j].0.len() != 7 || n[j].0[0] != 'p');
    }
    assert forall|j: int| 0 <= j < n.len() && j != 11 implies (#[trigger] n[j]).0 != n[11].0 by {
        assert(n[j].0.len() != 4);
    }
    lemma_distinct_entry(n, 0);
    lemma_distinct_entry(n, 1);
    lemma_distinct_entry(n, 4);
    lemma_distinct_entry(n, 5);
    lemma_distinct_entry(n, 7);
    lemma_distinct_entry(n, 8);
    lemma_distinct_entry(n, 9);
    lemma_distinct_entry(n, 11);
    let x = x264_settings(bitrate);
    assert forall|j: int| 0 <= j < x.len() && j != 1 implies (#[trigger] x[j]).0 != x[1].0 by {
        assert(x[j].0.len() != 10);
    }
    assert forall|j: int| 0 <= j < x.len() && j != 2 implies (#[trigger] x[j]).0 != x[2].0 by {
        assert(x[j].0.len() != 6);
    }
    assert forall|j: int| 0 <= j < x.len() && j != 3 implies (#[trigger] x[j]).0 != x[3].0 by {
        assert(x[j].0.len() != 7 || x[j].0[0] != 'p');
    }
    lemma_distinct_entry(x, 1);
    lemma_distinct_entry(x, 2);
    lemma_distinct_entry(x, 3);
}

/// Each catalog has, of every family but x264, one encoder for each of the
/// three codecs; x264 encodes h264 and nothing else.
pub proof fn law_catalogs_are_complete(i: int)
    requires
        0 <= i < 10,
    ensures
        ({
            let w = windows_catalog();
            let l = linux_catalog();
            let codec = if i % 3 == 0 {
                "h264"@
            } else if i % 3 == 1 {
                "hevc"@
            } else {
                "av1"@
            };
            &&& w.len() == 10 && l.len() == 10
            &&& i < 9 ==> w[i].codec == codec && l[i].codec == codec
            &&& i < 3 ==> w[i].family == EncoderFamily::Nvenc && l[i].family == EncoderFamily::Nvenc
            &&& 3 <= i < 6 ==> w[i].family == EncoderFamily::Amf && l[i].family
                == EncoderFamily::Qsv
            &&& 6 <= i < 9 ==> w[i].family == EncoderFamily::Qsv && l[i].family
                == EncoderFamily::Vaapi
            &&& i == 9 ==> w[i] == l[i] && w[i].codec == "h264"@ && w[i].family
                == EncoderFamily::X264
            &&& contains(w[3].id, "h264"@) && contains(w[4].id, "h265"@) && contains(
                w[5].id,
                "av1"@,
            )
        }),
{
    reveal_strlit("h264_texture_amf");
    reveal_strlit("h265_texture_amf");
    reveal_strlit("av1_texture_amf");
    reveal_strlit("h264");
    reveal_strlit("h265");
    reveal_strlit("av1");
    assert("h264_texture_amf"@.subrange(0, 4) =~= "h264"@);
    assert(occurs_at("h264_texture_amf"@, "h264"@, 0));
    assert("h265_texture_amf"@.subrange(0, 4) =~= "h265"@);
    assert(occurs_at("h265_texture_amf"@, "h265"@, 0));
    assert("av1_texture_amf"@.subrange(0, 3) =~= "av1"@);
    assert(occurs_at("av1_texture_amf"@, "av1"@, 0));
}

/// The buffer is kept in as much memory as half as much again as it takes, and
/// 64 MB, within limits. A bitrate among the settings of a custom encoder is the
/// one that counts.
pub proof fn law_profile_has_room_for_the_buffer(cfg: ConfigModel, platform: PlatformModel, b: int)
    requires
        0 <= b <= u32::MAX,
    ensures
        profile_of(cfg, platform) matches Ok(p) ==> {
            let raw = p.bitrate_kbps * p.replay_seconds / 8 / 1024;
            &&& p.replay_mb == limited(raw + raw / 2 + 64, 128, 16384)
            &&& entry_of(p.encoder_settings, "bitrate"@) == Some(JsonModel::Int(b)) ==> p.bitrate_kbps
                == limited(b, 1_000, 200_000)
            &&& entry_of(p.encoder_settings, "bitrate"@) is None ==> p.bitrate_kbps == limited(
                cfg.bitrate_kbps as int,
                1_000,
                200_000,
            )
        },
{
}

/// The output follows the source where neither custom video nor a height below
/// that of the source is asked for. A picture that is scaled keeps the sides of
/// the source.
pub proof fn law_profile_follows_the_source(cfg: ConfigModel, platform: PlatformModel)
    requires
        cfg.base_height >= 2,
        cfg.base_width >= 2,
    ensures
        profile_of(cfg, platform) matches Ok(p) ==> {
            let w = cfg.base_width - cfg.base_width % 2;
            let h = cfg.base_height - cfg.base_height % 2;
            &&& p.out_source <==> cfg.custom_video is None && (cfg.out_height == 0 || cfg.out_height
                >= h)
            &&& cfg.custom_video is None && 2 <= cfg.out_height < h ==> p.video.out_width
                == width_for(w, h, p.video.out_height)
            &&& cfg.custom_video is None ==> p.video == video_tab(cfg, None)
        },
{
}

/// A profile is refused where the custom encoder is not one of this OBS, where
/// the codec is none of the three, and where the machine has no encoder for it.
pub proof fn law_profile_is_refused(cfg: ConfigModel, platform: PlatformModel)
    ensures
        cfg.custom_encoder matches Some(c) && find_entry(platform.catalog, c.encoder) is None
            ==> profile_of(cfg, platform) is Err,
        cfg.custom_encoder is None && cfg.codec != "h264"@ && cfg.codec != "hevc"@ && cfg.codec
            != "av1"@ ==> profile_of(cfg, platform) is Err,
        cfg.custom_encoder is None && platform.ladder_encoder is None ==> profile_of(cfg, platform)
            is Err,
        cfg.custom_encoder is Some && profile_of(cfg, platform) is Ok ==> (find_entry(
            platform.catalog,
            cfg.custom_encoder->0.encoder,
        ) matches Some(e) && profile_of(cfg, platform)->Ok_0.codec == e.codec && profile_of(
            cfg,
            platform,
        )->Ok_0.encoder_id == e.id),
{
}

/// Each text of a start is made from the profile: the profile file, the settings
/// of the encoder, and the websocket with its port and password.
pub proof fn law_texts_of_a_start(
    p: ProfileModel,
    tray: bool,
    previous: Option<Seq<char>>,
    u: UuidsModel,
)
    ensures
        ({
            let t = start_texts(p, tray, previous, u);
            &&& t.basic_ini == basic_ini(p)
            &&& t.encoder_json == json_pretty(object_of(p.encoder_settings))
            &&& t.websocket == json_pretty(
                object_of(websocket_entries(p.websocket_port, p.websocket_password)),
            )
            &&& previous is None ==> t.collection == collection_text(p, u)
            &&& t.user_ini == user_ini(tray)
        }),
{
}

} // verus!
