//! What each setting, override and device does to the capture configuration.

use vstd::prelude::*;

use crate::api::{device_models, DeviceModel};
use crate::capture::{chosen_port, config_of, CaptureEnv, OverridesModel, PlanModel};
use crate::linux::devices::{device_by_description, device_by_id, matched_device};
use crate::encoder_custom::{custom_encoder_read, custom_video_read};
use crate::encoder_options::known_encoder;
use crate::json::JsonRead;
use crate::session::{gain_written, mute_written, shown_port, WriteModel};
use crate::settings::{
    buffer_length, custom_rate, flag_setting, number_setting, payload_error, proposed_or_stored,
    setting, stored,
};
use crate::text::{
    ascii_lower, decimal, is_digit, lemma_decimal_digits, lemma_parse_decimal, lemma_trim_clean,
    lemma_trim_decimal, parse_signed, parse_unsigned, trim,
};

verus! {

broadcast use vstd::string::group_string_axioms;

// ---------------------------------------------------------------------------
// Switches
// ---------------------------------------------------------------------------
/// A switch is on where its stored text is 1 or true.
pub open spec fn is_on(settings: Map<Seq<char>, Seq<char>>, key: Seq<char>) -> bool {
    settings.contains_key(key) && (settings[key] == "1"@ || settings[key] == "true"@)
}

pub proof fn lemma_switch_texts()
    ensures
        trim("1"@) == "1"@,
        trim("true"@) == "true"@,
        trim("mkv"@) == "mkv"@,
        trim("custom"@) == "custom"@,
        "1"@.len() == 1,
        "true"@.len() == 4,
        "0"@.len() == 1,
        "mkv"@.len() == 3,
        "mp4"@.len() == 3,
        "0"@ != "1"@,
        "mkv"@ != "mp4"@,
        "ladder"@ != "custom"@,
        "custom"@.len() == 6,
{
    reveal_strlit("1");
    reveal_strlit("0");
    reveal_strlit("true");
    reveal_strlit("mkv");
    reveal_strlit("mp4");
    reveal_strlit("custom");
    reveal_strlit("ladder");
    assert("1"@[0] == '1' && "0"@[0] == '0' && "true"@[0] == 't' && "true"@[3] == 'e');
    assert("mkv"@[0] == 'm' && "mkv"@[2] == 'v' && "mp4"@[2] == '4');
    assert("custom"@[0] == 'c' && "custom"@[5] == 'm' && "ladder"@[0] == 'l');
    lemma_trim_clean("1"@);
    lemma_trim_clean("true"@);
    lemma_trim_clean("mkv"@);
    lemma_trim_clean("custom"@);
}

/// The mute of a source, and whether the sources share one track, follow the
/// setting of that name alone. The file is an mkv where that is stored, and an
/// mp4 otherwise.
pub proof fn law_each_switch_follows_its_own_setting(
    plan: PlanModel,
    settings: Map<Seq<char>, Seq<char>>,
    o: OverridesModel,
    ladder_kbps: nat,
    env: CaptureEnv,
)
    ensures
        ({
            let c = config_of(plan, settings, o, ladder_kbps, env);
            &&& c.mute_game <==> is_on(settings, "mute_game"@)
            &&& c.mute_mic <==> is_on(settings, "mute_mic"@)
            &&& c.audio_single_track <==> is_on(settings, "audio_single_track"@)
            &&& c.container == if settings.contains_key("container"@) && settings["container"@]
                == "mkv"@ {
                "mkv"@
            } else {
                "mp4"@
            }
        }),
{
    lemma_switch_texts();
}

// ---------------------------------------------------------------------------
// Independence
// ---------------------------------------------------------------------------
/// What a setting does not own it leaves as it is: each part of the
/// configuration is the same after another key was changed.
#[verifier::rlimit(60)]
#[verifier::spinoff_prover]
pub proof fn law_each_part_depends_on_its_own_setting(
    plan: PlanModel,
    settings: Map<Seq<char>, Seq<char>>,
    o: OverridesModel,
    ladder_kbps: nat,
    env: CaptureEnv,
    key: Seq<char>,
    value: Seq<char>,
)
    ensures
        ({
            let before = config_of(plan, settings, o, ladder_kbps, env);
            let after = config_of(plan, settings.insert(key, value), o, ladder_kbps, env);
            &&& key != "mute_game"@ ==> after.mute_game == before.mute_game
            &&& key != "mute_mic"@ ==> after.mute_mic == before.mute_mic
            &&& key != "gain_game"@ ==> after.gain_game == before.gain_game
            &&& key != "gain_mic"@ ==> after.gain_mic == before.gain_mic
            &&& key != "audio_single_track"@ ==> after.audio_single_track
                == before.audio_single_track
            &&& key != "container"@ ==> after.container == before.container
            &&& key != "gpu_index"@ ==> after.gpu_index == before.gpu_index
            &&& key != "desktop_device"@ ==> after.desktop_device == before.desktop_device
            &&& key != "mic_device"@ ==> after.mic_device == before.mic_device
            &&& key != "engine_ws_port"@ ==> after.websocket_port == before.websocket_port
            &&& key != "engine_restore_token"@ ==> after.portal_restore_token
                == before.portal_restore_token
            &&& key != "capture_window"@ ==> after.window == before.window
            &&& key != "buffer_seconds"@ ==> after.duration_seconds == before.duration_seconds
            &&& key != "video_mode"@ && key != "custom_bitrate_kbps"@ ==> after.bitrate_kbps
                == before.bitrate_kbps
            &&& key != "video_mode"@ && key != "custom_fps"@ && key != "fps"@ ==> after.fps
                == before.fps
            &&& after.window_match == before.window_match
        }),
{
    let other = settings.insert(key, value);
    lemma_same(settings, other, key, "mute_game"@);
    lemma_same(settings, other, key, "mute_mic"@);
    lemma_same(settings, other, key, "gain_game"@);
    lemma_same(settings, other, key, "gain_mic"@);
    lemma_same(settings, other, key, "audio_single_track"@);
    lemma_same(settings, other, key, "container"@);
    lemma_same(settings, other, key, "gpu_index"@);
    lemma_same(settings, other, key, "desktop_device"@);
    lemma_same(settings, other, key, "mic_device"@);
    lemma_same(settings, other, key, "engine_ws_port"@);
    lemma_same(settings, other, key, "engine_restore_token"@);
    lemma_same(settings, other, key, "capture_window"@);
    lemma_same(settings, other, key, "buffer_seconds"@);
    lemma_same(settings, other, key, "video_mode"@);
    lemma_same(settings, other, key, "custom_bitrate_kbps"@);
    lemma_same(settings, other, key, "custom_fps"@);
    lemma_same(settings, other, key, "fps"@);
}

/// What stands under another key reads the same.
proof fn lemma_same(
    a: Map<Seq<char>, Seq<char>>,
    b: Map<Seq<char>, Seq<char>>,
    changed: Seq<char>,
    key: Seq<char>,
)
    requires
        forall|k: Seq<char>| k != changed ==> #[trigger] stored(a, k) == stored(b, k),
    ensures
        key != changed ==> {
            &&& stored(a, key) == stored(b, key)
            &&& forall|d: Seq<char>| #[trigger] setting(a, key, d) == setting(b, key, d)
            &&& flag_setting(a, key) == flag_setting(b, key)
            &&& forall|t: Seq<char>, d: nat| #[trigger]
                number_setting(a, key, t, d) == number_setting(b, key, t, d)
        },
{
}

/// What was settled before is taken over, and so is what the machine gives.
pub proof fn law_configuration_keeps_the_plan(
    plan: PlanModel,
    settings: Map<Seq<char>, Seq<char>>,
    o: OverridesModel,
    ladder_kbps: nat,
    env: CaptureEnv,
)
    ensures
        ({
            let c = config_of(plan, settings, o, ladder_kbps, env);
            &&& c.codec == plan.codec
            &&& c.encoder == plan.encoder
            &&& c.custom_encoder == plan.custom_encoder
            &&& c.custom_video == plan.custom_video
            &&& c.monitor == plan.monitor
            &&& c.base_width == plan.base_width
            &&& c.base_height == plan.base_height
            &&& c.out_height == plan.out_height
            &&& c.output_dir == env.output_dir@
            &&& c.vendor == env.vendor@
            &&& c.obs_bin == Some(env.obs_bin@)
            &&& c.websocket_password == env.websocket_password@
        }),
{
}

// ---------------------------------------------------------------------------
// Numbers
// ---------------------------------------------------------------------------
/// A number that is stored is the one that is used, within its limits, for
/// every number: the port from 1024 and the length from five seconds.
pub proof fn law_stored_numbers_are_used(
    plan: PlanModel,
    settings: Map<Seq<char>, Seq<char>>,
    o: OverridesModel,
    ladder_kbps: nat,
    env: CaptureEnv,
    n: nat,
)
    requires
        n <= 0xffff_ffff,
    ensures
        config_of(
            plan,
            settings.insert("gpu_index"@, decimal(n)),
            o,
            ladder_kbps,
            env,
        ).gpu_index == n,
        config_of(
            plan,
            settings.insert("engine_ws_port"@, decimal(n)),
            o,
            ladder_kbps,
            env,
        ).websocket_port == if n > 65535 {
            4456
        } else if n < 1024 {
            1024
        } else {
            n
        },
        o.duration_seconds is None && o.game is None ==> config_of(
            plan,
            settings.insert("buffer_seconds"@, decimal(n)),
            o,
            ladder_kbps,
            env,
        ).duration_seconds == if n < 5 {
            5
        } else {
            n
        },
{
    lemma_number_reads(n);
    let text = decimal(n);
    lemma_stored_number(settings, text, n);
}

proof fn lemma_number_reads(n: nat)
    requires
        n <= 0xffff_ffff,
    ensures
        parse_unsigned(decimal(n), u32::MAX as nat) == Some(n),
        parse_unsigned(decimal(n), 65535) == if n <= 65535 {
            Some(n)
        } else {
            None
        },
        parse_signed(decimal(n)) == Some(n as int),
        trim(decimal(n)).len() > 0,
{
    lemma_parse_decimal(n, u32::MAX as nat);
    lemma_parse_decimal(n, i64::MAX as nat);
    lemma_trim_decimal(n);
    lemma_decimal_digits(n);
    assert(is_digit(decimal(n)[0]));
}

proof fn lemma_stored_number(settings: Map<Seq<char>, Seq<char>>, text: Seq<char>, n: nat)
    requires
        n <= 0xffff_ffff,
        parse_unsigned(text, u32::MAX as nat) == Some(n),
        parse_unsigned(text, 65535) == if n <= 65535 {
            Some(n)
        } else {
            None
        },
        parse_signed(text) == Some(n as int),
        trim(text).len() > 0,
    ensures
        number_setting(settings.insert("gpu_index"@, text), "gpu_index"@, "0"@, 0) == n,
        chosen_port(settings.insert("engine_ws_port"@, text)) == if n > 65535 {
            4456
        } else if n < 1024 {
            1024
        } else {
            n
        },
        buffer_length(settings.insert("buffer_seconds"@, text)) == if n < 5 {
            5
        } else {
            n as int
        },
{
}

/// Outside the custom mode a stored frame rate is used where it is one of the
/// five, and 60 otherwise.
pub proof fn law_stored_frame_rate_is_used(
    plan: PlanModel,
    settings: Map<Seq<char>, Seq<char>>,
    o: OverridesModel,
    ladder_kbps: nat,
    env: CaptureEnv,
    n: nat,
)
    requires
        n <= 0xffff_ffff,
        o.fps is None,
        plan.custom_video is None,
        !settings.contains_key("video_mode"@),
    ensures
        config_of(
            plan,
            settings.insert("fps"@, decimal(n)),
            o,
            ladder_kbps,
            env,
        ).fps == if n == 24 || n == 30 || n == 120 || n == 144 {
            n
        } else {
            60
        },
{
    lemma_parse_decimal(n, u32::MAX as nat);
    lemma_trim_decimal(n);
    lemma_switch_texts();
    lemma_ladder_text();
}

pub proof fn lemma_ladder_text()
    ensures
        trim("ladder"@) == "ladder"@,
        "video_mode"@ != "fps"@,
        "video_mode"@ != "custom_fps"@,
        "video_mode"@ != "custom_bitrate_kbps"@,
        "custom_fps"@ != "fps"@,
        "custom_fps"@ != "custom_bitrate_kbps"@,
        "fps"@ != "custom_bitrate_kbps"@,
{
    reveal_strlit("ladder");
    reveal_strlit("video_mode");
    reveal_strlit("fps");
    reveal_strlit("custom_fps");
    reveal_strlit("custom_bitrate_kbps");
    assert("video_mode"@[0] == 'v' && "fps"@.len() == 3 && "custom_fps"@[0] == 'c'
        && "custom_bitrate_kbps"@.len() == 19);
    assert("ladder"@[0] == 'l' && "ladder"@[5] == 'r');
    lemma_trim_clean("ladder"@);
}

/// What is not stored has its default: a gain of 100, the first GPU, port 4456,
/// half a minute.
pub proof fn law_missing_settings_have_defaults(
    plan: PlanModel,
    settings: Map<Seq<char>, Seq<char>>,
    o: OverridesModel,
    ladder_kbps: nat,
    env: CaptureEnv,
)
    ensures
        ({
            let c = config_of(plan, settings, o, ladder_kbps, env);
            let plain = !settings.contains_key("video_mode"@);
            &&& !settings.contains_key("gain_game"@) ==> c.gain_game == 100
            &&& !settings.contains_key("gain_mic"@) ==> c.gain_mic == 100
            &&& !settings.contains_key("gpu_index"@) ==> c.gpu_index == 0
            &&& !settings.contains_key("engine_ws_port"@) ==> c.websocket_port == 4456
            &&& !settings.contains_key("buffer_seconds"@) && o.duration_seconds is None && o.game
                is None ==> c.duration_seconds == 30
            &&& !settings.contains_key("capture_window"@) && o.game is None ==> c.window.len() == 0
            &&& !settings.contains_key("engine_restore_token"@) && o.game is None
                ==> c.portal_restore_token.len() == 0
            &&& plain && o.bitrate_kbps is None ==> c.bitrate_kbps == ladder_kbps
            &&& plain && !settings.contains_key("fps"@) && o.fps is None && plan.custom_video
                is None ==> c.fps == 60
        }),
{
    lemma_numerals();
    lemma_switch_texts();
    reveal_strlit("");
    lemma_ladder_text();
}

pub proof fn lemma_numerals()
    ensures
        "0"@ == decimal(0),
        "60"@ == decimal(60),
        "100"@ == decimal(100),
        "4456"@ == decimal(4456),
        parse_unsigned("0"@, u32::MAX as nat) == Some(0nat),
        parse_unsigned("60"@, u32::MAX as nat) == Some(60nat),
        parse_unsigned("100"@, u32::MAX as nat) == Some(100nat),
        parse_unsigned("4456"@, 65535) == Some(4456nat),
{
    reveal_strlit("0");
    reveal_strlit("60");
    reveal_strlit("100");
    reveal_strlit("4456");
    reveal_with_fuel(decimal, 5);
    assert("0"@ =~= decimal(0));
    assert("60"@ =~= decimal(60));
    assert("100"@ =~= decimal(100));
    assert("4456"@ =~= decimal(4456));
    lemma_parse_decimal(0, u32::MAX as nat);
    lemma_parse_decimal(60, u32::MAX as nat);
    lemma_parse_decimal(100, u32::MAX as nat);
    lemma_parse_decimal(4456, 65535);
}

// ---------------------------------------------------------------------------
// Overrides
// ---------------------------------------------------------------------------
/// What a start asks for goes before what is stored, and what it asks for a
/// game goes between the two.
pub proof fn law_overrides_go_first(
    plan: PlanModel,
    settings: Map<Seq<char>, Seq<char>>,
    o: OverridesModel,
    ladder_kbps: nat,
    env: CaptureEnv,
)
    ensures
        ({
            let c = config_of(plan, settings, o, ladder_kbps, env);
            let stored = config_of(
                plan,
                settings,
                OverridesModel {
                    fps: None,
                    bitrate_kbps: None,
                    duration_seconds: None,
                    game: None,
                    ..o
                },
                ladder_kbps,
                env,
            );
            &&& c.fps == match o.fps {
                Some(f) => f as nat,
                None => stored.fps,
            }
            &&& c.bitrate_kbps == match o.bitrate_kbps {
                Some(b) => b as nat,
                None => stored.bitrate_kbps,
            }
            &&& c.duration_seconds == match o.duration_seconds {
                Some(d) => d as nat,
                None => match o.game {
                    Some(g) => match g.duration_seconds {
                        Some(d) => d as nat,
                        None => stored.duration_seconds,
                    },
                    None => stored.duration_seconds,
                },
            }
            &&& c.portal_restore_token == match o.game {
                Some(g) => if g.token is Some && g.token->0.len() > 0 {
                    g.token->0
                } else {
                    stored.portal_restore_token
                },
                None => stored.portal_restore_token,
            }
            &&& c.window_match == match o.game {
                Some(g) => g.window_match,
                None => None,
            }
            &&& c.window == if o.game is Some && o.game->0.window_match is None
                && o.game->0.source_kind == Some("portal"@) {
                o.game->0.key
            } else {
                stored.window
            }
        }),
{
}

/// In custom mode a stored bitrate between 3,000 and 100,000 kbps and one of the
/// five frame rates are used, and elsewhere those of the ladder.
pub proof fn law_custom_mode_uses_its_own_numbers(
    plan: PlanModel,
    settings: Map<Seq<char>, Seq<char>>,
    o: OverridesModel,
    ladder_kbps: nat,
    env: CaptureEnv,
    n: nat,
)
    requires
        n <= 0xffff_ffff,
        o.fps is None,
        o.bitrate_kbps is None,
        plan.custom_video is None,
        settings.contains_key("video_mode"@),
    ensures
        ({
            let custom = settings["video_mode"@] == "custom"@;
            let rate = config_of(
                plan,
                settings.insert("custom_bitrate_kbps"@, decimal(n)),
                o,
                ladder_kbps,
                env,
            );
            let frames = config_of(plan, settings.insert("custom_fps"@, decimal(n)), o, ladder_kbps, env);
            let plain = config_of(plan, settings.remove("video_mode"@), o, ladder_kbps, env);
            &&& custom ==> rate.bitrate_kbps == if 3_000 <= n <= 100_000 {
                n
            } else {
                ladder_kbps
            }
            &&& custom ==> frames.fps == if n == 24 || n == 30 || n == 60 || n == 120 || n == 144 {
                n
            } else {
                plain.fps
            }
            &&& trim(settings["video_mode"@]) != "custom"@ ==> rate.bitrate_kbps == ladder_kbps
                && frames.fps == plain.fps
        }),
{
    lemma_parse_decimal(n, u32::MAX as nat);
    lemma_trim_decimal(n);
    lemma_switch_texts();
    lemma_ladder_text();
}

// ---------------------------------------------------------------------------
// Devices
// ---------------------------------------------------------------------------
proof fn lemma_listed_id(devices: Seq<DeviceModel>, i: int, kind: Seq<char>)
    requires
        0 <= i < devices.len(),
        devices[i].kind == kind,
    ensures
        device_by_id(devices, devices[i].id, kind) == Some(devices[i].id),
    decreases devices.len(),
{
    if !(devices[0].id == devices[i].id && devices[0].kind == kind) {
        assert(devices.drop_first()[i - 1] == devices[i]);
        lemma_listed_id(devices.drop_first(), i - 1, kind);
    }
}

/// A playback device that is stored and listed is the one whose sound is
/// recorded, and a microphone that is stored and listed is the one that is
/// recorded. Neither is looked for among the other kind.
pub proof fn law_stored_devices_are_used(
    plan: PlanModel,
    settings: Map<Seq<char>, Seq<char>>,
    o: OverridesModel,
    ladder_kbps: nat,
    env: CaptureEnv,
    i: int,
)
    requires
        env.devices is Ok,
        0 <= i < env.devices->Ok_0@.len(),
    ensures
        ({
            let d = env.devices->Ok_0@[i]@;
            let with = |key: Seq<char>|
                config_of(plan, settings.insert(key, d.id), o, ladder_kbps, env);
            let named = trim(d.id) == d.id && d.id.len() > 0;
            &&& named && d.kind == "desktop"@ && !is_default_name(d.id) ==> with(
                "desktop_device"@,
            ).desktop_device == d.id
            &&& named && d.kind == "mic"@ && !is_default_name(d.id) ==> with(
                "mic_device"@,
            ).mic_device == d.id
        }),
{
    let d = env.devices->Ok_0@[i]@;
    let all = device_models(env.devices->Ok_0@);
    assert(all[i] == d);
    lemma_listed_id(all, i, d.kind);
}

/// The names that stand for whatever the system uses.
pub open spec fn is_default_name(id: Seq<char>) -> bool {
    id == "default"@ || id == "default_output"@ || id == "default_input"@
}

/// Without a list of devices, and where the default is stored, the system's own
/// are recorded.
pub proof fn law_default_devices(
    plan: PlanModel,
    settings: Map<Seq<char>, Seq<char>>,
    o: OverridesModel,
    ladder_kbps: nat,
    env: CaptureEnv,
)
    ensures
        ({
            let c = config_of(plan, settings, o, ladder_kbps, env);
            &&& env.devices is Err || !settings.contains_key("desktop_device"@)
                || settings["desktop_device"@] == "default_output"@ ==> c.desktop_device
                == "default"@
            &&& env.devices is Err || !settings.contains_key("mic_device"@)
                || settings["mic_device"@] == "default_input"@ ==> c.mic_device == "default"@
        }),
{
    reveal_strlit("default_output");
    reveal_strlit("default_input");
    assert("default_output"@[0] == 'd' && "default_output"@[13] == 't');
    assert("default_input"@[0] == 'd' && "default_input"@[12] == 't');
    lemma_trim_clean("default_output"@);
    lemma_trim_clean("default_input"@);
}

proof fn lemma_not_listed(devices: Seq<DeviceModel>, name: Seq<char>, kind: Seq<char>)
    requires
        forall|i: int|
            0 <= i < devices.len() && (#[trigger] devices[i]).kind == kind ==> devices[i].id != name
                && ascii_lower(devices[i].description) != ascii_lower(name),
    ensures
        device_by_id(devices, name, kind) is None,
        device_by_description(devices, name, kind) is None,
    decreases devices.len(),
{
    if devices.len() > 0 {
        let rest = devices.drop_first();
        assert forall|i: int| 0 <= i < rest.len() && (#[trigger] rest[i]).kind == kind implies rest[i].id
            != name && ascii_lower(rest[i].description) != ascii_lower(name) by {
            assert(rest[i] == devices[i + 1]);
        }
        assert(devices[0] == devices[0]);
        lemma_not_listed(rest, name, kind);
    }
}

/// Where a microphone is stored that no listed microphone has as its id or, but
/// for the case of its letters, as its description, the system's own is
/// recorded; and the same holds of playback devices.
pub proof fn law_unknown_devices_give_the_default(
    plan: PlanModel,
    settings: Map<Seq<char>, Seq<char>>,
    o: OverridesModel,
    ladder_kbps: nat,
    env: CaptureEnv,
    render: bool,
)
    requires
        env.devices is Ok,
        env.devices->Ok_0@.len() > 0,
        ({
            let key = if render {
                "desktop_device"@
            } else {
                "mic_device"@
            };
            &&& settings.contains_key(key)
            &&& forall|i: int|
                0 <= i < env.devices->Ok_0@.len() && (#[trigger] env.devices->Ok_0@[i])@.kind == (
                if render {
                    "desktop"@
                } else {
                    "mic"@
                }) ==> env.devices->Ok_0@[i]@.id != trim(settings[key]) && ascii_lower(
                    env.devices->Ok_0@[i]@.description,
                ) != ascii_lower(trim(settings[key]))
        }),
    ensures
        ({
            let c = config_of(plan, settings, o, ladder_kbps, env);
            (if render {
                c.desktop_device
            } else {
                c.mic_device
            }) == "default"@
        }),
{
    let key = if render {
        "desktop_device"@
    } else {
        "mic_device"@
    };
    let kind = if render {
        "desktop"@
    } else {
        "mic"@
    };
    law_default_devices(plan, settings, o, ladder_kbps, env);
    let list = env.devices->Ok_0@;
    let all = device_models(list);
    let name = trim(settings[key]);
    assert forall|i: int| 0 <= i < all.len() && (#[trigger] all[i]).kind == kind implies all[i].id
        != name && ascii_lower(all[i].description) != ascii_lower(name) by {
        assert(all[i] == list[i]@);
    }
    lemma_not_listed(all, name, kind);
    if name.len() == 0 {
        law_default_devices(plan, settings.remove(key), o, ladder_kbps, env);
    }
}

// ---------------------------------------------------------------------------
// What is stored
// ---------------------------------------------------------------------------
/// The settings after a thing was stored.
pub open spec fn settings_after(settings: Map<Seq<char>, Seq<char>>, w: WriteModel) -> Map<
    Seq<char>,
    Seq<char>,
> {
    match w {
        WriteModel::Setting(key, value) => settings.insert(key, value),
        WriteModel::Game(_) => settings,
    }
}

/// The settings after things were stored one after the other.
pub open spec fn settings_after_all(
    settings: Map<Seq<char>, Seq<char>>,
    writes: Seq<WriteModel>,
) -> Map<Seq<char>, Seq<char>>
    decreases writes.len(),
{
    if writes.len() == 0 {
        settings
    } else {
        settings_after(settings_after_all(settings, writes.drop_last()), writes.last())
    }
}

/// A mute that is stored is the mute of that track in the next configuration,
/// and the other track keeps its own.
pub proof fn law_stored_mute_mutes_its_track(
    plan: PlanModel,
    settings: Map<Seq<char>, Seq<char>>,
    o: OverridesModel,
    ladder_kbps: nat,
    env: CaptureEnv,
    track: Seq<char>,
    muted: bool,
)
    ensures
        ({
            let before = config_of(plan, settings, o, ladder_kbps, env);
            match mute_written(track, muted) {
                Ok(w) => {
                    let after = config_of(plan, settings_after(settings, w), o, ladder_kbps, env);
                    &&& track == "game"@ || track == "mic"@
                    &&& after.mute_game == if track == "game"@ {
                        muted
                    } else {
                        before.mute_game
                    }
                    &&& after.mute_mic == if track == "mic"@ {
                        muted
                    } else {
                        before.mute_mic
                    }
                    &&& after.gain_game == before.gain_game
                    &&& after.gain_mic == before.gain_mic
                },
                Err(_) => track != "game"@ && track != "mic"@,
            }
        }),
{
    lemma_switch_texts();
    lemma_track_keys();
}

proof fn lemma_track_keys()
    ensures
        "game"@ != "mic"@,
        "mute_game"@ != "mute_mic"@,
        "gain_game"@ != "gain_mic"@,
        "mute_game"@ != "gain_game"@,
        "mute_game"@ != "gain_mic"@,
        "mute_mic"@ != "gain_mic"@,
        "mute_mic"@ != "gain_game"@,
{
    reveal_strlit("game");
    reveal_strlit("mic");
    reveal_strlit("mute_game");
    reveal_strlit("mute_mic");
    reveal_strlit("gain_game");
    reveal_strlit("gain_mic");
    assert("game"@.len() == 4 && "mic"@.len() == 3 && "mute_game"@.len() == 9 && "mute_mic"@.len()
        == 8 && "gain_game"@.len() == 9 && "gain_mic"@.len() == 8 && "mute_game"@[0] == 'm'
        && "mute_mic"@[0] == 'm' && "gain_game"@[0] == 'g' && "gain_mic"@[0] == 'g');
}

/// A gain that is stored is the gain of that track in the next configuration,
/// at most 200, and the other track keeps its own.
pub proof fn law_stored_gain_is_the_gain_of_its_track(
    plan: PlanModel,
    settings: Map<Seq<char>, Seq<char>>,
    o: OverridesModel,
    ladder_kbps: nat,
    env: CaptureEnv,
    track: Seq<char>,
    percent: nat,
)
    ensures
        ({
            let before = config_of(plan, settings, o, ladder_kbps, env);
            let used: nat = if percent > 200 {
                200
            } else {
                percent
            };
            match gain_written(track, percent) {
                Ok((w, applied)) => {
                    let after = config_of(plan, settings_after(settings, w), o, ladder_kbps, env);
                    &&& track == "game"@ || track == "mic"@
                    &&& applied == used
                    &&& after.gain_game == if track == "game"@ {
                        used
                    } else {
                        before.gain_game
                    }
                    &&& after.gain_mic == if track == "mic"@ {
                        used
                    } else {
                        before.gain_mic
                    }
                    &&& after.mute_game == before.mute_game
                    &&& after.mute_mic == before.mute_mic
                },
                Err(_) => track != "game"@ && track != "mic"@,
            }
        }),
{
    lemma_track_keys();
    let used: nat = if percent > 200 {
        200
    } else {
        percent
    };
    lemma_parse_decimal(used, u32::MAX as nat);
    lemma_trim_decimal(used);
}

/// The port that is shown is the one that is used, unless that would be one
/// below 1024.
pub proof fn law_shown_port_is_used(
    plan: PlanModel,
    settings: Map<Seq<char>, Seq<char>>,
    o: OverridesModel,
    ladder_kbps: nat,
    env: CaptureEnv,
)
    ensures
        ({
            let used = config_of(plan, settings, o, ladder_kbps, env).websocket_port;
            used == if shown_port(settings) < 1024 {
                1024
            } else {
                shown_port(settings)
            }
        }),
{
}

proof fn lemma_described(devices: Seq<DeviceModel>, i: int, name: Seq<char>, kind: Seq<char>)
    requires
        0 <= i < devices.len(),
        devices[i].kind == kind,
        ascii_lower(devices[i].description) == ascii_lower(name),
        forall|j: int|
            0 <= j < i && (#[trigger] devices[j]).kind == kind ==> ascii_lower(
                devices[j].description,
            ) != ascii_lower(name),
    ensures
        device_by_description(devices, name, kind) == Some(devices[i].id),
    decreases devices.len(),
{
    if i > 0 {
        let rest = devices.drop_first();
        assert(rest[i - 1] == devices[i]);
        assert(devices[0] == devices[0]);
        assert forall|j: int| 0 <= j < i - 1 && (#[trigger] rest[j]).kind == kind implies ascii_lower(
            rest[j].description,
        ) != ascii_lower(name) by {
            assert(rest[j] == devices[j + 1]);
        }
        lemma_described(rest, i - 1, name, kind);
    }
}

proof fn lemma_no_id(devices: Seq<DeviceModel>, name: Seq<char>, kind: Seq<char>)
    requires
        forall|j: int|
            0 <= j < devices.len() && (#[trigger] devices[j]).kind == kind ==> devices[j].id != name,
    ensures
        device_by_id(devices, name, kind) is None,
    decreases devices.len(),
{
    if devices.len() > 0 {
        let rest = devices.drop_first();
        assert(devices[0] == devices[0]);
        assert forall|j: int| 0 <= j < rest.len() && (#[trigger] rest[j]).kind == kind implies rest[j].id
            != name by {
            assert(rest[j] == devices[j + 1]);
        }
        lemma_no_id(rest, name, kind);
    }
}

/// A device that is stored by its description is the first of its kind that has
/// it, whatever the case of its letters.
pub proof fn law_devices_are_found_by_description(
    stored: Seq<char>,
    devices: Seq<DeviceModel>,
    render: bool,
    i: int,
)
    requires
        0 <= i < devices.len(),
        !is_default_name(trim(stored)),
        trim(stored).len() > 0,
        ({
            let kind = if render {
                "desktop"@
            } else {
                "mic"@
            };
            let name = trim(stored);
            &&& devices[i].kind == kind
            &&& ascii_lower(devices[i].description) == ascii_lower(name)
            &&& forall|j: int|
                0 <= j < i && (#[trigger] devices[j]).kind == kind ==> ascii_lower(
                    devices[j].description,
                ) != ascii_lower(name)
            &&& forall|j: int|
                0 <= j < devices.len() && (#[trigger] devices[j]).kind == kind ==> devices[j].id
                    != name
        }),
    ensures
        matched_device(stored, devices, render) == devices[i].id,
{
    let kind = if render {
        "desktop"@
    } else {
        "mic"@
    };
    lemma_described(devices, i, trim(stored), kind);
    lemma_no_id(devices, trim(stored), kind);
}

/// In custom mode a frame rate that is none of the five is refused, and only there.
pub proof fn law_refused_frame_rates(n: nat, kbps: Seq<char>, fps: int, ladder: int)
    requires
        n <= 0xffff_ffff,
    ensures
        custom_rate("custom"@, decimal(n), kbps, fps, ladder).refused_fps <==> n != 24 && n != 30
            && n != 60 && n != 120 && n != 144,
        !custom_rate("ladder"@, decimal(n), kbps, fps, ladder).refused_fps,
{
    lemma_switch_texts();
    lemma_ladder_text();
    lemma_trim_decimal(n);
    lemma_parse_decimal(n, u32::MAX as nat);
}

// ---------------------------------------------------------------------------
// Custom payloads
// ---------------------------------------------------------------------------
/// What is proposed goes before what is stored, and nothing is empty.
pub proof fn law_proposed_goes_before_stored(
    proposed: Map<Seq<char>, Seq<char>>,
    settings: Map<Seq<char>, Seq<char>>,
    key: Seq<char>,
)
    ensures
        ({
            let v = proposed_or_stored(proposed, settings, key);
            &&& proposed.contains_key(key) ==> v == proposed[key]
            &&& !proposed.contains_key(key) && settings.contains_key(key) ==> v == settings[key]
            &&& !proposed.contains_key(key) && !settings.contains_key(key) ==> v.len() == 0
        }),
{
}

/// Custom video needs a custom encoder; nothing at all is right; and an encoder
/// that does not pass is wrong with every video.
pub proof fn law_custom_pairs(
    encoder: Option<JsonRead>,
    video: Option<JsonRead>,
)
    ensures
        encoder is None ==> (payload_error(encoder, video) is None <==> video is None),
        encoder matches Some(read) && custom_encoder_read(read) is Err ==> payload_error(
            encoder,
            video,
        ) is Some,
        encoder matches Some(read) && custom_encoder_read(read) is Ok ==> payload_error(
            encoder,
            None,
        ) is None,
        encoder matches Some(read) && (custom_encoder_read(read) matches Ok(c) && video matches Some(
            v,
        ) && (known_encoder(c.encoder) matches Some(e) && custom_video_read(e.family, e.codec, v)
            is Err)) ==> payload_error(encoder, video) is Some,
{
}

} // verus!
