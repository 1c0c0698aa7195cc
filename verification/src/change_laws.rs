//! What a change of settings does, and what the hotkey and the session keep.

use vstd::prelude::*;

use crate::capture::{
    config_of, keeps_password, no_overrides, plan_with_of, CaptureEnv, GameModel, OverridesModel,
    PlanModel,
};
use crate::changes::{
    law_quality_leaves_custom_mode, law_undo_restores_what_was_stored, quality_change, restarts,
    setting_change, settings_change, written, RESTART_KEYS,
};
use crate::config_laws::{
    law_each_part_depends_on_its_own_setting, lemma_ladder_text, lemma_switch_texts,
    settings_after_all,
};
use crate::encoder_tables::strs;
use crate::hotkey::{
    accepted_shortcut, hotkey_end_of, hotkey_of, hotkey_step_of, last_press, press_counts,
    works_alone, EndModel, HotkeyStep, ShortcutModel, ShortcutRead,
};
use crate::json::JsonRead;
use crate::linux::video::Monitor;
use crate::option_laws::names_codec;
use crate::session::{
    forget_writes, gain_step_of, gains_of, notice_message, notice_of, picks_source, speaks_spanish,
    start_writes, GainStep, GameWrite, Notice, WriteModel,
};
use crate::settings::stored;
use crate::text::{
    ascii_upper, ascii_upper_char, contains, decimal, is_digit, lemma_decimal_digits,
    lemma_parse_decimal, lemma_trim_decimal, trim,
};

verus! {

broadcast use vstd::string::group_string_axioms;

// ---------------------------------------------------------------------------
// Restarts
// ---------------------------------------------------------------------------
/// The settings that only a restart of the buffer takes up.
pub open spec fn needs_restart(key: Seq<char>) -> bool {
    ||| key == "buffer_seconds"@ || key == "mic_device"@ || key == "desktop_device"@
    ||| key == "video_codec"@ || key == "video_encoder"@ || key == "gpu_index"@
    ||| key == "out_height"@ || key == "fps"@ || key == "monitor"@ || key == "capture_window"@
    ||| key == "audio_single_track"@ || key == "container"@ || key == "video_mode"@
    ||| key == "custom_bitrate_kbps"@ || key == "custom_fps"@ || key == "custom_encoder_json"@
    ||| key == "custom_video_json"@ || key == "gain_game"@ || key == "gain_mic"@
}

/// Which settings restart the buffer.
pub proof fn law_restart_settings(key: Seq<char>)
    ensures
        restarts(key) <==> needs_restart(key),
{
    let all = strs(RESTART_KEYS@);
    assert(all.len() == 19);
    assert(all[0] == "buffer_seconds"@ && all[1] == "mic_device"@ && all[2] == "desktop_device"@);
    assert(all[3] == "video_codec"@ && all[4] == "video_encoder"@ && all[5] == "gpu_index"@);
    assert(all[6] == "out_height"@ && all[7] == "fps"@ && all[8] == "monitor"@);
    assert(all[9] == "capture_window"@ && all[10] == "audio_single_track"@);
    assert(all[11] == "container"@ && all[12] == "video_mode"@);
    assert(all[13] == "custom_bitrate_kbps"@ && all[14] == "custom_fps"@);
    assert(all[15] == "custom_encoder_json"@ && all[16] == "custom_video_json"@);
    assert(all[17] == "gain_game"@ && all[18] == "gain_mic"@);
}

/// A setting that restarts nothing changes nothing that a running buffer could
/// not take up: the recording of the next start is the same, but for mutes, the
/// websocket's port and the restore token.
pub proof fn law_other_settings_leave_the_recording(
    plan: PlanModel,
    settings: Map<Seq<char>, Seq<char>>,
    o: OverridesModel,
    ladder_kbps: nat,
    env: CaptureEnv,
    key: Seq<char>,
    value: Seq<char>,
)
    requires
        !restarts(key),
    ensures
        ({
            let before = config_of(plan, settings, o, ladder_kbps, env);
            let after = config_of(plan, settings.insert(key, value), o, ladder_kbps, env);
            &&& after.duration_seconds == before.duration_seconds
            &&& after.fps == before.fps
            &&& after.bitrate_kbps == before.bitrate_kbps
            &&& after.gpu_index == before.gpu_index
            &&& after.desktop_device == before.desktop_device
            &&& after.mic_device == before.mic_device
            &&& after.gain_game == before.gain_game
            &&& after.gain_mic == before.gain_mic
            &&& after.audio_single_track == before.audio_single_track
            &&& after.container == before.container
            &&& after.window == before.window
        }),
{
    law_restart_settings(key);
    law_each_part_depends_on_its_own_setting(plan, settings, o, ladder_kbps, env, key, value);
}

// ---------------------------------------------------------------------------
// Changes
// ---------------------------------------------------------------------------
/// A change of one setting stores it and nothing else. Where it had a value,
/// that is what is put back and the buffer starts again; it is refused only
/// where it is one of the two custom payloads.
pub proof fn law_one_change(
    settings: Map<Seq<char>, Seq<char>>,
    key: Seq<char>,
    value: Seq<char>,
)
    ensures
        match setting_change(settings, key, value) {
            Ok(c) => {
                let after = written(settings, c.writes);
                &&& after == settings.insert(key, value)
                &&& c.restart <==> needs_restart(key)
                &&& c.start_again <==> settings.contains_key(key)
                &&& settings.contains_key(key) ==> written(after, c.undo) == settings
                &&& !settings.contains_key(key) ==> c.undo.len() == 0
            },
            Err(_) => key == "custom_encoder_json"@ || key == "custom_video_json"@,
        },
{
    law_restart_settings(key);
    let values = seq![(key, value)];
    reveal_with_fuel(written, 3);
    reveal_with_fuel(crate::changes::previous_values, 2);
    assert(values.drop_last() =~= Seq::<(Seq<char>, Seq<char>)>::empty());
    if setting_change(settings, key, value) is Ok {
        let c = setting_change(settings, key, value)->Ok_0;
        let after = written(settings, c.writes);
        assert(after =~= settings.insert(key, value));
        if settings.contains_key(key) {
            assert(c.undo =~= seq![(key, settings[key])]);
            assert(c.undo.drop_last() =~= Seq::<(Seq<char>, Seq<char>)>::empty());
            assert(written(after, c.undo) =~= settings);
        }
    }
}

proof fn lemma_last_value(
    settings: Map<Seq<char>, Seq<char>>,
    values: Seq<(Seq<char>, Seq<char>)>,
    i: int,
)
    requires
        0 <= i < values.len(),
        forall|j: int| i < j < values.len() ==> (#[trigger] values[j]).0 != values[i].0,
    ensures
        written(settings, values).contains_key(values[i].0),
        written(settings, values)[values[i].0] == values[i].1,
    decreases values.len(),
{
    if i < values.len() - 1 {
        let init = values.drop_last();
        assert forall|j: int| i < j < init.len() implies (#[trigger] init[j]).0 != init[i].0 by {
            assert(init[j] == values[j]);
        }
        lemma_last_value(settings, init, i);
        assert(values[values.len() - 1].0 != values[i].0);
    }
}

/// Of several changes at once the last of each key counts; a restart follows
/// where one of them needs it.
pub proof fn law_several_changes(
    settings: Map<Seq<char>, Seq<char>>,
    values: Seq<(Seq<char>, Seq<char>)>,
    i: int,
)
    requires
        0 <= i < values.len(),
    ensures
        match settings_change(settings, values) {
            Ok(c) => {
                let after = written(settings, c.writes);
                &&& c.restart <==> exists|j: int|
                    0 <= j < values.len() && needs_restart((#[trigger] values[j]).0)
                &&& c.start_again
                &&& after.contains_key(values[i].0)
                &&& (forall|j: int| i < j < values.len() ==> (#[trigger] values[j]).0
                    != values[i].0) ==> after[values[i].0] == values[i].1
                &&& settings.contains_key(values[i].0) ==> stored(
                    written(after, c.undo),
                    values[i].0,
                ) == Some(settings[values[i].0])
            },
            Err(_) => exists|j: int|
                0 <= j < values.len() && ((#[trigger] values[j]).0 == "custom_encoder_json"@
                    || values[j].0 == "custom_video_json"@),
        },
{
    assert forall|j: int| 0 <= j < values.len() implies restarts((#[trigger] values[j]).0)
        == needs_restart(values[j].0) by {
        law_restart_settings(values[j].0);
    }
    lemma_written_keys(settings, values, i);
    if forall|j: int| i < j < values.len() ==> (#[trigger] values[j]).0 != values[i].0 {
        lemma_last_value(settings, values, i);
    }
    if settings.contains_key(values[i].0) {
        law_undo_restores_what_was_stored(settings, values, values[i].0);
    }
    if settings_change(settings, values) is Ok {
        let c = settings_change(settings, values)->Ok_0;
        let p = |k: Seq<char>| restarts(k);
        if c.restart {
            let j = choose|j: int| 0 <= j < values.len() && p((#[trigger] values[j]).0);
            assert(needs_restart(values[j].0));
        }
        if exists|j: int| 0 <= j < values.len() && needs_restart((#[trigger] values[j]).0) {
            let j = choose|j: int| 0 <= j < values.len() && needs_restart((#[trigger] values[j]).0);
            assert(restarts(values[j].0));
        }
    } else {
        let p = |k: Seq<char>| crate::changes::is_custom_key(k);
        let j = choose|j: int| 0 <= j < values.len() && p((#[trigger] values[j]).0);
        assert(values[j] == values[j]);
    }
}

proof fn lemma_written_keys(
    settings: Map<Seq<char>, Seq<char>>,
    values: Seq<(Seq<char>, Seq<char>)>,
    i: int,
)
    requires
        0 <= i < values.len(),
    ensures
        written(settings, values).contains_key(values[i].0),
    decreases values.len(),
{
    if i < values.len() - 1 {
        assert(values.drop_last()[i] == values[i]);
        lemma_written_keys(settings, values.drop_last(), i);
    }
}

/// A quality is taken where the codec is one of the three, the frame rate one
/// of the five and the height that of the source or one of the ladder. The next
/// start then records with it, whatever mode was chosen before.
pub proof fn law_quality_is_what_the_next_start_uses(
    settings: Map<Seq<char>, Seq<char>>,
    heights: Seq<u32>,
    codec: Seq<char>,
    height: u32,
    fps: u32,
    monitor: Option<&Monitor>,
    encoder: Option<JsonRead>,
    video: Option<JsonRead>,
    ladder_kbps: nat,
    env: CaptureEnv,
)
    ensures
        quality_change(settings, heights, codec, height, fps) is Ok <==> names_codec(codec) && (fps
            == 24 || fps == 30 || fps == 60 || fps == 120 || fps == 144) && (height == 0
            || heights.contains(height)),
        quality_change(settings, heights, codec, height, fps) matches Ok(c) ==> {
            let after = written(settings, c.writes);
            &&& c.restart && c.start_again
            &&& plan_with_of(after, no_overrides(), monitor, encoder, video) matches Ok(p) && {
                let cfg = config_of(p, after, no_overrides(), ladder_kbps, env);
                &&& cfg.codec == codec
                &&& cfg.fps == fps
                &&& cfg.bitrate_kbps == ladder_kbps
                &&& cfg.out_height == if (height as nat) < cfg.base_height {
                    height as nat
                } else {
                    0
                }
            }
        },
{
    if quality_change(settings, heights, codec, height, fps) is Ok {
        let c = quality_change(settings, heights, codec, height, fps)->Ok_0;
        let after = written(settings, c.writes);
        law_quality_leaves_custom_mode(settings, heights, codec, height, fps);
        lemma_ladder_text();
        lemma_switch_texts();
        reveal_strlit("ladder");
        lemma_parse_decimal(fps as nat, u32::MAX as nat);
        lemma_parse_decimal(height as nat, u32::MAX as nat);
        lemma_trim_decimal(fps as nat);
        lemma_trim_decimal(height as nat);
        lemma_codec_texts();
        assert(after.contains_key("video_mode"@) && after.contains_key("fps"@)
            && after.contains_key("out_height"@) && after.contains_key("video_codec"@));
    }
}

proof fn lemma_codec_texts()
    ensures
        trim("h264"@) == "h264"@,
        trim("hevc"@) == "hevc"@,
        trim("av1"@) == "av1"@,
        "h264"@.len() > 0 && "hevc"@.len() > 0 && "av1"@.len() > 0,
        "ladder"@.len() > 0,
{
    reveal_strlit("h264");
    reveal_strlit("hevc");
    reveal_strlit("av1");
    reveal_strlit("ladder");
    assert("h264"@[0] == 'h' && "h264"@[3] == '4');
    assert("hevc"@[0] == 'h' && "hevc"@[3] == 'c');
    assert("av1"@[0] == 'a' && "av1"@[2] == '1');
    crate::text::lemma_trim_clean("h264"@);
    crate::text::lemma_trim_clean("hevc"@);
    crate::text::lemma_trim_clean("av1"@);
}

// ---------------------------------------------------------------------------
// Hotkey
// ---------------------------------------------------------------------------
/// The keys F1 to F12 work alone, and no other key of that kind.
pub proof fn law_function_keys_work_alone(n: nat)
    ensures
        works_alone("F"@ + decimal(n)) <==> 1 <= n <= 12,
        works_alone("f"@ + decimal(n)) <==> 1 <= n <= 12,
{
    reveal_strlit("F");
    reveal_strlit("f");
    reveal_strlit("PRINTSCREEN");
    reveal_strlit("PAUSE");
    lemma_decimal_digits(n);
    let d = decimal(n);
    assert forall|i: int| 0 <= i < d.len() implies ascii_upper_char(#[trigger] d[i]) == d[i] by {
        assert(is_digit(d[i]));
    }
    assert(is_digit(d[0]));
    assert("F"@[0] == 'F' && "f"@[0] == 'f');
    let k = "F"@ + d;
    let l = "f"@ + d;
    assert(ascii_upper(k) =~= k);
    assert(ascii_upper(l) =~= k);
    assert(k.skip(1) =~= d);
    assert("F"@.is_prefix_of(k));
    assert("PRINTSCREEN"@[0] == 'P' && "PAUSE"@[0] == 'P');
    if n <= 255 {
        lemma_parse_decimal(n, 255);
    }
}

/// No key with a name of one character works alone: no letter and no digit.
/// Case does not count, and pause and print do.
pub proof fn law_letters_do_not_work_alone(key: Seq<char>)
    ensures
        key.len() <= 1 ==> !works_alone(key),
        ascii_upper(key) == "PAUSE"@ ==> works_alone(key),
        ascii_upper(key) == "PRINTSCREEN"@ ==> works_alone(key),
        works_alone(ascii_upper(key)) == works_alone(key),
{
    reveal_strlit("F");
    reveal_strlit("PRINTSCREEN");
    reveal_strlit("PAUSE");
    let k = ascii_upper(key);
    assert("F"@[0] == 'F' && "PAUSE"@[0] == 'P' && "PRINTSCREEN"@[0] == 'P');
    assert(ascii_upper(k) =~= k);
    if "F"@.is_prefix_of(k) {
        assert(k[0] == 'F');
    }
}

/// A shortcut with a modifier is accepted as it is spelled canonically; one
/// without is where its key works alone; an empty one never is.
pub proof fn law_accepted_shortcuts(text: Seq<char>, s: ShortcutModel, error: Seq<char>)
    ensures
        text.len() == 0 ==> accepted_shortcut(text, ShortcutRead::Shortcut(s)) is Err,
        text.len() > 0 && !s.bare ==> accepted_shortcut(text, ShortcutRead::Shortcut(s)) == Ok::<
            Seq<char>,
            Seq<char>,
        >(s.canonical),
        text.len() > 0 && s.bare && works_alone(s.key) ==> accepted_shortcut(
            text,
            ShortcutRead::Shortcut(s),
        ) == Ok::<Seq<char>, Seq<char>>(s.canonical),
        text.len() > 0 ==> accepted_shortcut(text, ShortcutRead::Failure(error)) == Err::<
            Seq<char>,
            Seq<char>,
        >(error),
{
}

/// When the hotkey last counted, after several presses.
pub open spec fn last_of_presses(last: Option<u128>, presses: Seq<u128>) -> Option<u128>
    decreases presses.len(),
{
    if presses.len() == 0 {
        last
    } else {
        last_press(last_of_presses(last, presses.drop_last()), presses.last())
    }
}

/// After a press that counted, the next to count is the first at least 400
/// milliseconds later, however often the key was pressed between.
pub proof fn law_presses_are_apart(t: u128, between: Seq<u128>, now: u128)
    requires
        forall|i: int| 0 <= i < between.len() ==> t <= #[trigger] between[i] < t + 400,
        now >= t,
    ensures
        press_counts(None, t),
        last_press(None, t) == Some(t),
        last_of_presses(Some(t), between) == Some(t),
        press_counts(last_of_presses(Some(t), between), now) <==> now - t >= 400,
    decreases between.len(),
{
    if between.len() > 0 {
        let init = between.drop_last();
        assert forall|i: int| 0 <= i < init.len() implies t <= #[trigger] init[i] < t + 400 by {
            assert(init[i] == between[i]);
        }
        law_presses_are_apart(t, init, now);
        assert(between[between.len() - 1] == between.last());
    }
}

/// A hotkey that is in use stays; another is registered. Where that fails the
/// previous one is put back and the error is told, and otherwise it is stored.
pub proof fn law_there_is_always_a_hotkey(
    canonical: Seq<char>,
    previous: Seq<char>,
    registered: bool,
    error: Seq<char>,
)
    ensures
        hotkey_step_of(canonical, previous, registered) == HotkeyStep::Unchanged <==> canonical
            == previous && registered,
        hotkey_end_of(canonical, previous, None) == EndModel::Store(canonical),
        hotkey_end_of(canonical, previous, Some(error)) matches EndModel::Restore(kept, message)
            && kept == previous && canonical.is_prefix_of(message) && error.is_suffix_of(message),
{
}

/// The hotkey is the stored one, and F9 where there is none.
pub proof fn law_stored_hotkey_is_used(settings: Map<Seq<char>, Seq<char>>)
    ensures
        settings.contains_key("hotkey"@) && trim(settings["hotkey"@]).len() > 0 ==> hotkey_of(
            settings,
        ) == settings["hotkey"@],
        !settings.contains_key("hotkey"@) || trim(settings["hotkey"@]).len() == 0 ==> hotkey_of(
            settings,
        ) == "F9"@,
{
}

// ---------------------------------------------------------------------------
// What a start stores
// ---------------------------------------------------------------------------
proof fn lemma_engine_keys()
    ensures
        "engine_restore_token"@.len() == 20,
        "engine_source_width"@.len() == 19,
        "engine_source_height"@.len() == 20,
        "engine_restore_token"@ != "engine_source_height"@,
{
    reveal_strlit("engine_restore_token");
    reveal_strlit("engine_source_width");
    reveal_strlit("engine_source_height");
    assert("engine_restore_token"@[7] == 'r' && "engine_source_height"@[7] == 's');
}

/// A start stores the size of the source, and a token where it got one; without
/// one the stored token stays. It changes no other setting.
pub proof fn law_start_stores_token_and_size(
    settings: Map<Seq<char>, Seq<char>>,
    game: Option<GameModel>,
    token: Option<Seq<char>>,
    width: nat,
    height: nat,
    now_ms: int,
    key: Seq<char>,
)
    ensures
        ({
            let after = settings_after_all(
                settings,
                start_writes(game, token, width, height, now_ms),
            );
            &&& stored(after, "engine_source_width"@) == Some(decimal(width))
            &&& stored(after, "engine_source_height"@) == Some(decimal(height))
            &&& token is Some ==> stored(after, "engine_restore_token"@) == token
            &&& token is None ==> stored(after, "engine_restore_token"@) == stored(
                settings,
                "engine_restore_token"@,
            )
            &&& key != "engine_source_width"@ && key != "engine_source_height"@ && key
                != "engine_restore_token"@ ==> stored(after, key) == stored(settings, key)
        }),
{
    lemma_engine_keys();
    let w = start_writes(game, token, width, height, now_ms);
    reveal_with_fuel(settings_after_all, 6);
    let n = w.len() as int;
    assert(w[n - 1] == WriteModel::Setting("engine_source_height"@, decimal(height)));
    assert(w[n - 2] == WriteModel::Setting("engine_source_width"@, decimal(width)));
    assert(w.drop_last().last() == w[n - 2]);
    let rest = w.drop_last().drop_last();
    if token is Some {
        if game is Some {
            assert(rest.len() == 3);
            assert(rest[1] == WriteModel::Setting("engine_restore_token"@, token->0));
            assert(rest.last() == w[2] && w[2] is Game);
            assert(rest.drop_last().last() == w[1]);
            assert(rest.drop_last().drop_last().last() == w[0] && w[0] is Game);
        } else {
            assert(rest.len() == 1);
            assert(rest.last() == w[0]);
        }
    } else if game is Some {
        assert(rest.len() == 1);
        assert(rest.last() == w[0] && w[0] is Game);
    }
}

/// What a start stores for a game has the game's identity, title, window and the
/// time; the last of it has the token where the start got one.
pub proof fn law_start_stores_the_game(
    game: GameModel,
    token: Option<Seq<char>>,
    width: nat,
    height: nat,
    now_ms: int,
)
    ensures
        ({
            let w = start_writes(Some(game), token, width, height, now_ms);
            let row = GameWrite {
                key: game.key,
                title: game.title,
                source_kind: game.source_kind,
                window_match: game.window_match,
                token: None,
                seen_ms: now_ms,
            };
            &&& w.contains(WriteModel::Game(row))
            &&& token is Some ==> w.contains(WriteModel::Game(GameWrite { token, ..row }))
            &&& forall|i: int|
                0 <= i < w.len() ==> (#[trigger] w[i] matches WriteModel::Game(g) ==> g.key
                    == game.key && g.title == game.title && g.seen_ms == now_ms && (g.token is Some
                    ==> g.token == token))
        }),
        forall|i: int|
            0 <= i < start_writes(None, token, width, height, now_ms).len() ==> !(
            #[trigger] start_writes(None, token, width, height, now_ms)[i] is Game),
{
    let w = start_writes(Some(game), token, width, height, now_ms);
    assert(w[0] is Game);
    assert(w.contains(w[0]));
    if token is Some {
        assert(w[2] is Game);
        assert(w.contains(w[2]));
    }
}

/// After the chosen screen is forgotten the next start has no token to restore
/// it with, and asks for a screen again.
pub proof fn law_forgotten_screen_is_asked_for(
    plan: PlanModel,
    settings: Map<Seq<char>, Seq<char>>,
    o: OverridesModel,
    ladder_kbps: nat,
    env: CaptureEnv,
    key: Seq<char>,
)
    requires
        o.game is None,
    ensures
        ({
            let after = settings_after_all(settings, forget_writes());
            &&& config_of(plan, after, o, ladder_kbps, env).portal_restore_token.len() == 0
            &&& stored(after, "engine_source_width"@) == Some(""@)
            &&& stored(after, "engine_source_height"@) == Some(""@)
            &&& key != "engine_source_width"@ && key != "engine_source_height"@ && key
                != "engine_restore_token"@ ==> stored(after, key) == stored(settings, key)
        }),
{
    lemma_engine_keys();
    reveal_strlit("");
    let w = forget_writes();
    reveal_with_fuel(settings_after_all, 5);
    assert(w.drop_last().last() == w[1]);
    assert(w.drop_last().drop_last().last() == w[0]);
    assert(w.drop_last().drop_last().drop_last().len() == 0);
    let after = settings_after_all(settings, w);
    assert(stored(after, "engine_restore_token"@) == Some(""@));
}

/// The gains and mutes that are shown are those of each track's own settings.
pub proof fn law_shown_gains(settings: Map<Seq<char>, Seq<char>>, n: nat)
    requires
        n <= 0xffff_ffff,
    ensures
        ({
            let shown = gains_of(settings);
            &&& shown.mute_game <==> crate::config_laws::is_on(settings, "mute_game"@)
            &&& shown.mute_mic <==> crate::config_laws::is_on(settings, "mute_mic"@)
            &&& !settings.contains_key("gain_game"@) ==> shown.game == 100
            &&& !settings.contains_key("gain_mic"@) ==> shown.mic == 100
            &&& settings.contains_key("gain_game"@) && settings["gain_game"@] == decimal(n)
                ==> shown.game == if n > 200 {
                200
            } else {
                n as int
            }
            &&& settings.contains_key("gain_mic"@) && settings["gain_mic"@] == decimal(n)
                ==> shown.mic == if n > 200 {
                200
            } else {
                n as int
            }
        }),
{
    lemma_parse_decimal(n, u32::MAX as nat);
}

// ---------------------------------------------------------------------------
// Messages
// ---------------------------------------------------------------------------
/// The user is spoken to in Spanish where no language is stored or a Spanish
/// one is.
pub proof fn law_language(settings: Map<Seq<char>, Seq<char>>)
    ensures
        speaks_spanish(settings) <==> !settings.contains_key("locale"@) || "es"@.is_prefix_of(
            settings["locale"@],
        ),
{
}

/// What is told of a clip ends with its name, and of a failed save with the error.
pub proof fn law_notices_tell_what_happened(name: String, spanish: bool)
    ensures
        name@.is_suffix_of(notice_message(Notice::ClipSaved(name), spanish)),
        name@.is_suffix_of(notice_message(Notice::SaveFailed(name), spanish)),
{
}

/// Each end of a save has its own notice, and so has a press while nothing
/// records.
pub proof fn law_hotkey_notices(name: String)
    ensures
        notice_of(None) is NotRecording,
        notice_of(Some(Ok(name))) == Notice::ClipSaved(name),
        notice_of(Some(Err(name))) == Notice::SaveFailed(name),
{
}

/// A gain that a running buffer did not take live restarts it, and nothing else does.
pub proof fn law_gains_restart_only_where_needed(running: bool, applied_live: bool)
    ensures
        gain_step_of(running, applied_live) == GainStep::Restart <==> running && !applied_live,
{
}

/// The user has to pick a screen exactly where the configuration has no token.
pub proof fn law_screen_is_picked_without_a_token(token: Seq<char>)
    ensures
        picks_source(token) <==> trim(token).len() == 0,
        token.len() == 0 ==> picks_source(token),
{
}

/// A password of ASCII characters is kept where it has at least sixteen.
pub proof fn law_long_passwords_are_kept(password: Seq<char>)
    requires
        vstd::utf8::is_ascii_chars(password),
    ensures
        keeps_password(password) <==> password.len() >= 16,
{
    vstd::utf8::is_ascii_chars_encode_utf8(password);
}

/// The notices of a save in both languages.
pub proof fn law_notices_of_a_save(name: String)
    ensures
        notice_message(Notice::ClipSaved(name), false) == "Clip saved: "@ + name@,
        notice_message(Notice::ClipSaved(name), true) == "Clip guardado: "@ + name@,
        notice_message(Notice::SaveFailed(name), false) == "Save failed: "@ + name@,
        notice_message(Notice::SaveFailed(name), true) == "Error al guardar: "@ + name@,
{
}

} // verus!
