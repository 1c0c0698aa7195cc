//! What holds of profiles and generated files as a whole.

use vstd::prelude::*;

use crate::api::ConfigModel;
use crate::encoder_custom::video_doc;
use crate::encoder_laws::{law_custom_video_is_sound, law_effective_fps, lemma_distinct_entry};
use crate::encoder_options::{encoder_family, resolved_table, settings_error};
use crate::json::{
    entry_of, hundredths_text, is_hundredths, json_parse, lemma_object_map, object_map, plain,
    JsonModel,
};
use crate::obs_files::{
    collection_path, conf_dir, first_token, has_token, profile_dir, restore_token_of,
    restore_token_read, scenes_dir, seeded_profile, source_token, start_dirs, start_files,
    websocket_dir, StartTexts,
};
use crate::paths::join_path;
use crate::profile::{
    as_double, checked_video, clamped, device_id, encoder_pick, even_of, half_even, last_digit,
    lemma_half_even, lemma_last_digit, profile_of, ring_size, scale_up, width_for, PlatformModel,
    ProfileModel,
};
use crate::render::{
    collection_entries, collection_text, fraction, game_source_model, mic_source_model, object_of,
    quick_entries, scene_entries, scene_item_entries, scene_settings_entries, source_entries,
    video_source_model, SourceModel, UuidsModel, FORBIDDEN_SOURCE_ID, SCENE_NAME, VIDEO_SOURCE_NAME,
};
use crate::text::{contains, lemma_trim_idempotent, occurs_at, trim};

verus! {

broadcast use vstd::string::group_string_axioms;

// ---------------------------------------------------------------------------
// Scene
// ---------------------------------------------------------------------------
/// No generated scene names the source that hooks into games.
pub proof fn law_scene_never_hooks_a_game(p: ProfileModel, u: UuidsModel)
    ensures
        !contains(collection_text(p, u), FORBIDDEN_SOURCE_ID@),
{
    reveal_strlit("{}");
    reveal_strlit("game_capture");
    assert forall|i: int| !#[trigger] occurs_at("{}"@, "game_capture"@, i) by {}
}

/// The scene and its capture source have different names, so that OBS never
/// takes one for the other.
pub proof fn law_scene_and_source_names_differ()
    ensures
        SCENE_NAME@ != VIDEO_SOURCE_NAME@,
{
    reveal_strlit("MoonClip Capture");
    reveal_strlit("MoonClip Screen");
    assert(SCENE_NAME@.len() == 16);
    assert(VIDEO_SOURCE_NAME@.len() == 15);
}

proof fn lemma_object_plain(entries: Seq<(Seq<char>, JsonModel)>, depth: nat)
    requires
        depth > 0,
        forall|i: int| 0 <= i < entries.len() ==> plain((#[trigger] entries[i]).1, (depth - 1) as nat),
    ensures
        plain(object_of(entries), depth),
{
    lemma_object_map(entries);
    let m = object_map(entries);
    assert forall|k: Seq<char>| #[trigger] m.contains_key(k) implies plain(
        m[k],
        (depth - 1) as nat,
    ) by {
        let i = choose|i: int|
            0 <= i < entries.len() && (#[trigger] entries[i]).0 == k && entries[i].1 == m[k]
                && forall|j: int| i < j < entries.len() ==> (#[trigger] entries[j]).0 != k;
        assert(plain(entries[i].1, (depth - 1) as nat));
    }
}

proof fn lemma_fraction_plain(n: nat, depth: nat)
    requires
        n <= 200,
    ensures
        plain(fraction(n), depth),
{
    assert(is_hundredths(hundredths_text(n)));
}

proof fn lemma_empty_plain(depth: nat)
    requires
        depth > 0,
    ensures
        plain(object_of(seq![]), depth),
        plain(JsonModel::Array(seq![]), depth),
{
    lemma_object_plain(seq![], depth);
}

proof fn lemma_source_plain(s: SourceModel, depth: nat)
    requires
        depth > 10,
        s.volume <= 200,
        0 <= s.mixers <= 100,
        plain(s.settings, (depth - 1) as nat),
    ensures
        plain(object_of(source_entries(s)), depth),
        plain(
            object_of(
                source_entries(s).push(
                    ("canvas_uuid"@, JsonModel::Str(crate::render::MAIN_CANVAS_UUID@)),
                ),
            ),
            depth,
        ),
{
    let d = (depth - 1) as nat;
    lemma_fraction_plain(s.volume, d);
    lemma_fraction_plain(50, d);
    lemma_empty_plain(d);
    let es = source_entries(s);
    assert forall|i: int| 0 <= i < es.len() implies plain((#[trigger] es[i]).1, d) by {}
    lemma_object_plain(es, depth);
    let more = es.push(("canvas_uuid"@, JsonModel::Str(crate::render::MAIN_CANVAS_UUID@)));
    assert forall|i: int| 0 <= i < more.len() implies plain((#[trigger] more[i]).1, d) by {
        if i < es.len() {
            assert(more[i] == es[i]);
        }
    }
    lemma_object_plain(more, depth);
}

proof fn lemma_scene_plain(scene_uuid: Seq<char>, video_uuid: Seq<char>)
    ensures
        plain(object_of(scene_entries(scene_uuid, video_uuid)), 50),
{
    lemma_fraction_plain(0, 20);
    lemma_fraction_plain(100, 20);
    lemma_fraction_plain(0, 19);
    lemma_fraction_plain(100, 19);
    lemma_empty_plain(20);
    let zero = seq![("x"@, fraction(0)), ("y"@, fraction(0))];
    let one = seq![("x"@, fraction(100)), ("y"@, fraction(100))];
    assert forall|i: int| 0 <= i < zero.len() implies plain((#[trigger] zero[i]).1, 19) by {}
    assert forall|i: int| 0 <= i < one.len() implies plain((#[trigger] one[i]).1, 19) by {}
    lemma_object_plain(zero, 20);
    lemma_object_plain(one, 20);
    let still = seq![("duration"@, JsonModel::Int(0))];
    assert forall|i: int| 0 <= i < still.len() implies plain((#[trigger] still[i]).1, 19) by {}
    lemma_object_plain(still, 20);
    let item = scene_item_entries(video_uuid);
    assert forall|i: int| 0 <= i < item.len() implies plain((#[trigger] item[i]).1, 20) by {}
    lemma_object_plain(item, 21);
    let settings = scene_settings_entries(video_uuid);
    let items = seq![object_of(item)];
    assert(plain(JsonModel::Array(items), 22));
    assert forall|i: int| 0 <= i < settings.len() implies plain((#[trigger] settings[i]).1, 22) by {}
    lemma_object_plain(settings, 23);
    lemma_plain_deeper(object_of(settings), 23, 49);
    lemma_source_plain(
        SourceModel {
            uuid: scene_uuid,
            name: SCENE_NAME@,
            id: "scene"@,
            settings: object_of(settings),
            mixers: 0,
            volume: 100,
            muted: false,
        },
        50,
    );
}

proof fn lemma_plain_deeper(doc: JsonModel, low: nat, high: nat)
    requires
        plain(doc, low),
        low <= high,
    ensures
        plain(doc, high),
    decreases low,
{
    match doc {
        JsonModel::Array(items) => {
            assert forall|i: int| 0 <= i < items.len() implies plain(
                #[trigger] items[i],
                (high - 1) as nat,
            ) by {
                lemma_plain_deeper(items[i], (low - 1) as nat, (high - 1) as nat);
            }
        },
        JsonModel::Object(m) => {
            assert forall|k: Seq<char>| #[trigger] m.contains_key(k) implies plain(
                m[k],
                (high - 1) as nat,
            ) by {
                lemma_plain_deeper(m[k], (low - 1) as nat, (high - 1) as nat);
            }
        },
        _ => {},
    }
}

/// The scene collection reads back from its text: where the capture source's
/// own settings are plain, the whole document is.
pub proof fn law_collection_is_plain(p: ProfileModel, u: UuidsModel)
    requires
        p.gain_game >= 0,
        p.gain_mic >= 0,
        plain(object_of(p.video_settings), 40),
    ensures
        plain(object_of(collection_entries(p, u)), 100),
{
    lemma_scene_plain(u.scene, u.video);
    lemma_plain_deeper(object_of(p.video_settings), 40, 49);
    lemma_source_plain(video_source_model(p, u), 50);
    let game_device = seq![("device_id"@, JsonModel::Str(p.desktop_device))];
    let mic_device = seq![("device_id"@, JsonModel::Str(p.mic_device))];
    assert forall|i: int| 0 <= i < game_device.len() implies plain((#[trigger] game_device[i]).1, 48) by {}
    assert forall|i: int| 0 <= i < mic_device.len() implies plain((#[trigger] mic_device[i]).1, 48) by {}
    lemma_object_plain(game_device, 49);
    lemma_object_plain(mic_device, 49);
    lemma_source_plain(game_source_model(p, u), 50);
    lemma_source_plain(mic_source_model(p, u), 50);
    lemma_plain_deeper(object_of(source_entries(game_source_model(p, u))), 50, 99);
    lemma_plain_deeper(object_of(source_entries(mic_source_model(p, u))), 50, 99);
    lemma_fraction_plain(0, 99);
    lemma_empty_plain(99);
    lemma_empty_plain(50);
    let order = seq![("name"@, JsonModel::Str(SCENE_NAME@))];
    assert forall|i: int| 0 <= i < order.len() implies plain((#[trigger] order[i]).1, 49) by {}
    lemma_object_plain(order, 50);
    let orders = seq![object_of(order)];
    assert(plain(JsonModel::Array(orders), 51));
    lemma_plain_deeper(JsonModel::Array(orders), 51, 99);
    let sources = seq![
        object_of(scene_entries(u.scene, u.video)),
        object_of(source_entries(video_source_model(p, u))),
    ];
    assert(plain(JsonModel::Array(sources), 51));
    lemma_plain_deeper(JsonModel::Array(sources), 51, 99);
    let a = quick_entries("Cut"@, 1, false);
    let b = quick_entries("Fade"@, 2, false);
    let c = quick_entries("Fade"@, 3, true);
    assert forall|i: int| 0 <= i < a.len() implies plain((#[trigger] a[i]).1, 50) by {}
    assert forall|i: int| 0 <= i < b.len() implies plain((#[trigger] b[i]).1, 50) by {}
    assert forall|i: int| 0 <= i < c.len() implies plain((#[trigger] c[i]).1, 50) by {}
    lemma_object_plain(a, 51);
    lemma_object_plain(b, 51);
    lemma_object_plain(c, 51);
    let quicks = seq![object_of(a), object_of(b), object_of(c)];
    assert(plain(JsonModel::Array(quicks), 52));
    lemma_plain_deeper(JsonModel::Array(quicks), 52, 99);
    let es = collection_entries(p, u);
    assert forall|i: int| 0 <= i < es.len() implies plain((#[trigger] es[i]).1, 99) by {}
    lemma_object_plain(es, 100);
}

// ---------------------------------------------------------------------------
// Restore token
// ---------------------------------------------------------------------------
proof fn lemma_source_fields(s: SourceModel)
    ensures
        object_of(source_entries(s)).get("id"@) == Some(JsonModel::Str(s.id)),
        object_of(source_entries(s)).get("settings"@) == Some(s.settings),
{
    reveal_strlit("prev_ver");
    reveal_strlit("name");
    reveal_strlit("uuid");
    reveal_strlit("id");
    reveal_strlit("versioned_id");
    reveal_strlit("settings");
    reveal_strlit("mixers");
    reveal_strlit("sync");
    reveal_strlit("flags");
    reveal_strlit("volume");
    reveal_strlit("balance");
    reveal_strlit("enabled");
    reveal_strlit("muted");
    reveal_strlit("push-to-mute");
    reveal_strlit("push-to-mute-delay");
    reveal_strlit("push-to-talk");
    reveal_strlit("push-to-talk-delay");
    reveal_strlit("hotkeys");
    reveal_strlit("deinterlace_mode");
    reveal_strlit("deinterlace_field_order");
    reveal_strlit("monitoring_type");
    reveal_strlit("private_settings");
    let es = source_entries(s);
    assert("settings"@[0] == 's' && "prev_ver"@[0] == 'p');
    assert forall|j: int| 0 <= j < es.len() && j != 3 implies (#[trigger] es[j]).0 != es[3].0 by {
        assert(es[j].0.len() != 2);
    }
    assert forall|j: int| 0 <= j < es.len() && j != 5 implies (#[trigger] es[j]).0 != es[5].0 by {
        assert(es[j].0.len() != 8 || es[j].0[0] != 's');
    }
    lemma_distinct_entry(es, 3);
    lemma_distinct_entry(es, 5);
}

proof fn lemma_scene_keeps_no_token(scene_uuid: Seq<char>, video_uuid: Seq<char>)
    ensures
        source_token(object_of(scene_entries(scene_uuid, video_uuid))) is None,
{
    let model = SourceModel {
        uuid: scene_uuid,
        name: SCENE_NAME@,
        id: "scene"@,
        settings: object_of(scene_settings_entries(video_uuid)),
        mixers: 0,
        volume: 100,
        muted: false,
    };
    lemma_source_fields(model);
    let es = source_entries(model);
    let more = scene_entries(scene_uuid, video_uuid);
    assert(more.drop_last() =~= es);
    reveal_strlit("canvas_uuid");
    reveal_strlit("id");
    reveal_strlit("scene");
    reveal_strlit("pipewire-desktop-capture-source");
    reveal_strlit("pipewire-screen-capture-source");
    assert(more.last() == ("canvas_uuid"@, JsonModel::Str(crate::render::MAIN_CANVAS_UUID@)));
    assert(object_map(more) == object_map(es).insert(more.last().0, more.last().1));
    assert("canvas_uuid"@.len() == 11 && "id"@.len() == 2);
    assert(object_of(es).get("id"@) == Some(JsonModel::Str("scene"@)));
    assert(object_of(more).get("id"@) == Some(JsonModel::Str("scene"@)));
    assert("scene"@.len() == 5 && "pipewire-desktop-capture-source"@.len() == 31
        && "pipewire-screen-capture-source"@.len() == 30);
}

/// What is read is what was written: the token of a screen capture stands in
/// its scene collection, and is found there again.
pub proof fn law_restore_token_reads_back(p: ProfileModel, u: UuidsModel, token: Seq<char>)
    requires
        p.video_source_id == "pipewire-desktop-capture-source"@ || p.video_source_id
            == "pipewire-screen-capture-source"@,
        entry_of(p.video_settings, "RestoreToken"@) == Some(JsonModel::Str(token)),
        token.len() > 0,
    ensures
        restore_token_of(object_of(collection_entries(p, u))) == Some(token),
{
    let es = collection_entries(p, u);
    lemma_source_fields(video_source_model(p, u));
    lemma_scene_keeps_no_token(u.scene, u.video);
    reveal_strlit("name");
    reveal_strlit("current_scene");
    reveal_strlit("current_program_scene");
    reveal_strlit("scene_order");
    reveal_strlit("sources");
    reveal_strlit("groups");
    reveal_strlit("quick_transitions");
    reveal_strlit("transitions");
    reveal_strlit("saved_projectors");
    reveal_strlit("current_transition");
    reveal_strlit("transition_duration");
    reveal_strlit("preview_locked");
    reveal_strlit("scaling_enabled");
    reveal_strlit("scaling_level");
    reveal_strlit("scaling_off_x");
    reveal_strlit("scaling_off_y");
    reveal_strlit("AuxAudioDevice1");
    reveal_strlit("AuxAudioDevice2");
    reveal_strlit("modules");
    assert("sources"@[0] == 's' && "modules"@[0] == 'm');
    assert forall|j: int| 0 <= j < es.len() && j != 4 implies (#[trigger] es[j]).0 != es[4].0 by {
        assert(es[j].0.len() != 7 || es[j].0[0] != 's');
    }
    lemma_distinct_entry(es, 4);
    let sources = seq![
        object_of(scene_entries(u.scene, u.video)),
        object_of(source_entries(video_source_model(p, u))),
    ];
    assert(object_of(es).get("sources"@) == Some(JsonModel::Array(sources)));
    reveal_with_fuel(first_token, 3);
    assert(sources.drop_first()[0] == sources[1]);
    assert(source_token(sources[1]) == Some(token));
    assert(first_token(sources) == Some(token));
}

/// A token that the previous scene collection keeps is never lost: the scene
/// that is written next has one.
pub proof fn law_token_survives_the_next_start(p: ProfileModel, previous: Seq<char>)
    requires
        restore_token_read(json_parse(previous)) is Some,
    ensures
        has_token(seeded_profile(p, Some(previous))),
{
    if !has_token(p) {
        let kept = restore_token_read(json_parse(previous))->0;
        let entries = p.video_settings.push(("RestoreToken"@, JsonModel::Str(kept)));
        assert(entries.drop_last() =~= p.video_settings);
        assert(entry_of(entries, "RestoreToken"@) == Some(JsonModel::Str(kept)));
    }
}

// ---------------------------------------------------------------------------
// Isolation
// ---------------------------------------------------------------------------
proof fn lemma_join_below(a: Seq<char>, b: Seq<char>)
    requires
        b.len() > 0,
        b[0] != '/',
    ensures
        a.is_prefix_of(join_path(a, b)),
{
    assert(join_path(a, b).take(a.len() as int) =~= a);
    assert(a.is_prefix_of(join_path(a, b)));
}

proof fn lemma_prefix_chain(a: Seq<char>, b: Seq<char>, c: Seq<char>)
    requires
        a.is_prefix_of(b),
        c.len() > 0,
        c[0] != '/',
    ensures
        a.is_prefix_of(join_path(b, c)),
{
    lemma_join_below(b, c);
    assert(a.len() <= b.len());
    assert(join_path(b, c).subrange(0, a.len() as int) =~= b.subrange(0, a.len() as int));
}

proof fn lemma_paths_below(root: Seq<char>)
    ensures
        root.is_prefix_of(profile_dir(root)),
        root.is_prefix_of(scenes_dir(root)),
        root.is_prefix_of(websocket_dir(root)),
        root.is_prefix_of(collection_path(root)),
        root.is_prefix_of(join_path(profile_dir(root), "basic.ini"@)),
        root.is_prefix_of(join_path(profile_dir(root), "recordEncoder.json"@)),
        root.is_prefix_of(join_path(conf_dir(root), "global.ini"@)),
        root.is_prefix_of(join_path(conf_dir(root), "user.ini"@)),
        root.is_prefix_of(join_path(websocket_dir(root), "config.json"@)),
{
    reveal_strlit("obs-studio");
    reveal_strlit("basic");
    reveal_strlit("profiles");
    reveal_strlit("MoonClip");
    reveal_strlit("scenes");
    reveal_strlit("MoonClip.json");
    reveal_strlit("plugin_config");
    reveal_strlit("obs-websocket");
    reveal_strlit("basic.ini");
    reveal_strlit("recordEncoder.json");
    reveal_strlit("global.ini");
    reveal_strlit("user.ini");
    reveal_strlit("config.json");
    lemma_join_below(root, "obs-studio"@);
    let conf = conf_dir(root);
    lemma_prefix_chain(root, conf, "basic"@);
    let basic = join_path(conf, "basic"@);
    lemma_prefix_chain(root, basic, "profiles"@);
    lemma_prefix_chain(root, join_path(basic, "profiles"@), "MoonClip"@);
    lemma_prefix_chain(root, basic, "scenes"@);
    lemma_prefix_chain(root, scenes_dir(root), "MoonClip.json"@);
    lemma_prefix_chain(root, conf, "plugin_config"@);
    lemma_prefix_chain(root, join_path(conf, "plugin_config"@), "obs-websocket"@);
    lemma_prefix_chain(root, profile_dir(root), "basic.ini"@);
    lemma_prefix_chain(root, profile_dir(root), "recordEncoder.json"@);
    lemma_prefix_chain(root, conf, "global.ini"@);
    lemma_prefix_chain(root, conf, "user.ini"@);
    lemma_prefix_chain(root, websocket_dir(root), "config.json"@);
}

/// Every file that a start writes stands below the root of the private
/// configuration, and so does every directory that it makes except the one for
/// the clips: no configuration of another OBS is touched.
pub proof fn law_start_writes_below_its_root(
    root: Seq<char>,
    output_dir: Seq<char>,
    files: StartTexts,
)
    ensures
        forall|i: int|
            0 <= i < start_files(root, files).len() ==> root.is_prefix_of(
                (#[trigger] start_files(root, files)[i]).0,
            ),
        forall|i: int|
            0 <= i < 3 ==> root.is_prefix_of(#[trigger] start_dirs(root, output_dir)[i]),
        start_dirs(root, output_dir).len() == 4,
        start_dirs(root, output_dir)[3] == output_dir,
{
    lemma_paths_below(root);
    let fs = start_files(root, files);
    assert(root.is_prefix_of(fs[0].0) && root.is_prefix_of(fs[1].0) && root.is_prefix_of(fs[2].0));
    assert(root.is_prefix_of(fs[3].0) && root.is_prefix_of(fs[4].0) && root.is_prefix_of(fs[5].0));
    let ds = start_dirs(root, output_dir);
    assert(root.is_prefix_of(ds[0]) && root.is_prefix_of(ds[1]) && root.is_prefix_of(ds[2]));
}

// ---------------------------------------------------------------------------
// Profile
// ---------------------------------------------------------------------------
/// A device id that was brought to OBS's form keeps it.
pub proof fn law_device_id_is_stable(stored: Seq<char>, render: bool)
    ensures
        device_id(device_id(stored, render), render) == device_id(stored, render),
{
    lemma_trim_idempotent(stored);
    reveal_strlit("default");
    let d = "default"@;
    assert(d[0] == 'd' && d.last() == 't');
    assert(trim(d) == d);
}

/// The replay buffer has between 128 and 16384 megabytes, and unless that
/// limit cuts it, more than the stream takes: half as much again and 64.
pub proof fn law_replay_has_headroom(bitrate_kbps: nat, seconds: nat)
    ensures
        ({
            let raw = bitrate_kbps * seconds / 8 / 1024;
            let size = ring_size(bitrate_kbps as int, seconds as int);
            &&& 128 <= size <= 16384
            &&& raw + raw / 2 + 64 <= 16384 ==> size >= raw + raw / 2 + 64 && size > raw
        }),
{
    assert(bitrate_kbps * seconds >= 0) by (nonlinear_arith)
        requires
            bitrate_kbps >= 0,
            seconds >= 0,
    ;
}

/// A longer replay or a higher bitrate never gets a smaller buffer.
pub proof fn law_replay_grows(b1: nat, s1: nat, b2: nat, s2: nat)
    requires
        b1 <= b2,
        s1 <= s2,
    ensures
        ring_size(b1 as int, s1 as int) <= ring_size(b2 as int, s2 as int),
{
    assert(b1 * s1 <= b2 * s2) by (nonlinear_arith)
        requires
            b1 <= b2,
            s1 <= s2,
    ;
}

/// At its own height the base keeps its width.
pub proof fn law_scaling_to_the_base_changes_nothing(w: int, h: int)
    requires
        0 < w <= u32::MAX,
        0 < h <= u32::MAX,
    ensures
        width_for(w, h, h) == even_of(w),
{
    let n = w * h;
    assert(0 < n) by (nonlinear_arith)
        requires
            n == w * h,
            w > 0,
            h > 0,
    ;
    let p = as_double(n as nat);
    lemma_double_is_near(n as nat);
    let e = p - n;
    assert(n < h * 0x1_0000_0000) by (nonlinear_arith)
        requires
            n == w * h,
            w < 0x1_0000_0000,
            h > 0,
    ;
    let s = scale_up(p as nat, h as nat) as int;
    assert(s >= 2) by {
        assert(p < h * 0x10_0000_0000_0000);
        lemma_scale_up((2 * p) as nat, h as nat);
    }
    let m = half_even(p * s, h);
    assert(p * s >= 0) by (nonlinear_arith)
        requires
            p >= 0,
            s >= 0,
    ;
    lemma_half_even(p * s, h);
    assert(-(s * h) < 2 * (m * h) - 2 * (s * w * h) < s * h) by (nonlinear_arith)
        requires
            -h <= 2 * (m * h) - 2 * (p * s) <= h,
            p == n + e,
            n == w * h,
            -n <= 0x20_0000_0000_0000 * e <= n,
            n < h * 0x1_0000_0000,
            s >= 2,
            h > 0,
    {
        assert(p * s == s * w * h + s * e);
        assert(-(s * n) <= 0x20_0000_0000_0000 * (s * e) <= s * n);
        assert(s * n <= s * (h * 0x1_0000_0000));
        assert(s * (h * 0x1_0000_0000) == 0x1_0000_0000 * (s * h));
        assert(2 * h <= s * h);
    }
    assert((2 * m + s) / (2 * s) == w) by (nonlinear_arith)
        requires
            -(s * h) < 2 * (m * h) - 2 * (s * w * h) < s * h,
            h > 0,
            s >= 2,
    {
        assert(-s < 2 * m - 2 * (s * w) < s) by {
            assert((2 * m - 2 * (s * w)) * h == 2 * (m * h) - 2 * (s * w * h));
        }
        let t = 2 * m + s - 2 * s * w;
        assert(0 < t < 2 * s);
        assert(2 * m + s == w * (2 * s) + t);
    }
}

/// Double precision is off by no more than half of the last digit that it keeps.
proof fn lemma_double_is_near(n: nat)
    ensures
        -(n as int) <= 0x20_0000_0000_0000 * (as_double(n) - n) <= n,
        as_double(n) >= 0,
{
    lemma_last_digit(n);
    let u = last_digit(n) as int;
    lemma_half_even(n as int, u);
    if u == 1 {
        assert(n as int % 1 == 0 && n as int / 1 == n) by (nonlinear_arith);
    }
    assert(half_even(n as int, u) * u >= 0) by (nonlinear_arith)
        requires
            half_even(n as int, u) >= 0,
            u >= 0,
    ;
}

/// Double precision changes no width of ordinary pictures: it is the exact
/// quotient, rounded to a whole number, halves up.
pub proof fn law_ordinary_widths_are_exact(w: int, h: int, out_h: int)
    requires
        0 < w,
        0 < h,
        0 <= out_h,
        w * out_h < 0x10_0000_0000_0000,
    ensures
        width_for(w, h, out_h) == even_of(
            clamped((2 * (w * out_h) + h) / (2 * h), 0, u32::MAX as int),
        ),
{
    let n = w * out_h;
    assert(n >= 0) by (nonlinear_arith)
        requires
            n == w * out_h,
            w > 0,
            out_h >= 0,
    ;
    lemma_double_is_near(n as nat);
    assert(as_double(n as nat) == n);
    let s = scale_up(n as nat, h as nat) as int;
    let m = half_even(n * s, h);
    let k = (2 * n + h) / (2 * h);
    if n == 0 {
        assert(0int / h == 0 && 0int % h == 0) by (nonlinear_arith)
            requires
                h > 0,
        ;
        assert(h / (2 * h) == 0) by (nonlinear_arith)
            requires
                h > 0,
        ;
    } else {
        assert(n < h * 0x10_0000_0000_0000);
        lemma_scale_up(n as nat, h as nat);
        let half = scale_up((2 * n) as nat, h as nat) as int;
        lemma_scale_up((2 * n) as nat, h as nat);
        assert(s == 2 * half);
        assert(s > h) by (nonlinear_arith)
            requires
                n * s >= h * 0x10_0000_0000_0000,
                0 < n < 0x10_0000_0000_0000,
                h > 0,
                s >= 1,
        ;
        assert(n * s >= 0) by (nonlinear_arith)
            requires
                n >= 0,
                s >= 0,
        ;
        lemma_half_even(n * s, h);
        vstd::arithmetic::div_mod::lemma_fundamental_div_mod(2 * n + h, 2 * h);
        vstd::arithmetic::div_mod::lemma_mod_bound(2 * n + h, 2 * h);
        assert(2 * h * k <= 2 * n + h < 2 * h * k + 2 * h);
        if 2 * n + h == 2 * h * k {
            let t = (2 * k - 1) * half;
            assert(n * s == h * t) by (nonlinear_arith)
                requires
                    2 * n + h == 2 * h * k,
                    s == 2 * half,
                    t == (2 * k - 1) * half,
            {
                assert(n * s == (2 * n) * half);
                assert((2 * n) * half == (2 * h * k - h) * half);
            }
            vstd::arithmetic::div_mod::lemma_fundamental_div_mod_converse(n * s, h, t, 0);
            assert(m == t);
            assert((2 * m + s) / (2 * s) == k) by (nonlinear_arith)
                requires
                    m == (2 * k - 1) * half,
                    s == 2 * half,
                    half >= 1,
            {
                assert(2 * m + s == k * (2 * s));
            }
        } else {
            assert((2 * m + s) / (2 * s) == k) by (nonlinear_arith)
                requires
                    2 * h * k < 2 * n + h < 2 * h * k + 2 * h,
                    -h <= 2 * (m * h) - 2 * (n * s) <= h,
                    s > h,
                    h > 0,
            {
                let t = 2 * m + s - 2 * s * k;
                assert(t * h == 2 * (m * h) + s * h - 2 * (s * k * h));
                assert(2 * n * s >= 2 * h * k * s - h * s + s);
                assert(2 * n * s <= 2 * h * k * s + h * s - s);
                assert(t * h > 0);
                assert((2 * s - t) * h > 0);
                assert(0 < t < 2 * s);
                assert(2 * m + s == k * (2 * s) + t);
            }
        }
    }
}

proof fn lemma_scale_up(n: nat, d: nat)
    ensures
        scale_up(n, d) >= 1,
        n > 0 ==> n * scale_up(n, d) >= d * 0x10_0000_0000_0000,
    decreases
        (if n < d * 0x10_0000_0000_0000 {
            d * 0x10_0000_0000_0000 - n
        } else {
            0
        }),
{
    if n != 0 && n < d * 0x10_0000_0000_0000 {
        lemma_scale_up(2 * n, d);
        let next = scale_up(2 * n, d);
        assert(n * (2 * next) == (2 * n) * next) by (nonlinear_arith);
        assert(n * scale_up(n, d) == (2 * n) * next);
    } else {
        assert(n * 1 == n) by (nonlinear_arith);
    }
}

/// A profile that is built has an encoder of the registry, even dimensions, a
/// frame rate of 1-360, a replay of 1-3600 seconds whose buffer fits its
/// bitrate, gains of 0-200 percent, and one of the two containers. An output
/// that follows its source has the source's size.
pub proof fn law_profile_is_sound(cfg: ConfigModel, platform: PlatformModel)
    ensures
        profile_of(cfg, platform) matches Ok(p) ==> {
            &&& encoder_family(p.encoder_id) is Some
            &&& p.base_width % 2 == 0 && p.base_width >= 2
            &&& p.base_height % 2 == 0 && p.base_height >= 2
            &&& p.video.out_width % 2 == 0 && p.video.out_width >= 2
            &&& p.video.out_height % 2 == 0 && p.video.out_height >= 2
            &&& 1 <= p.video.fps <= 360
            &&& 1_000 <= p.bitrate_kbps <= 200_000
            &&& 1 <= p.replay_seconds <= 3600
            &&& p.replay_mb == ring_size(p.bitrate_kbps, p.replay_seconds)
            &&& 0 <= p.gain_game <= 200 && 0 <= p.gain_mic <= 200
            &&& p.container == "mp4"@ || p.container == "mkv"@
            &&& p.out_source ==> p.video.out_width == p.base_width && p.video.out_height
                == p.base_height
            &&& cfg.custom_video is None ==> p.video.out_height <= p.base_height
        },
{
    if profile_of(cfg, platform) is Ok {
        let pick = encoder_pick(cfg, platform)->Ok_0;
        let family = encoder_family(pick.id)->0;
        let video = checked_video(cfg, family, pick.codec)->Ok_0;
        match cfg.custom_video {
            Some(v) => {
                law_custom_video_is_sound(family, pick.codec, video_doc(v));
                law_effective_fps(family, pick.codec, video_doc(v));
            },
            None => {},
        }
    }
}

/// Custom encoder settings that a profile carries are the configured ones, and
/// passed the checks against the profile's own color format.
pub proof fn law_profile_settings_passed_the_checks(cfg: ConfigModel, platform: PlatformModel)
    requires
        cfg.custom_encoder is Some,
        cfg.custom_video is Some,
    ensures
        profile_of(cfg, platform) matches Ok(p) ==> {
            &&& p.encoder_settings == cfg.custom_encoder->0.settings
            &&& settings_error(
                resolved_table(encoder_family(p.encoder_id)->0, p.codec),
                p.codec,
                p.encoder_settings,
                Some(p.video.color_format),
            ) is None
        },
{
}

} // verus!
