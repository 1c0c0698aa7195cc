//! What stands in the files that OBS is started with, read key by key.

use vstd::prelude::*;

use crate::encoder_laws::lemma_distinct_entry;
use crate::json::{hundredths_text, object_map, JsonModel};
use crate::profile::ProfileModel;
use crate::render::{
    basic_ini, collection_entries, game_source_model, global_ini, mic_source_model, object_of,
    scene_entries, scene_item_entries, scene_settings_entries, source_entries, user_ini,
    video_source_model, websocket_entries, SourceModel, UuidsModel,
};
use crate::text::{contains, decimal, digit, digits_value, occurs_at};

verus! {

broadcast use vstd::string::group_string_axioms;

/// What stands under a key within what stands under another.
pub open spec fn below(doc: Option<JsonModel>, key: Seq<char>) -> Option<JsonModel> {
    match doc {
        Some(d) => d.get(key),
        None => None,
    }
}

/// The item at a place of a list.
pub open spec fn item(doc: Option<JsonModel>, i: int) -> Option<JsonModel> {
    match doc {
        Some(JsonModel::Array(items)) => if 0 <= i < items.len() {
            Some(items[i])
        } else {
            None
        },
        _ => None,
    }
}

// ---------------------------------------------------------------------------
// Sources
// ---------------------------------------------------------------------------
proof fn lemma_source_keys(s: SourceModel)
    ensures
        ({
            let doc = object_of(source_entries(s));
            &&& doc.get("name"@) == Some(JsonModel::Str(s.name))
            &&& doc.get("uuid"@) == Some(JsonModel::Str(s.uuid))
            &&& doc.get("id"@) == Some(JsonModel::Str(s.id))
            &&& doc.get("versioned_id"@) == Some(JsonModel::Str(s.id))
            &&& doc.get("settings"@) == Some(s.settings)
            &&& doc.get("mixers"@) == Some(JsonModel::Int(s.mixers))
            &&& doc.get("volume"@) == Some(JsonModel::Float(hundredths_text(s.volume)))
            &&& doc.get("enabled"@) == Some(JsonModel::Bool(true))
            &&& doc.get("muted"@) == Some(JsonModel::Bool(s.muted))
        }),
{
    reveal_strlit("prev_ver");
    reveal_strlit("name");
    reveal_strlit("uuid");
    reveal_strlit("id");
    reveal_strlit("versioned_id");
    reveal_strlit("settings");
    reveal_strlit("mixers");
    reveal_strlit("sync");
    reveal_strlit("flags");
    reveal_strlit("volume");
    reveal_strlit("balance");
    reveal_strlit("enabled");
    reveal_strlit("muted");
    reveal_strlit("push-to-mute");
    reveal_strlit("push-to-mute-delay");
    reveal_strlit("push-to-talk");
    reveal_strlit("push-to-talk-delay");
    reveal_strlit("hotkeys");
    reveal_strlit("deinterlace_mode");
    reveal_strlit("deinterlace_field_order");
    reveal_strlit("monitoring_type");
    reveal_strlit("private_settings");
    let es = source_entries(s);
    assert("name"@[0] == 'n' && "uuid"@[0] == 'u' && "sync"@[0] == 's');
    assert("settings"@[0] == 's' && "prev_ver"@[0] == 'p');
    assert("versioned_id"@[0] == 'v' && "push-to-mute"@[0] == 'p' && "push-to-talk"@[0] == 'p');
    assert("mixers"@[0] == 'm' && "volume"@[0] == 'v');
    assert("flags"@[0] == 'f' && "muted"@[0] == 'm');
    assert("balance"@[0] == 'b' && "enabled"@[0] == 'e' && "hotkeys"@[0] == 'h');
    assert forall|j: int| 0 <= j < es.len() && j != 1 implies (#[trigger] es[j]).0 != es[1].0 by {
        assert(es[j].0.len() != 4 || es[j].0[0] != 'n');
    }
    assert forall|j: int| 0 <= j < es.len() && j != 2 implies (#[trigger] es[j]).0 != es[2].0 by {
        assert(es[j].0.len() != 4 || es[j].0[0] != 'u');
    }
    assert forall|j: int| 0 <= j < es.len() && j != 3 implies (#[trigger] es[j]).0 != es[3].0 by {
        assert(es[j].0.len() != 2);
    }
    assert forall|j: int| 0 <= j < es.len() && j != 4 implies (#[trigger] es[j]).0 != es[4].0 by {
        assert(es[j].0.len() != 12 || es[j].0[0] != 'v');
    }
    assert forall|j: int| 0 <= j < es.len() && j != 5 implies (#[trigger] es[j]).0 != es[5].0 by {
        assert(es[j].0.len() != 8 || es[j].0[0] != 's');
    }
    assert forall|j: int| 0 <= j < es.len() && j != 6 implies (#[trigger] es[j]).0 != es[6].0 by {
        assert(es[j].0.len() != 6 || es[j].0[0] != 'm');
    }
    assert forall|j: int| 0 <= j < es.len() && j != 9 implies (#[trigger] es[j]).0 != es[9].0 by {
        assert(es[j].0.len() != 6 || es[j].0[0] != 'v');
    }
    assert forall|j: int| 0 <= j < es.len() && j != 11 implies (#[trigger] es[j]).0 != es[11].0 by {
        assert(es[j].0.len() != 7 || es[j].0[0] != 'e');
    }
    assert forall|j: int| 0 <= j < es.len() && j != 12 implies (#[trigger] es[j]).0 != es[12].0 by {
        assert(es[j].0.len() != 5 || es[j].0[0] != 'm');
    }
    lemma_distinct_entry(es, 1);
    lemma_distinct_entry(es, 2);
    lemma_distinct_entry(es, 3);
    lemma_distinct_entry(es, 4);
    lemma_distinct_entry(es, 5);
    lemma_distinct_entry(es, 6);
    lemma_distinct_entry(es, 9);
    lemma_distinct_entry(es, 11);
    lemma_distinct_entry(es, 12);
}

proof fn lemma_one_entry(key: Seq<char>, value: JsonModel)
    ensures
        object_of(seq![(key, value)]).get(key) == Some(value),
{
    lemma_distinct_entry(seq![(key, value)], 0);
}

proof fn lemma_collection_keys(p: ProfileModel, u: UuidsModel)
    ensures
        ({
            let es = collection_entries(p, u);
            let doc = object_of(es);
            &&& doc.get("name"@) == Some(es[0].1)
            &&& doc.get("current_scene"@) == Some(es[1].1)
            &&& doc.get("current_program_scene"@) == Some(es[2].1)
            &&& doc.get("scene_order"@) == Some(es[3].1)
            &&& doc.get("sources"@) == Some(es[4].1)
            &&& doc.get("AuxAudioDevice1"@) == Some(es[16].1)
            &&& doc.get("AuxAudioDevice2"@) == Some(es[17].1)
        }),
{
    let es = collection_entries(p, u);
    reveal_strlit("name");
    reveal_strlit("current_scene");
    reveal_strlit("current_program_scene");
    reveal_strlit("scene_order");
    reveal_strlit("sources");
    reveal_strlit("groups");
    reveal_strlit("quick_transitions");
    reveal_strlit("transitions");
    reveal_strlit("saved_projectors");
    reveal_strlit("current_transition");
    reveal_strlit("transition_duration");
    reveal_strlit("preview_locked");
    reveal_strlit("scaling_enabled");
    reveal_strlit("scaling_level");
    reveal_strlit("scaling_off_x");
    reveal_strlit("scaling_off_y");
    reveal_strlit("AuxAudioDevice1");
    reveal_strlit("AuxAudioDevice2");
    reveal_strlit("modules");
    assert("sources"@[0] == 's' && "modules"@[0] == 'm');
    assert("scene_order"@[0] == 's' && "transitions"@[0] == 't');
    assert("current_scene"@[0] == 'c' && "scaling_level"@[0] == 's' && "scaling_off_x"@[0] == 's'
        && "scaling_off_y"@[0] == 's' && "scaling_enabled"@[0] == 's');
    assert("AuxAudioDevice1"@[0] == 'A' && "AuxAudioDevice2"@[0] == 'A' && "AuxAudioDevice1"@[14]
        == '1' && "AuxAudioDevice2"@[14] == '2');
    assert forall|j: int| 0 <= j < es.len() && j != 0 implies (#[trigger] es[j]).0 != es[0].0 by {
        assert(es[j].0.len() != 4);
    }
    assert forall|j: int| 0 <= j < es.len() && j != 1 implies (#[trigger] es[j]).0 != es[1].0 by {
        assert(es[j].0.len() != 13 || es[j].0[0] != 'c');
    }
    assert forall|j: int| 0 <= j < es.len() && j != 2 implies (#[trigger] es[j]).0 != es[2].0 by {
        assert(es[j].0.len() != 21);
    }
    assert forall|j: int| 0 <= j < es.len() && j != 3 implies (#[trigger] es[j]).0 != es[3].0 by {
        assert(es[j].0.len() != 11 || es[j].0[0] != 's');
    }
    assert forall|j: int| 0 <= j < es.len() && j != 4 implies (#[trigger] es[j]).0 != es[4].0 by {
        assert(es[j].0.len() != 7 || es[j].0[0] != 's');
    }
    assert forall|j: int| 0 <= j < es.len() && j != 16 implies (#[trigger] es[j]).0 != es[16].0 by {
        assert(es[j].0.len() != 15 || es[j].0[0] != 'A' || es[j].0[14] != '1');
    }
    assert forall|j: int| 0 <= j < es.len() && j != 17 implies (#[trigger] es[j]).0 != es[17].0 by {
        assert(es[j].0.len() != 15 || es[j].0[0] != 'A' || es[j].0[14] != '2');
    }
    lemma_distinct_entry(es, 0);
    lemma_distinct_entry(es, 1);
    lemma_distinct_entry(es, 2);
    lemma_distinct_entry(es, 3);
    lemma_distinct_entry(es, 4);
    lemma_distinct_entry(es, 16);
    lemma_distinct_entry(es, 17);
}

/// In the collection of a profile the first audio source records its playback
/// device and the second its microphone, each with its own gain, mute, kind,
/// name and tracks.
pub proof fn law_audio_sources_record_their_own_device(p: ProfileModel, u: UuidsModel)
    requires
        0 <= p.gain_game <= 200,
        0 <= p.gain_mic <= 200,
    ensures
        ({
            let doc = Some(object_of(collection_entries(p, u)));
            let game = below(doc, "AuxAudioDevice1"@);
            let mic = below(doc, "AuxAudioDevice2"@);
            &&& below(below(game, "settings"@), "device_id"@) == Some(
                JsonModel::Str(p.desktop_device),
            )
            &&& below(below(mic, "settings"@), "device_id"@) == Some(JsonModel::Str(p.mic_device))
            &&& below(game, "muted"@) == Some(JsonModel::Bool(p.mute_game))
            &&& below(mic, "muted"@) == Some(JsonModel::Bool(p.mute_mic))
            &&& below(game, "volume"@) == Some(
                JsonModel::Float(hundredths_text(p.gain_game as nat)),
            )
            &&& below(mic, "volume"@) == Some(JsonModel::Float(hundredths_text(p.gain_mic as nat)))
            &&& below(game, "id"@) == Some(JsonModel::Str(p.game_audio_id))
            &&& below(mic, "id"@) == Some(JsonModel::Str(p.mic_audio_id))
            &&& below(game, "versioned_id"@) == below(game, "id"@)
            &&& below(mic, "versioned_id"@) == below(mic, "id"@)
            &&& below(game, "uuid"@) == Some(JsonModel::Str(u.game_audio))
            &&& below(mic, "uuid"@) == Some(JsonModel::Str(u.mic_audio))
            &&& below(game, "name"@) == Some(JsonModel::Str("MoonClip Game Audio"@))
            &&& below(mic, "name"@) == Some(JsonModel::Str("MoonClip Mic"@))
            &&& below(game, "enabled"@) == Some(JsonModel::Bool(true))
            &&& below(mic, "enabled"@) == Some(JsonModel::Bool(true))
        }),
{
    lemma_collection_keys(p, u);
    lemma_source_keys(game_source_model(p, u));
    lemma_source_keys(mic_source_model(p, u));
    lemma_one_entry("device_id"@, JsonModel::Str(p.desktop_device));
    lemma_one_entry("device_id"@, JsonModel::Str(p.mic_device));
}

/// A source is on a track where its mixers hold the bit of that track.
pub open spec fn is_on_track(mixers: int, track: nat) -> bool {
    if track == 1 {
        mixers % 2 == 1
    } else if track == 2 {
        mixers / 2 % 2 == 1
    } else {
        mixers / 4 % 2 == 1
    }
}

/// The mixers of an audio source.
pub open spec fn mixers_of(doc: Option<JsonModel>) -> int {
    match below(doc, "mixers"@) {
        Some(JsonModel::Int(n)) => n,
        _ => 0,
    }
}

/// Both audio sources are on the first track, which holds the mix. Where tracks
/// are kept apart the game has the second for itself and the microphone the
/// third; the picture and the scene are on none.
pub proof fn law_tracks_are_kept_apart(p: ProfileModel, u: UuidsModel)
    ensures
        ({
            let doc = Some(object_of(collection_entries(p, u)));
            let game = mixers_of(below(doc, "AuxAudioDevice1"@));
            let mic = mixers_of(below(doc, "AuxAudioDevice2"@));
            &&& is_on_track(game, 1) && is_on_track(mic, 1)
            &&& is_on_track(game, 2) == !p.single_track
            &&& is_on_track(mic, 3) == !p.single_track
            &&& !is_on_track(game, 3) && !is_on_track(mic, 2)
            &&& 0 <= game < 8 && 0 <= mic < 8
            &&& mixers_of(item(below(doc, "sources"@), 1)) == 0
        }),
{
    lemma_collection_keys(p, u);
    lemma_source_keys(game_source_model(p, u));
    lemma_source_keys(mic_source_model(p, u));
    lemma_source_keys(video_source_model(p, u));
}

/// Two profiles that record different devices never have the same collection.
pub proof fn law_devices_tell_collections_apart(
    p: ProfileModel,
    q: ProfileModel,
    u: UuidsModel,
    v: UuidsModel,
)
    requires
        0 <= p.gain_game <= 200,
        0 <= p.gain_mic <= 200,
        0 <= q.gain_game <= 200,
        0 <= q.gain_mic <= 200,
        p.mic_device != q.mic_device || p.desktop_device != q.desktop_device || p.mute_mic
            != q.mute_mic || p.mute_game != q.mute_game,
    ensures
        object_of(collection_entries(p, u)) != object_of(collection_entries(q, v)),
{
    law_audio_sources_record_their_own_device(p, u);
    law_audio_sources_record_their_own_device(q, v);
    assert(JsonModel::Str(p.mic_device) == JsonModel::Str(q.mic_device) ==> p.mic_device
        == q.mic_device);
    assert(JsonModel::Str(p.desktop_device) == JsonModel::Str(q.desktop_device) ==> p.desktop_device
        == q.desktop_device);
}

/// The volume of a source reads as its gain: whole hundreds before the point,
/// and the rest behind it.
pub proof fn law_volume_reads_as_the_gain(gain: nat)
    requires
        gain <= 200,
    ensures
        ({
            let text = hundredths_text(gain);
            &&& text.len() >= 3
            &&& text[1] == '.'
            &&& text[0] == digit(gain / 100)
            &&& text.len() == 3 ==> digits_value(text.skip(2)) * 10 == gain % 100
            &&& text.len() == 4 ==> digits_value(text.skip(2)) == gain % 100
            &&& text.len() <= 4
        }),
{
    let text = hundredths_text(gain);
    let rest = text.skip(2);
    assert(decimal(gain / 100) == seq![digit(gain / 100)]);
    if gain % 10 == 0 {
        assert(rest =~= seq![digit(gain / 10 % 10)]);
        assert(rest.drop_last() =~= Seq::<char>::empty());
        reveal_with_fuel(digits_value, 2);
    } else {
        assert(rest =~= seq![digit(gain / 10 % 10), digit(gain % 10)]);
        assert(rest.drop_last() =~= seq![digit(gain / 10 % 10)]);
        assert(rest.drop_last().drop_last() =~= Seq::<char>::empty());
        reveal_with_fuel(digits_value, 3);
    }
}

proof fn lemma_scene_item(scene_uuid: Seq<char>, video_uuid: Seq<char>)
    ensures
        ({
            let scene = Some(object_of(scene_entries(scene_uuid, video_uuid)));
            let shown = item(below(below(scene, "settings"@), "items"@), 0);
            &&& below(scene, "uuid"@) == Some(JsonModel::Str(scene_uuid))
            &&& below(scene, "name"@) == Some(JsonModel::Str("MoonClip Capture"@))
            &&& below(scene, "id"@) == Some(JsonModel::Str("scene"@))
            &&& below(shown, "source_uuid"@) == Some(JsonModel::Str(video_uuid))
            &&& below(shown, "name"@) == Some(JsonModel::Str("MoonClip Screen"@))
            &&& below(shown, "visible"@) == Some(JsonModel::Bool(true))
        }),
{
    let model = SourceModel {
        uuid: scene_uuid,
        name: "MoonClip Capture"@,
        id: "scene"@,
        settings: object_of(scene_settings_entries(video_uuid)),
        mixers: 0,
        volume: 100,
        muted: false,
    };
    lemma_source_keys(model);
    let es = source_entries(model);
    let more = scene_entries(scene_uuid, video_uuid);
    assert(more.drop_last() =~= es);
    reveal_strlit("canvas_uuid");
    reveal_strlit("uuid");
    reveal_strlit("name");
    reveal_strlit("id");
    reveal_strlit("settings");
    assert("canvas_uuid"@.len() == 11);
    assert(object_map(more) == object_map(es).insert(more.last().0, more.last().1));
    lemma_scene_settings(video_uuid);
    lemma_item_keys(video_uuid);
}

proof fn lemma_scene_settings(video_uuid: Seq<char>)
    ensures
        object_of(scene_settings_entries(video_uuid)).get("items"@) == Some(
            JsonModel::Array(seq![object_of(scene_item_entries(video_uuid))]),
        ),
{
    reveal_strlit("id_counter");
    reveal_strlit("custom_size");
    reveal_strlit("items");
    let es = scene_settings_entries(video_uuid);
    assert forall|j: int| 0 <= j < es.len() && j != 2 implies (#[trigger] es[j]).0 != es[2].0 by {
        assert(es[j].0.len() != 5);
    }
    lemma_distinct_entry(es, 2);
}

proof fn lemma_item_keys(video_uuid: Seq<char>)
    ensures
        ({
            let doc = object_of(scene_item_entries(video_uuid));
            &&& doc.get("name"@) == Some(JsonModel::Str("MoonClip Screen"@))
            &&& doc.get("source_uuid"@) == Some(JsonModel::Str(video_uuid))
            &&& doc.get("visible"@) == Some(JsonModel::Bool(true))
        }),
{
    reveal_strlit("name");
    reveal_strlit("source_uuid");
    reveal_strlit("visible");
    reveal_strlit("locked");
    reveal_strlit("rot");
    reveal_strlit("pos");
    reveal_strlit("scale");
    reveal_strlit("align");
    reveal_strlit("bounds_type");
    reveal_strlit("bounds_align");
    reveal_strlit("bounds_crop");
    reveal_strlit("bounds");
    reveal_strlit("crop_left");
    reveal_strlit("crop_top");
    reveal_strlit("crop_right");
    reveal_strlit("crop_bottom");
    reveal_strlit("id");
    reveal_strlit("group_item_backup");
    reveal_strlit("scale_filter");
    reveal_strlit("blend_method");
    reveal_strlit("blend_type");
    reveal_strlit("show_transition");
    reveal_strlit("hide_transition");
    reveal_strlit("private_settings");
    let es = scene_item_entries(video_uuid);
    assert("source_uuid"@[0] == 's' && "bounds_type"@[0] == 'b' && "bounds_crop"@[0] == 'b'
        && "crop_bottom"@[0] == 'c');
    assert forall|j: int| 0 <= j < es.len() && j != 0 implies (#[trigger] es[j]).0 != es[0].0 by {
        assert(es[j].0.len() != 4);
    }
    assert forall|j: int| 0 <= j < es.len() && j != 1 implies (#[trigger] es[j]).0 != es[1].0 by {
        assert(es[j].0.len() != 11 || es[j].0[0] != 's');
    }
    assert forall|j: int| 0 <= j < es.len() && j != 2 implies (#[trigger] es[j]).0 != es[2].0 by {
        assert(es[j].0.len() != 7);
    }
    lemma_distinct_entry(es, 0);
    lemma_distinct_entry(es, 1);
    lemma_distinct_entry(es, 2);
}

/// The current scene is the one that is listed, it shows the captured source
/// and nothing else, and that source has the kind and settings of the profile.
pub proof fn law_scene_shows_the_captured_source(p: ProfileModel, u: UuidsModel)
    ensures
        ({
            let doc = Some(object_of(collection_entries(p, u)));
            let scene = item(below(doc, "sources"@), 0);
            let video = item(below(doc, "sources"@), 1);
            let items = below(below(scene, "settings"@), "items"@);
            let shown = item(items, 0);
            &&& below(doc, "name"@) == Some(JsonModel::Str("MoonClip"@))
            &&& below(doc, "current_scene"@) == Some(JsonModel::Str("MoonClip Capture"@))
            &&& below(doc, "current_program_scene"@) == below(doc, "current_scene"@)
            &&& below(item(below(doc, "scene_order"@), 0), "name"@) == below(doc, "current_scene"@)
            &&& below(scene, "name"@) == below(doc, "current_scene"@)
            &&& below(scene, "uuid"@) == Some(JsonModel::Str(u.scene))
            &&& item(items, 1) is None
            &&& item(below(doc, "sources"@), 2) is None
            &&& below(shown, "source_uuid"@) == below(video, "uuid"@)
            &&& below(shown, "name"@) == below(video, "name"@)
            &&& below(shown, "visible"@) == Some(JsonModel::Bool(true))
            &&& below(video, "uuid"@) == Some(JsonModel::Str(u.video))
            &&& below(video, "name"@) == Some(JsonModel::Str("MoonClip Screen"@))
            &&& below(video, "id"@) == Some(JsonModel::Str(p.video_source_id))
            &&& below(video, "settings"@) == Some(object_of(p.video_settings))
            &&& below(video, "muted"@) == Some(JsonModel::Bool(false))
        }),
{
    lemma_collection_keys(p, u);
    lemma_source_keys(video_source_model(p, u));
    lemma_scene_item(u.scene, u.video);
    lemma_scene_settings(u.video);
    lemma_one_entry("name"@, JsonModel::Str("MoonClip Capture"@));
    lemma_scene_settings_of(u.scene, u.video);
}

proof fn lemma_scene_settings_of(scene_uuid: Seq<char>, video_uuid: Seq<char>)
    ensures
        object_of(scene_entries(scene_uuid, video_uuid)).get("settings"@) == Some(
            object_of(scene_settings_entries(video_uuid)),
        ),
{
    let model = SourceModel {
        uuid: scene_uuid,
        name: "MoonClip Capture"@,
        id: "scene"@,
        settings: object_of(scene_settings_entries(video_uuid)),
        mixers: 0,
        volume: 100,
        muted: false,
    };
    lemma_source_keys(model);
    let es = source_entries(model);
    let more = scene_entries(scene_uuid, video_uuid);
    assert(more.drop_last() =~= es);
    reveal_strlit("canvas_uuid");
    reveal_strlit("settings");
    assert("canvas_uuid"@.len() == 11 && "settings"@.len() == 8);
    assert(object_map(more) == object_map(es).insert(more.last().0, more.last().1));
}

// ---------------------------------------------------------------------------
// Websocket
// ---------------------------------------------------------------------------
/// The websocket listens on the port that is given, and lets nobody in without
/// the password that is given.
pub proof fn law_websocket_asks_for_the_password(port: nat, password: Seq<char>)
    ensures
        ({
            let doc = object_of(websocket_entries(port, password));
            &&& doc.get("server_enabled"@) == Some(JsonModel::Bool(true))
            &&& doc.get("server_port"@) == Some(JsonModel::Int(port as int))
            &&& doc.get("auth_required"@) == Some(JsonModel::Bool(true))
            &&& doc.get("server_password"@) == Some(JsonModel::Str(password))
        }),
{
    reveal_strlit("alerts_enabled");
    reveal_strlit("auth_required");
    reveal_strlit("first_load");
    reveal_strlit("server_enabled");
    reveal_strlit("server_port");
    reveal_strlit("server_password");
    reveal_strlit("debug_enabled");
    let es = websocket_entries(port, password);
    assert("alerts_enabled"@[0] == 'a' && "server_enabled"@[0] == 's' && "auth_required"@[0] == 'a'
        && "debug_enabled"@[0] == 'd');
    assert forall|j: int| 0 <= j < es.len() && j != 1 implies (#[trigger] es[j]).0 != es[1].0 by {
        assert(es[j].0.len() != 13 || es[j].0[0] != 'a');
    }
    assert forall|j: int| 0 <= j < es.len() && j != 3 implies (#[trigger] es[j]).0 != es[3].0 by {
        assert(es[j].0.len() != 14 || es[j].0[0] != 's');
    }
    assert forall|j: int| 0 <= j < es.len() && j != 4 implies (#[trigger] es[j]).0 != es[4].0 by {
        assert(es[j].0.len() != 11);
    }
    assert forall|j: int| 0 <= j < es.len() && j != 5 implies (#[trigger] es[j]).0 != es[5].0 by {
        assert(es[j].0.len() != 15);
    }
    lemma_distinct_entry(es, 1);
    lemma_distinct_entry(es, 3);
    lemma_distinct_entry(es, 4);
    lemma_distinct_entry(es, 5);
}

// ---------------------------------------------------------------------------
// Profile file
// ---------------------------------------------------------------------------
/// A line of a text: a key and what it is set to.
pub open spec fn sets(text: Seq<char>, key: Seq<char>, value: Seq<char>) -> bool {
    contains(text, key + "="@ + value + "\n"@)
}

proof fn lemma_contains_parts()
    ensures
        forall|a: Seq<char>, b: Seq<char>, x: Seq<char>|
            contains(a, x) ==> #[trigger] contains(a + b, x),
        forall|a: Seq<char>, x: Seq<char>| #[trigger] contains(a + x, x),
{
    assert forall|a: Seq<char>, b: Seq<char>, x: Seq<char>| contains(a, x) implies #[trigger] contains(
        a + b,
        x,
    ) by {
        let i = choose|i: int| #[trigger] occurs_at(a, x, i);
        assert((a + b).subrange(i, i + x.len()) =~= a.subrange(i, i + x.len()));
        assert(occurs_at(a + b, x, i));
    }
    assert forall|a: Seq<char>, x: Seq<char>| #[trigger] contains(a + x, x) by {
        assert((a + x).subrange(a.len() as int, (a.len() + x.len()) as int) =~= x);
        assert(occurs_at(a + x, x, a.len() as int));
    }
}

/// The profile file sets each thing to what the profile holds: where clips go
/// and as what, which encoder writes them, how long the buffer is, the tracks,
/// the sizes, the frame rate and the colours.
#[verifier::rlimit(40)]
pub proof fn law_profile_file_sets_what_the_profile_holds(p: ProfileModel)
    ensures
        ({
            let t = basic_ini(p);
            &&& sets(t, "RecFilePath"@, p.output_dir)
            &&& sets(t, "RecFormat2"@, p.container)
            &&& sets(t, "RecEncoder"@, p.encoder_id)
            &&& sets(t, "RecRBTime"@, decimal(p.replay_seconds as nat))
            &&& sets(t, "RecRBSize"@, decimal(p.replay_mb as nat))
            &&& sets(
                t,
                "RecTracks"@,
                decimal(
                    if p.single_track {
                        1
                    } else {
                        7
                    },
                ),
            )
            &&& sets(t, "Track1Bitrate"@, decimal(320))
            &&& sets(t, "Track2Bitrate"@, decimal(320))
            &&& sets(t, "Track3Bitrate"@, decimal(192))
        }),
        ({
            let t = basic_ini(p);
            &&& sets(t, "BaseCX"@, decimal(p.base_width as nat))
            &&& sets(t, "BaseCY"@, decimal(p.base_height as nat))
            &&& sets(t, "OutputCX"@, decimal(p.video.out_width as nat))
            &&& sets(t, "OutputCY"@, decimal(p.video.out_height as nat))
            &&& sets(t, "FPSType"@, decimal(p.video.fps_type as nat))
            &&& sets(t, "ScaleType"@, p.video.scale_type)
            &&& sets(t, "ColorFormat"@, p.video.color_format)
            &&& sets(t, "ColorSpace"@, p.video.color_space)
            &&& sets(t, "ColorRange"@, p.video.color_range)
        }),
{
    lemma_contains_parts();
}

proof fn lemma_frame_lines(p: ProfileModel)
    ensures
        p.video.fps_type == 1 ==> sets(
            crate::render::fps_lines(p),
            "FPSInt"@,
            decimal(p.video.fps_int as nat),
        ),
        p.video.fps_type == 2 ==> sets(
            crate::render::fps_lines(p),
            "FPSNum"@,
            decimal(p.video.fps_num as nat),
        ) && sets(crate::render::fps_lines(p), "FPSDen"@, decimal(p.video.fps_den as nat)),
        p.video.fps_type == 0 ==> sets(
            crate::render::fps_lines(p),
            "FPSCommon"@,
            p.video.fps_common,
        ),
{
    lemma_contains_parts();
    let n = "FPSInt"@ + "="@ + decimal(p.video.fps_int as nat) + "\n"@;
    assert(Seq::<char>::empty() + n =~= n);
    assert(contains(Seq::<char>::empty() + n, n));
    let m = "FPSNum"@ + "="@ + decimal(p.video.fps_num as nat) + "\n"@;
    assert(Seq::<char>::empty() + m =~= m);
    assert(contains(Seq::<char>::empty() + m, m));
    let c = "FPSCommon"@ + "="@ + p.video.fps_common + "\n"@;
    assert(Seq::<char>::empty() + c =~= c);
    assert(contains(Seq::<char>::empty() + c, c));
}

/// A frame rate is set as a whole number, a fraction or a common value, as the
/// profile asks for it.
pub proof fn law_profile_file_sets_the_frame_rate(p: ProfileModel)
    ensures
        p.video.fps_type == 1 ==> sets(basic_ini(p), "FPSInt"@, decimal(p.video.fps_int as nat)),
        p.video.fps_type == 2 ==> sets(basic_ini(p), "FPSNum"@, decimal(p.video.fps_num as nat)),
        p.video.fps_type == 2 ==> sets(basic_ini(p), "FPSDen"@, decimal(p.video.fps_den as nat)),
        p.video.fps_type == 0 ==> sets(basic_ini(p), "FPSCommon"@, p.video.fps_common),
{
    lemma_frame_lines(p);
    lemma_contains_parts();
    lemma_contains_middle();
}

proof fn lemma_contains_middle()
    ensures
        forall|a: Seq<char>, b: Seq<char>, x: Seq<char>|
            contains(b, x) ==> #[trigger] contains(a + b, x),
{
    assert forall|a: Seq<char>, b: Seq<char>, x: Seq<char>| contains(b, x) implies #[trigger] contains(
        a + b,
        x,
    ) by {
        let i = choose|i: int| #[trigger] occurs_at(b, x, i);
        let at = a.len() as int + i;
        assert((a + b).subrange(at, at + x.len()) =~= b.subrange(i, i + x.len()));
        assert(occurs_at(a + b, x, at));
    }
}

/// OBS opens the profile and the collection that were written, goes by without
/// its first run, and has a tray icon only where it is to have one.
pub proof fn law_obs_opens_what_was_written(tray: bool)
    ensures
        sets(global_ini(), "Profile"@, "MoonClip"@),
        sets(global_ini(), "ProfileDir"@, "MoonClip"@),
        sets(global_ini(), "SceneCollection"@, "MoonClip"@),
        sets(global_ini(), "SceneCollectionFile"@, "MoonClip"@),
        "[General]\nFirstRun=true\n"@.is_prefix_of(user_ini(tray)),
        tray ==> user_ini(tray) == "[General]\nFirstRun=true\n"@,
        !tray ==> user_ini(tray) == "[General]\nFirstRun=true\n"@
            + "\n[BasicWindow]\nSysTrayEnabled=false\nSysTrayWhenStarted=false\nSysTrayMinimizeToTray=false\n"@,
{
    lemma_contains_parts();
}

} // verus!
