//! The configuration files of the private OBS instance.
//!
//! Everything here is generated under MoonClip's own names, so that no file of
//! an OBS that the user has installed is ever touched. The scene captures the
//! screen or a window through the compositor. It never hooks a game: a scene
//! that would is replaced by an empty one.

use vstd::prelude::*;
use vstd::string::StringExecFns;

use crate::json::{
    copy_entries, decimal_fraction, entries_writable, hundredths_text, is_hundredths, json_entries,
    json_items, json_parse, json_pretty, lemma_json_view, object_map, plain, pretty_json, writable,
    Json, JsonModel, JsonRead,
};
use crate::profile::{ObsProfile, ProfileModel};
use crate::text::{contains, decimal, decimal_of, has};

verus! {

broadcast use vstd::string::group_string_axioms;

// ---------------------------------------------------------------------------
// Names
// ---------------------------------------------------------------------------
pub const OBS_PROFILE: &'static str = "MoonClip";

pub const OBS_COLLECTION: &'static str = "MoonClip";

pub const SCENE_NAME: &'static str = "MoonClip Capture";

/// Differs from the name of the scene: OBS looks the scene up by name and
/// would find the capture source instead, and record black.
pub const VIDEO_SOURCE_NAME: &'static str = "MoonClip Screen";

pub const GAME_SOURCE_NAME: &'static str = "MoonClip Game Audio";

pub const MIC_SOURCE_NAME: &'static str = "MoonClip Mic";

/// The main canvas of libobs.
pub const MAIN_CANVAS_UUID: &'static str = "6c69626f-6273-4c00-9d88-c5136d61696e";

/// The source that hooks into a game. It stands in no generated file.
pub const FORBIDDEN_SOURCE_ID: &'static str = "game_capture";

/// Audio bitrates in kbps.
pub const TRACK_BITRATE_MIX: u32 = 320;

pub const TRACK_BITRATE_GAME: u32 = 320;

pub const TRACK_BITRATE_MIC: u32 = 192;

/// OBS version written into generated scenes.
pub const SCENE_PREV_VER: u64 = 536936450;

// ---------------------------------------------------------------------------
// ini files
// ---------------------------------------------------------------------------
/// One line `key=value`.
pub open spec fn ini_line(key: Seq<char>, value: Seq<char>) -> Seq<char> {
    key + "="@ + value + "\n"@
}

/// One line with a number.
pub open spec fn ini_number(key: Seq<char>, value: int) -> Seq<char> {
    ini_line(key, decimal(value as nat))
}

fn push_line(s: &mut String, key: &str, value: &str)
    ensures
        final(s)@ == old(s)@ + ini_line(key@, value@),
{
    let mut line = key.to_owned();
    line.append("=");
    line.append(value);
    line.append("\n");
    s.append(line.as_str());
}

fn push_number(s: &mut String, key: &str, value: u32)
    ensures
        final(s)@ == old(s)@ + ini_number(key@, value as int),
{
    let n = decimal_of(value as u64);
    push_line(s, key, n.as_str());
}

/// The frame rate lines of a profile.
pub open spec fn fps_lines(p: ProfileModel) -> Seq<char> {
    if p.video.fps_type == 1 {
        ini_number("FPSInt"@, p.video.fps_int)
    } else if p.video.fps_type == 2 {
        ini_number("FPSNum"@, p.video.fps_num) + ini_number("FPSDen"@, p.video.fps_den)
    } else {
        ini_line("FPSCommon"@, p.video.fps_common)
    }
}

/// `basic.ini` of a profile: advanced output, the replay buffer, and up to
/// three audio tracks with the mix first.
pub open spec fn basic_ini(p: ProfileModel) -> Seq<char> {
    let tracks: int = if p.single_track {
        1
    } else {
        7
    };
    let head = "[General]\nName=MoonClip\n\n[Output]\nMode=Advanced\n\n[AdvOut]\nRecType=Standard\n"@
        + ini_line("RecFilePath"@, p.output_dir) + ini_line("RecFormat2"@, p.container) + ini_line(
        "RecEncoder"@,
        p.encoder_id,
    ) + "RecAudioEncoder=ffmpeg_aac\nRecRB=true\n"@ + ini_number("RecRBTime"@, p.replay_seconds)
        + ini_number("RecRBSize"@, p.replay_mb) + ini_number("RecTracks"@, tracks);
    let audio = head
        + "VodTrackEnabled=false\nTrackIndex=1\nVodTrackIndex=2\nApplyServiceSettings=false\n"@
        + ini_number("Track1Bitrate"@, TRACK_BITRATE_MIX as int) + ini_number(
        "Track2Bitrate"@,
        TRACK_BITRATE_GAME as int,
    ) + ini_number("Track3Bitrate"@, TRACK_BITRATE_MIC as int)
        + "Track1Name=Master Mix [Game+Voice]\nTrack2Name=Game/Desktop\nTrack3Name=Microphone\n\n"@;
    let video = audio + "[Video]\n"@ + ini_number("BaseCX"@, p.base_width) + ini_number(
        "BaseCY"@,
        p.base_height,
    ) + ini_number("OutputCX"@, p.video.out_width) + ini_number("OutputCY"@, p.video.out_height)
        + ini_number("FPSType"@, p.video.fps_type) + fps_lines(p) + ini_line(
        "ScaleType"@,
        p.video.scale_type,
    ) + ini_line("ColorFormat"@, p.video.color_format) + ini_line(
        "ColorSpace"@,
        p.video.color_space,
    ) + ini_line("ColorRange"@, p.video.color_range);
    video + "\n[Audio]\nSampleRate=48000\nChannelSetup=Stereo\nMonitoringDeviceId=default\n"@
}

/// `basic.ini` of a profile.
pub fn render_basic_ini(p: &ObsProfile) -> (r: String)
    ensures
        r@ == basic_ini(p@),
{
    let mut s: String =
        "[General]\nName=MoonClip\n\n[Output]\nMode=Advanced\n\n[AdvOut]\nRecType=Standard\n".to_owned();
    push_line(&mut s, "RecFilePath", p.output_dir.as_str());
    push_line(&mut s, "RecFormat2", p.container.as_str());
    push_line(&mut s, "RecEncoder", p.encoder_id.as_str());
    s.append("RecAudioEncoder=ffmpeg_aac\nRecRB=true\n");
    push_number(&mut s, "RecRBTime", p.replay_seconds);
    push_number(&mut s, "RecRBSize", p.replay_mb);
    push_number(&mut s, "RecTracks", p.rec_tracks());
    s.append("VodTrackEnabled=false\nTrackIndex=1\nVodTrackIndex=2\nApplyServiceSettings=false\n");
    push_number(&mut s, "Track1Bitrate", TRACK_BITRATE_MIX);
    push_number(&mut s, "Track2Bitrate", TRACK_BITRATE_GAME);
    push_number(&mut s, "Track3Bitrate", TRACK_BITRATE_MIC);
    s.append(
        "Track1Name=Master Mix [Game+Voice]\nTrack2Name=Game/Desktop\nTrack3Name=Microphone\n\n",
    );
    s.append("[Video]\n");
    push_number(&mut s, "BaseCX", p.base_width);
    push_number(&mut s, "BaseCY", p.base_height);
    push_number(&mut s, "OutputCX", p.out_width);
    push_number(&mut s, "OutputCY", p.out_height);
    push_number(&mut s, "FPSType", p.fps_type as u32);
    let mut fps: String = String::new();
    if p.fps_type == 1 {
        push_number(&mut fps, "FPSInt", p.fps_int);
    } else if p.fps_type == 2 {
        push_number(&mut fps, "FPSNum", p.fps_num);
        push_number(&mut fps, "FPSDen", p.fps_den);
    } else {
        push_line(&mut fps, "FPSCommon", p.fps_common.as_str());
    }
    proof {
        assert(fps@ =~= fps_lines(p@));
    }
    s.append(fps.as_str());
    push_line(&mut s, "ScaleType", p.scale_type.as_str());
    push_line(&mut s, "ColorFormat", p.color_format.as_str());
    push_line(&mut s, "ColorSpace", p.color_space.as_str());
    push_line(&mut s, "ColorRange", p.color_range.as_str());
    s.append("\n[Audio]\nSampleRate=48000\nChannelSetup=Stereo\nMonitoringDeviceId=default\n");
    s
}

/// `global.ini`: the generated profile and collection are selected.
pub open spec fn global_ini() -> Seq<char> {
    "[Basic]\n"@ + ini_line("Profile"@, OBS_PROFILE@) + ini_line("ProfileDir"@, OBS_PROFILE@)
        + ini_line("SceneCollection"@, OBS_COLLECTION@) + ini_line(
        "SceneCollectionFile"@,
        OBS_COLLECTION@,
    )
}

/// `global.ini`.
pub fn render_global_ini() -> (r: String)
    ensures
        r@ == global_ini(),
{
    let mut s: String = "[Basic]\n".to_owned();
    push_line(&mut s, "Profile", OBS_PROFILE);
    push_line(&mut s, "ProfileDir", OBS_PROFILE);
    push_line(&mut s, "SceneCollection", OBS_COLLECTION);
    push_line(&mut s, "SceneCollectionFile", OBS_COLLECTION);
    s
}

/// `user.ini`: no first-run wizard, and no tray icon where none is wanted.
pub open spec fn user_ini(tray: bool) -> Seq<char> {
    let head = "[General]\nFirstRun=true\n"@;
    if tray {
        head
    } else {
        head
            + "\n[BasicWindow]\nSysTrayEnabled=false\nSysTrayWhenStarted=false\nSysTrayMinimizeToTray=false\n"@
    }
}

/// `user.ini`.
pub fn render_user_ini(tray: bool) -> (r: String)
    ensures
        r@ == user_ini(tray),
{
    let mut s: String = "[General]\nFirstRun=true\n".to_owned();
    if !tray {
        s.append(
            "\n[BasicWindow]\nSysTrayEnabled=false\nSysTrayWhenStarted=false\nSysTrayMinimizeToTray=false\n",
        );
    }
    s
}

// ---------------------------------------------------------------------------
// JSON files
// ---------------------------------------------------------------------------
/// The object of a list of entries.
pub open spec fn object_of(entries: Seq<(Seq<char>, JsonModel)>) -> JsonModel {
    JsonModel::Object(object_map(entries))
}

/// A fraction of so many hundredths.
pub open spec fn fraction(hundredths: nat) -> JsonModel {
    JsonModel::Float(hundredths_text(hundredths))
}

fn field(key: &str, value: Json) -> (r: (String, Json))
    ensures
        r.0@ == key@,
        r.1 == value,
{
    (key.to_owned(), value)
}

fn text_value(s: &str) -> (r: Json)
    ensures
        r@ == JsonModel::Str(s@),
        writable(r),
{
    Json::Str(s.to_owned())
}

fn int_value(n: u64) -> (r: Json)
    ensures
        r@ == JsonModel::Int(n as int),
        writable(r),
{
    Json::Unsigned(n)
}

fn bool_value(b: bool) -> (r: Json)
    ensures
        r@ == JsonModel::Bool(b),
        writable(r),
{
    Json::Bool(b)
}

fn fraction_value(hundredths: u32) -> (r: Json)
    requires
        hundredths <= 200,
    ensures
        r@ == fraction(hundredths as nat),
        writable(r),
{
    let t = decimal_fraction(hundredths);
    proof {
        assert(is_hundredths(hundredths_text(hundredths as nat)));
    }
    Json::Float(t)
}

fn object(entries: Vec<(String, Json)>) -> (r: Json)
    requires
        entries_writable(entries@),
    ensures
        r@ == object_of(json_entries(entries@)),
        writable(r),
{
    let r = Json::Object(entries);
    proof {
        lemma_json_view(r);
    }
    r
}

fn array(items: Vec<Json>) -> (r: Json)
    requires
        forall|i: int| 0 <= i < items@.len() ==> writable(#[trigger] items@[i]),
    ensures
        r@ == JsonModel::Array(json_items(items@)),
        writable(r),
{
    let r = Json::Array(items);
    proof {
        lemma_json_view(r);
    }
    r
}

fn empty_object() -> (r: Json)
    ensures
        r@ == object_of(seq![]),
        writable(r),
{
    let entries: Vec<(String, Json)> = Vec::new();
    proof {
        assert(json_entries(entries@) =~= seq![]);
    }
    object(entries)
}

fn empty_array() -> (r: Json)
    ensures
        r@ == JsonModel::Array(seq![]),
        writable(r),
{
    let items: Vec<Json> = Vec::new();
    proof {
        assert(json_items(items@) =~= seq![]);
    }
    array(items)
}

/// A point with both coordinates at so many hundredths.
pub open spec fn point_model(hundredths: nat) -> JsonModel {
    object_of(seq![("x"@, fraction(hundredths)), ("y"@, fraction(hundredths))])
}

fn point(hundredths: u32) -> (r: Json)
    requires
        hundredths <= 200,
    ensures
        r@ == point_model(hundredths as nat),
        writable(r),
{
    let entries = vec![
        field("x", fraction_value(hundredths)),
        field("y", fraction_value(hundredths)),
    ];
    proof {
        assert(json_entries(entries@) =~= seq![
            ("x"@, fraction(hundredths as nat)),
            ("y"@, fraction(hundredths as nat)),
        ]);
    }
    object(entries)
}

/// A transition that takes no time.
pub open spec fn no_transition_model() -> JsonModel {
    object_of(seq![("duration"@, JsonModel::Int(0))])
}

fn no_transition() -> (r: Json)
    ensures
        r@ == no_transition_model(),
        writable(r),
{
    let entries = vec![field("duration", int_value(0))];
    proof {
        assert(json_entries(entries@) =~= seq![("duration"@, JsonModel::Int(0))]);
    }
    object(entries)
}

/// The OBS volume of a gain in percent, in hundredths. 100 is unity.
pub open spec fn volume_hundredths(gain: int) -> nat {
    (if gain > 200 {
        200
    } else {
        gain
    }) as nat
}

/// OBS volume of a gain in percent, in hundredths.
pub fn gain_hundredths(gain: u32) -> (r: u32)
    ensures
        r == volume_hundredths(gain as int),
{
    if gain > 200 {
        200
    } else {
        gain
    }
}

/// What tells the sources of a scene apart.
pub struct SourceModel {
    pub uuid: Seq<char>,
    pub name: Seq<char>,
    pub id: Seq<char>,
    pub settings: JsonModel,
    pub mixers: int,
    pub volume: nat,
    pub muted: bool,
}

/// The entries of a source.
pub open spec fn source_entries(s: SourceModel) -> Seq<(Seq<char>, JsonModel)> {
    seq![
        ("prev_ver"@, JsonModel::Int(SCENE_PREV_VER as int)),
        ("name"@, JsonModel::Str(s.name)),
        ("uuid"@, JsonModel::Str(s.uuid)),
        ("id"@, JsonModel::Str(s.id)),
        ("versioned_id"@, JsonModel::Str(s.id)),
        ("settings"@, s.settings),
        ("mixers"@, JsonModel::Int(s.mixers)),
        ("sync"@, JsonModel::Int(0)),
        ("flags"@, JsonModel::Int(0)),
        ("volume"@, fraction(s.volume)),
        ("balance"@, fraction(50)),
        ("enabled"@, JsonModel::Bool(true)),
        ("muted"@, JsonModel::Bool(s.muted)),
        ("push-to-mute"@, JsonModel::Bool(false)),
        ("push-to-mute-delay"@, JsonModel::Int(0)),
        ("push-to-talk"@, JsonModel::Bool(false)),
        ("push-to-talk-delay"@, JsonModel::Int(0)),
        ("hotkeys"@, object_of(seq![])),
        ("deinterlace_mode"@, JsonModel::Int(0)),
        ("deinterlace_field_order"@, JsonModel::Int(0)),
        ("monitoring_type"@, JsonModel::Int(0)),
        ("private_settings"@, object_of(seq![])),
    ]
}

/// The entries of a source of the scene collection.
fn source_fields(
    uuid: &str,
    name: &str,
    id: &str,
    settings: Json,
    mixers: u32,
    volume: u32,
    muted: bool,
) -> (r: Vec<(String, Json)>)
    requires
        writable(settings),
        volume <= 200,
    ensures
        json_entries(r@) == source_entries(
            SourceModel {
                uuid: uuid@,
                name: name@,
                id: id@,
                settings: settings@,
                mixers: mixers as int,
                volume: volume as nat,
                muted,
            },
        ),
        entries_writable(r@),
{
    let ghost model = SourceModel {
        uuid: uuid@,
        name: name@,
        id: id@,
        settings: settings@,
        mixers: mixers as int,
        volume: volume as nat,
        muted,
    };
    let r = vec![
        field("prev_ver", int_value(SCENE_PREV_VER)),
        field("name", text_value(name)),
        field("uuid", text_value(uuid)),
        field("id", text_value(id)),
        field("versioned_id", text_value(id)),
        field("settings", settings),
        field("mixers", int_value(mixers as u64)),
        field("sync", int_value(0)),
        field("flags", int_value(0)),
        field("volume", fraction_value(volume)),
        field("balance", fraction_value(50)),
        field("enabled", bool_value(true)),
        field("muted", bool_value(muted)),
        field("push-to-mute", bool_value(false)),
        field("push-to-mute-delay", int_value(0)),
        field("push-to-talk", bool_value(false)),
        field("push-to-talk-delay", int_value(0)),
        field("hotkeys", empty_object()),
        field("deinterlace_mode", int_value(0)),
        field("deinterlace_field_order", int_value(0)),
        field("monitoring_type", int_value(0)),
        field("private_settings", empty_object()),
    ];
    proof {
        assert(json_entries(r@) =~= source_entries(model));
    }
    r
}

/// The item that shows the capture source in the scene.
pub open spec fn scene_item_entries(video_uuid: Seq<char>) -> Seq<(Seq<char>, JsonModel)> {
    seq![
        ("name"@, JsonModel::Str(VIDEO_SOURCE_NAME@)),
        ("source_uuid"@, JsonModel::Str(video_uuid)),
        ("visible"@, JsonModel::Bool(true)),
        ("locked"@, JsonModel::Bool(false)),
        ("rot"@, fraction(0)),
        ("pos"@, point_model(0)),
        ("scale"@, point_model(100)),
        ("align"@, JsonModel::Int(5)),
        ("bounds_type"@, JsonModel::Int(0)),
        ("bounds_align"@, JsonModel::Int(0)),
        ("bounds_crop"@, JsonModel::Bool(false)),
        ("bounds"@, point_model(0)),
        ("crop_left"@, JsonModel::Int(0)),
        ("crop_top"@, JsonModel::Int(0)),
        ("crop_right"@, JsonModel::Int(0)),
        ("crop_bottom"@, JsonModel::Int(0)),
        ("id"@, JsonModel::Int(1)),
        ("group_item_backup"@, JsonModel::Bool(false)),
        ("scale_filter"@, JsonModel::Str("disable"@)),
        ("blend_method"@, JsonModel::Str("default"@)),
        ("blend_type"@, JsonModel::Str("normal"@)),
        ("show_transition"@, no_transition_model()),
        ("hide_transition"@, no_transition_model()),
        ("private_settings"@, object_of(seq![])),
    ]
}

fn scene_item(video_uuid: &str) -> (r: Json)
    ensures
        r@ == object_of(scene_item_entries(video_uuid@)),
        writable(r),
{
    let entries = vec![
        field("name", text_value(VIDEO_SOURCE_NAME)),
        field("source_uuid", text_value(video_uuid)),
        field("visible", bool_value(true)),
        field("locked", bool_value(false)),
        field("rot", fraction_value(0)),
        field("pos", point(0)),
        field("scale", point(100)),
        field("align", int_value(5)),
        field("bounds_type", int_value(0)),
        field("bounds_align", int_value(0)),
        field("bounds_crop", bool_value(false)),
        field("bounds", point(0)),
        field("crop_left", int_value(0)),
        field("crop_top", int_value(0)),
        field("crop_right", int_value(0)),
        field("crop_bottom", int_value(0)),
        field("id", int_value(1)),
        field("group_item_backup", bool_value(false)),
        field("scale_filter", text_value("disable")),
        field("blend_method", text_value("default")),
        field("blend_type", text_value("normal")),
        field("show_transition", no_transition()),
        field("hide_transition", no_transition()),
        field("private_settings", empty_object()),
    ];
    proof {
        assert(json_entries(entries@) =~= scene_item_entries(video_uuid@));
    }
    object(entries)
}

/// The settings of the scene.
pub open spec fn scene_settings_entries(video_uuid: Seq<char>) -> Seq<(Seq<char>, JsonModel)> {
    seq![
        ("id_counter"@, JsonModel::Int(2)),
        ("custom_size"@, JsonModel::Bool(false)),
        ("items"@, JsonModel::Array(seq![object_of(scene_item_entries(video_uuid))])),
    ]
}

fn scene_settings(video_uuid: &str) -> (r: Json)
    ensures
        r@ == object_of(scene_settings_entries(video_uuid@)),
        writable(r),
{
    let items = vec![scene_item(video_uuid)];
    proof {
        assert(json_items(items@) =~= seq![object_of(scene_item_entries(video_uuid@))]);
    }
    let entries = vec![
        field("id_counter", int_value(2)),
        field("custom_size", bool_value(false)),
        field("items", array(items)),
    ];
    proof {
        assert(json_entries(entries@) =~= scene_settings_entries(video_uuid@));
    }
    object(entries)
}

/// The scene: a source of its own kind that is bound to the main canvas.
pub open spec fn scene_entries(scene_uuid: Seq<char>, video_uuid: Seq<char>) -> Seq<
    (Seq<char>, JsonModel),
> {
    source_entries(
        SourceModel {
            uuid: scene_uuid,
            name: SCENE_NAME@,
            id: "scene"@,
            settings: object_of(scene_settings_entries(video_uuid)),
            mixers: 0,
            volume: 100,
            muted: false,
        },
    ).push(("canvas_uuid"@, JsonModel::Str(MAIN_CANVAS_UUID@)))
}

fn scene(scene_uuid: &str, video_uuid: &str) -> (r: Json)
    ensures
        r@ == object_of(scene_entries(scene_uuid@, video_uuid@)),
        writable(r),
{
    let mut entries = source_fields(
        scene_uuid,
        SCENE_NAME,
        "scene",
        scene_settings(video_uuid),
        0,
        100,
        false,
    );
    let ghost before = entries@;
    entries.push(field("canvas_uuid", text_value(MAIN_CANVAS_UUID)));
    proof {
        assert(json_entries(entries@) =~= json_entries(before).push(
            ("canvas_uuid"@, JsonModel::Str(MAIN_CANVAS_UUID@)),
        ));
    }
    object(entries)
}

/// The settings of an audio source.
pub open spec fn device_settings(device: Seq<char>) -> JsonModel {
    object_of(seq![("device_id"@, JsonModel::Str(device))])
}

fn device_value(device: &str) -> (r: Json)
    ensures
        r@ == device_settings(device@),
        writable(r),
{
    let entries = vec![field("device_id", text_value(device))];
    proof {
        assert(json_entries(entries@) =~= seq![("device_id"@, JsonModel::Str(device@))]);
    }
    object(entries)
}

/// A quick transition.
pub open spec fn quick_entries(name: Seq<char>, id: int, to_black: bool) -> Seq<
    (Seq<char>, JsonModel),
> {
    seq![
        ("name"@, JsonModel::Str(name)),
        ("duration"@, JsonModel::Int(300)),
        ("hotkeys"@, JsonModel::Array(seq![])),
        ("id"@, JsonModel::Int(id)),
        ("fade_to_black"@, JsonModel::Bool(to_black)),
    ]
}

fn quick(name: &str, id: u64, to_black: bool) -> (r: Json)
    ensures
        r@ == object_of(quick_entries(name@, id as int, to_black)),
        writable(r),
{
    let entries = vec![
        field("name", text_value(name)),
        field("duration", int_value(300)),
        field("hotkeys", empty_array()),
        field("id", int_value(id)),
        field("fade_to_black", bool_value(to_black)),
    ];
    proof {
        assert(json_entries(entries@) =~= quick_entries(name@, id as int, to_black));
    }
    object(entries)
}

/// The names that tell the parts of one generated collection apart.
#[derive(Debug, Clone)]
pub struct SourceUuids {
    pub scene: String,
    pub video: String,
    pub game_audio: String,
    pub mic_audio: String,
}

/// What the names of a collection stand for.
pub struct UuidsModel {
    pub scene: Seq<char>,
    pub video: Seq<char>,
    pub game_audio: Seq<char>,
    pub mic_audio: Seq<char>,
}

impl View for SourceUuids {
    type V = UuidsModel;

    open spec fn view(&self) -> UuidsModel {
        UuidsModel {
            scene: self.scene@,
            video: self.video@,
            game_audio: self.game_audio@,
            mic_audio: self.mic_audio@,
        }
    }
}

/// The capture source of a profile.
pub open spec fn video_source_model(p: ProfileModel, u: UuidsModel) -> SourceModel {
    SourceModel {
        uuid: u.video,
        name: VIDEO_SOURCE_NAME@,
        id: p.video_source_id,
        settings: object_of(p.video_settings),
        mixers: 0,
        volume: 100,
        muted: false,
    }
}

/// The game audio source of a profile: on the mix, and on its own track where there are three.
pub open spec fn game_source_model(p: ProfileModel, u: UuidsModel) -> SourceModel {
    SourceModel {
        uuid: u.game_audio,
        name: GAME_SOURCE_NAME@,
        id: p.game_audio_id,
        settings: device_settings(p.desktop_device),
        mixers: if p.single_track {
            1
        } else {
            3
        },
        volume: volume_hundredths(p.gain_game),
        muted: p.mute_game,
    }
}

/// The microphone source of a profile: on the mix, and on its own track where there are three.
pub open spec fn mic_source_model(p: ProfileModel, u: UuidsModel) -> SourceModel {
    SourceModel {
        uuid: u.mic_audio,
        name: MIC_SOURCE_NAME@,
        id: p.mic_audio_id,
        settings: device_settings(p.mic_device),
        mixers: if p.single_track {
            1
        } else {
            5
        },
        volume: volume_hundredths(p.gain_mic),
        muted: p.mute_mic,
    }
}

/// The scene collection of a profile.
pub open spec fn collection_entries(p: ProfileModel, u: UuidsModel) -> Seq<(Seq<char>, JsonModel)> {
    seq![
        ("name"@, JsonModel::Str(OBS_COLLECTION@)),
        ("current_scene"@, JsonModel::Str(SCENE_NAME@)),
        ("current_program_scene"@, JsonModel::Str(SCENE_NAME@)),
        (
            "scene_order"@,
            JsonModel::Array(seq![object_of(seq![("name"@, JsonModel::Str(SCENE_NAME@))])]),
        ),
        (
            "sources"@,
            JsonModel::Array(
                seq![
                    object_of(scene_entries(u.scene, u.video)),
                    object_of(source_entries(video_source_model(p, u))),
                ],
            ),
        ),
        ("groups"@, JsonModel::Array(seq![])),
        (
            "quick_transitions"@,
            JsonModel::Array(
                seq![
                    object_of(quick_entries("Cut"@, 1, false)),
                    object_of(quick_entries("Fade"@, 2, false)),
                    object_of(quick_entries("Fade"@, 3, true)),
                ],
            ),
        ),
        ("transitions"@, JsonModel::Array(seq![])),
        ("saved_projectors"@, JsonModel::Array(seq![])),
        ("current_transition"@, JsonModel::Str("Fade"@)),
        ("transition_duration"@, JsonModel::Int(300)),
        ("preview_locked"@, JsonModel::Bool(false)),
        ("scaling_enabled"@, JsonModel::Bool(false)),
        ("scaling_level"@, JsonModel::Int(0)),
        ("scaling_off_x"@, fraction(0)),
        ("scaling_off_y"@, fraction(0)),
        ("AuxAudioDevice1"@, object_of(source_entries(game_source_model(p, u)))),
        ("AuxAudioDevice2"@, object_of(source_entries(mic_source_model(p, u)))),
        ("modules"@, object_of(seq![])),
    ]
}

fn scene_order() -> (r: Json)
    ensures
        r@ == JsonModel::Array(seq![object_of(seq![("name"@, JsonModel::Str(SCENE_NAME@))])]),
        writable(r),
{
    let entry = vec![field("name", text_value(SCENE_NAME))];
    proof {
        assert(json_entries(entry@) =~= seq![("name"@, JsonModel::Str(SCENE_NAME@))]);
    }
    let order = vec![object(entry)];
    proof {
        assert(json_items(order@) =~= seq![
            object_of(seq![("name"@, JsonModel::Str(SCENE_NAME@))]),
        ]);
    }
    array(order)
}

fn quick_transitions() -> (r: Json)
    ensures
        r@ == JsonModel::Array(
            seq![
                object_of(quick_entries("Cut"@, 1, false)),
                object_of(quick_entries("Fade"@, 2, false)),
                object_of(quick_entries("Fade"@, 3, true)),
            ],
        ),
        writable(r),
{
    let quicks = vec![quick("Cut", 1, false), quick("Fade", 2, false), quick("Fade", 3, true)];
    proof {
        assert(json_items(quicks@) =~= seq![
            object_of(quick_entries("Cut"@, 1, false)),
            object_of(quick_entries("Fade"@, 2, false)),
            object_of(quick_entries("Fade"@, 3, true)),
        ]);
    }
    array(quicks)
}

fn video_source(p: &ObsProfile, uuids: &SourceUuids) -> (r: Json)
    requires
        entries_writable(p.video_settings@),
    ensures
        r@ == object_of(source_entries(video_source_model(p@, uuids@))),
        writable(r),
{
    let copied = copy_entries(&p.video_settings);
    object(
        source_fields(
            uuids.video.as_str(),
            VIDEO_SOURCE_NAME,
            p.video_source_id.as_str(),
            object(copied),
            0,
            100,
            false,
        ),
    )
}

fn sources(p: &ObsProfile, uuids: &SourceUuids) -> (r: Json)
    requires
        entries_writable(p.video_settings@),
    ensures
        r@ == JsonModel::Array(
            seq![
                object_of(scene_entries(uuids@.scene, uuids@.video)),
                object_of(source_entries(video_source_model(p@, uuids@))),
            ],
        ),
        writable(r),
{
    let list = vec![
        scene(uuids.scene.as_str(), uuids.video.as_str()),
        video_source(p, uuids),
    ];
    proof {
        assert(json_items(list@) =~= seq![
            object_of(scene_entries(uuids@.scene, uuids@.video)),
            object_of(source_entries(video_source_model(p@, uuids@))),
        ]);
    }
    array(list)
}

fn game_source(p: &ObsProfile, uuids: &SourceUuids) -> (r: Json)
    ensures
        r@ == object_of(source_entries(game_source_model(p@, uuids@))),
        writable(r),
{
    let mixers: u32 = if p.single_track {
        1
    } else {
        3
    };
    object(
        source_fields(
            uuids.game_audio.as_str(),
            GAME_SOURCE_NAME,
            p.game_audio_id.as_str(),
            device_value(p.desktop_device.as_str()),
            mixers,
            gain_hundredths(p.gain_game),
            p.mute_game,
        ),
    )
}

fn mic_source(p: &ObsProfile, uuids: &SourceUuids) -> (r: Json)
    ensures
        r@ == object_of(source_entries(mic_source_model(p@, uuids@))),
        writable(r),
{
    let mixers: u32 = if p.single_track {
        1
    } else {
        5
    };
    object(
        source_fields(
            uuids.mic_audio.as_str(),
            MIC_SOURCE_NAME,
            p.mic_audio_id.as_str(),
            device_value(p.mic_device.as_str()),
            mixers,
            gain_hundredths(p.gain_mic),
            p.mute_mic,
        ),
    )
}

/// The scene collection of a profile.
pub fn collection_doc(p: &ObsProfile, uuids: &SourceUuids) -> (r: Json)
    requires
        entries_writable(p.video_settings@),
    ensures
        r@ == object_of(collection_entries(p@, uuids@)),
        writable(r),
{
    let ghost pm = p@;
    let ghost um = uuids@;
    let entries = vec![
        field("name", text_value(OBS_COLLECTION)),
        field("current_scene", text_value(SCENE_NAME)),
        field("current_program_scene", text_value(SCENE_NAME)),
        field("scene_order", scene_order()),
        field("sources", sources(p, uuids)),
        field("groups", empty_array()),
        field("quick_transitions", quick_transitions()),
        field("transitions", empty_array()),
        field("saved_projectors", empty_array()),
        field("current_transition", text_value("Fade")),
        field("transition_duration", int_value(300)),
        field("preview_locked", bool_value(false)),
        field("scaling_enabled", bool_value(false)),
        field("scaling_level", int_value(0)),
        field("scaling_off_x", fraction_value(0)),
        field("scaling_off_y", fraction_value(0)),
        field("AuxAudioDevice1", game_source(p, uuids)),
        field("AuxAudioDevice2", mic_source(p, uuids)),
        field("modules", empty_object()),
    ];
    proof {
        assert(json_entries(entries@) =~= collection_entries(pm, um));
    }
    object(entries)
}

/// The text of the scene collection: the document, or an empty object where the
/// document names the source that hooks into games.
pub open spec fn collection_text(p: ProfileModel, u: UuidsModel) -> Seq<char> {
    let text = json_pretty(object_of(collection_entries(p, u)));
    if contains(text, FORBIDDEN_SOURCE_ID@) {
        "{}"@
    } else {
        text
    }
}

/// The generated scene collection. Where the document is plain and names no
/// forbidden source, the text reads back as the document.
pub fn render_collection(p: &ObsProfile, uuids: &SourceUuids) -> (r: String)
    requires
        entries_writable(p.video_settings@),
    ensures
        r@ == collection_text(p@, uuids@),
        plain(object_of(collection_entries(p@, uuids@)), 100) && !contains(
            json_pretty(object_of(collection_entries(p@, uuids@))),
            FORBIDDEN_SOURCE_ID@,
        ) ==> json_parse(r@) == JsonRead::Document(object_of(collection_entries(p@, uuids@))),
{
    let doc = collection_doc(p, uuids);
    let text = pretty_json(&doc);
    if has(text.as_str(), FORBIDDEN_SOURCE_ID) {
        "{}".to_owned()
    } else {
        text
    }
}

/// `recordEncoder.json`: the settings of the encoder.
pub fn render_record_encoder_json(p: &ObsProfile) -> (r: String)
    requires
        entries_writable(p.encoder_settings@),
    ensures
        r@ == json_pretty(object_of(p@.encoder_settings)),
        plain(object_of(p@.encoder_settings), 100) ==> json_parse(r@) == JsonRead::Document(
            object_of(p@.encoder_settings),
        ),
{
    let copied = copy_entries(&p.encoder_settings);
    pretty_json(&object(copied))
}

/// The configuration of the private websocket: on, with a password, and quiet.
pub open spec fn websocket_entries(port: nat, password: Seq<char>) -> Seq<(Seq<char>, JsonModel)> {
    seq![
        ("alerts_enabled"@, JsonModel::Bool(false)),
        ("auth_required"@, JsonModel::Bool(true)),
        ("first_load"@, JsonModel::Bool(false)),
        ("server_enabled"@, JsonModel::Bool(true)),
        ("server_port"@, JsonModel::Int(port as int)),
        ("server_password"@, JsonModel::Str(password)),
        ("debug_enabled"@, JsonModel::Bool(false)),
    ]
}

/// Configuration of the private websocket.
pub fn render_websocket_config(port: u16, password: &str) -> (r: String)
    ensures
        r@ == json_pretty(object_of(websocket_entries(port as nat, password@))),
        plain(object_of(websocket_entries(port as nat, password@)), 100) ==> json_parse(r@)
            == JsonRead::Document(object_of(websocket_entries(port as nat, password@))),
{
    let entries = vec![
        field("alerts_enabled", bool_value(false)),
        field("auth_required", bool_value(true)),
        field("first_load", bool_value(false)),
        field("server_enabled", bool_value(true)),
        field("server_port", int_value(port as u64)),
        field("server_password", text_value(password)),
        field("debug_enabled", bool_value(false)),
    ];
    proof {
        assert(json_entries(entries@) =~= websocket_entries(port as nat, password@));
    }
    pretty_json(&object(entries))
}

} // verus!
