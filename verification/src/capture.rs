//! The capture configuration that settings, overrides and the machine come down to.

use vstd::prelude::*;

use crate::api::{
    device_models, opt_encoder, opt_video, AudioDevice, CaptureConfig, ConfigModel, CustomEncoder,
    CustomEncoderModel, CustomVideo, CustomVideoModel,
};
use crate::encoder_custom::{
    canonical_payload, check_custom_video, custom_effective_fps, custom_encoder_read,
    custom_video_of, custom_video_read, effective_fps, payload, payload_model, read_custom_encoder,
    read_custom_video, read_payload, video_doc,
};
use crate::encoder_options::{
    known_encoder, lookup_encoder, resolved_table, settings_error, validate, validate_pair,
};
use crate::encoder_tables::EncoderFamily;
use crate::json::{copy_entries, Json, JsonRead};
use crate::linux::devices::{matched_device, resolve_obs_device_id};
use crate::linux::video::Monitor;
use crate::obs_files::{is_simple_uuid_text, new_simple_uuid};
use crate::profile::{clamp_u32, clamped};
use crate::settings::{
    buffer_length, buffer_seconds, custom_capture_params, custom_rate, flag_setting, ladder_fps,
    ladder_fps_of, number_setting, setting, setting_flag, setting_str, setting_u32, TextMap,
};
use crate::text::{cat, cat3, clone_opt, opt_text, parse_u64, parse_unsigned, same};

verus! {

broadcast use vstd::string::group_string_axioms;

/// What detection knows of the game that is captured.
#[derive(Debug, Clone)]
pub struct GameContext {
    pub key: String,
    pub title: String,
    /// `x11` or `portal`.
    pub source_kind: Option<String>,
    pub window_match: Option<String>,
    /// Restore token that is kept for this game.
    pub token: Option<String>,
    /// Clip length chosen for this game.
    pub duration_seconds: Option<u32>,
}

/// What a game's context stands for.
pub struct GameModel {
    pub key: Seq<char>,
    pub title: Seq<char>,
    pub source_kind: Option<Seq<char>>,
    pub window_match: Option<Seq<char>>,
    pub token: Option<Seq<char>>,
    pub duration_seconds: Option<u32>,
}

impl View for GameContext {
    type V = GameModel;

    open spec fn view(&self) -> GameModel {
        GameModel {
            key: self.key@,
            title: self.title@,
            source_kind: opt_text(self.source_kind),
            window_match: opt_text(self.window_match),
            token: opt_text(self.token),
            duration_seconds: self.duration_seconds,
        }
    }
}

/// What one start sets differently from the stored settings. It is never stored.
pub struct StartOverrides {
    pub height: Option<u32>,
    pub fps: Option<u32>,
    pub codec: Option<String>,
    pub encoder: Option<String>,
    pub bitrate_kbps: Option<u32>,
    pub duration_seconds: Option<u32>,
    pub custom_encoder: Option<CustomEncoder>,
    pub custom_video: Option<CustomVideo>,
    pub game: Option<GameContext>,
}

/// What overrides stand for.
pub struct OverridesModel {
    pub height: Option<u32>,
    pub fps: Option<u32>,
    pub codec: Option<Seq<char>>,
    pub encoder: Option<Seq<char>>,
    pub bitrate_kbps: Option<u32>,
    pub duration_seconds: Option<u32>,
    pub custom_encoder: Option<CustomEncoderModel>,
    pub custom_video: Option<CustomVideoModel>,
    pub game: Option<GameModel>,
}

/// What an optional game context stands for.
pub open spec fn opt_game(g: Option<GameContext>) -> Option<GameModel> {
    match g {
        Some(g) => Some(g@),
        None => None,
    }
}

impl View for StartOverrides {
    type V = OverridesModel;

    open spec fn view(&self) -> OverridesModel {
        OverridesModel {
            height: self.height,
            fps: self.fps,
            codec: opt_text(self.codec),
            encoder: opt_text(self.encoder),
            bitrate_kbps: self.bitrate_kbps,
            duration_seconds: self.duration_seconds,
            custom_encoder: opt_encoder(self.custom_encoder),
            custom_video: opt_video(self.custom_video),
            game: opt_game(self.game),
        }
    }
}

/// No override.
pub open spec fn no_overrides() -> OverridesModel {
    OverridesModel {
        height: None,
        fps: None,
        codec: None,
        encoder: None,
        bitrate_kbps: None,
        duration_seconds: None,
        custom_encoder: None,
        custom_video: None,
        game: None,
    }
}

impl Default for StartOverrides {
    fn default() -> (r: Self)
        ensures
            r@ == no_overrides(),
    {
        StartOverrides {
            height: None,
            fps: None,
            codec: None,
            encoder: None,
            bitrate_kbps: None,
            duration_seconds: None,
            custom_encoder: None,
            custom_video: None,
            game: None,
        }
    }
}

// ---------------------------------------------------------------------------
// Codec and encoder
// ---------------------------------------------------------------------------
/// One of the three codecs.
pub open spec fn is_codec(c: Seq<char>) -> bool {
    c == "h264"@ || c == "hevc"@ || c == "av1"@
}

/// Whether a text names one of the three codecs.
pub fn is_codec_name(c: &str) -> (r: bool)
    ensures
        r == is_codec(c@),
{
    same(c, "h264") || same(c, "hevc") || same(c, "av1")
}

/// One of the two encoder preferences.
pub open spec fn is_preference(e: Seq<char>) -> bool {
    e == "gpu"@ || e == "cpu"@
}

fn is_preference_name(e: &str) -> (r: bool)
    ensures
        r == is_preference(e@),
{
    same(e, "gpu") || same(e, "cpu")
}

/// The codec: the override, the stored one, or H.264 where neither is a codec.
/// The stored `x264` of earlier versions is H.264.
pub open spec fn chosen_codec(settings: Map<Seq<char>, Seq<char>>, o: OverridesModel) -> Seq<char> {
    let s = setting(settings, "video_codec"@, "h264"@);
    if o.codec is Some && is_codec(o.codec->0) {
        o.codec->0
    } else if is_codec(s) {
        s
    } else {
        "h264"@
    }
}

/// The encoder preference: the override, the stored one, or the GPU where
/// neither is a preference. The stored `x264` of earlier versions is the CPU.
pub open spec fn chosen_preference(settings: Map<Seq<char>, Seq<char>>, o: OverridesModel) -> Seq<
    char,
> {
    let s = if setting(settings, "video_codec"@, "h264"@) == "x264"@ {
        "cpu"@
    } else {
        setting(settings, "video_encoder"@, "gpu"@)
    };
    if o.encoder is Some && is_preference(o.encoder->0) {
        o.encoder->0
    } else if is_preference(s) {
        s
    } else {
        "gpu"@
    }
}

fn choose_codec(settings: &TextMap, o: &StartOverrides) -> (r: String)
    ensures
        r@ == chosen_codec(settings@, o@),
{
    match &o.codec {
        Some(c) => {
            if is_codec_name(c.as_str()) {
                return c.clone();
            }
        },
        None => {},
    }
    let s = setting_str(settings, "video_codec", "h264");
    if is_codec_name(s.as_str()) {
        s
    } else {
        "h264".to_owned()
    }
}

fn choose_preference(settings: &TextMap, o: &StartOverrides) -> (r: String)
    ensures
        r@ == chosen_preference(settings@, o@),
{
    match &o.encoder {
        Some(e) => {
            if is_preference_name(e.as_str()) {
                return e.clone();
            }
        },
        None => {},
    }
    let codec = setting_str(settings, "video_codec", "h264");
    let s: String = if same(codec.as_str(), "x264") {
        "cpu".to_owned()
    } else {
        setting_str(settings, "video_encoder", "gpu")
    };
    if is_preference_name(s.as_str()) {
        s
    } else {
        "gpu".to_owned()
    }
}

// ---------------------------------------------------------------------------
// Custom selections
// ---------------------------------------------------------------------------
/// The codec of a start with its custom encoder and video.
pub struct CustomChoice {
    pub codec: Seq<char>,
    pub encoder: Option<CustomEncoderModel>,
    pub video: Option<CustomVideoModel>,
}

/// The stored custom selections, where custom mode is on.
pub open spec fn payload_choice(
    custom_mode: bool,
    encoder: Option<JsonRead>,
    video: Option<JsonRead>,
    codec: Seq<char>,
) -> Result<CustomChoice, Seq<char>> {
    if !custom_mode || encoder is None {
        Ok(CustomChoice { codec, encoder: None, video: None })
    } else {
        match custom_encoder_read(encoder->0) {
            Err(e) => Err(e),
            Ok(c) => {
                let entry = known_encoder(c.encoder)->0;
                match video {
                    None => Ok(CustomChoice { codec: entry.codec, encoder: Some(c), video: None }),
                    Some(v) => match custom_video_read(entry.family, entry.codec, v) {
                        Err(e) => Err(e),
                        Ok(v) => Ok(
                            CustomChoice { codec: entry.codec, encoder: Some(c), video: Some(v) },
                        ),
                    },
                }
            },
        }
    }
}

/// The stored custom selections, given what was read of them.
pub open spec fn stored_choice(
    settings: Map<Seq<char>, Seq<char>>,
    encoder: Option<JsonRead>,
    video: Option<JsonRead>,
    codec: Seq<char>,
) -> Result<CustomChoice, Seq<char>> {
    payload_choice(setting(settings, "video_mode"@, "ladder"@) == "custom"@, encoder, video, codec)
}

/// The custom encoder of the overrides, checked, in place of the stored one.
pub open spec fn override_encoder(choice: CustomChoice, o: OverridesModel) -> Result<
    CustomChoice,
    Seq<char>,
> {
    match o.custom_encoder {
        None => Ok(choice),
        Some(c) => match known_encoder(c.encoder) {
            None => Err("unknown encoder '"@ + c.encoder + "'"@),
            Some(entry) => match settings_error(
                resolved_table(entry.family, entry.codec),
                entry.codec,
                c.settings,
                None,
            ) {
                Some(e) => Err(e),
                None => Ok(CustomChoice { codec: entry.codec, encoder: Some(c), ..choice }),
            },
        },
    }
}

/// The family and codec that custom video settings are checked for: those of
/// the custom encoder, or NVENC's without one.
pub open spec fn video_target(choice: CustomChoice) -> (EncoderFamily, Seq<char>) {
    let entry = match choice.encoder {
        Some(c) => known_encoder(c.encoder),
        None => None,
    };
    match entry {
        Some(e) => (e.family, e.codec),
        None => (EncoderFamily::Nvenc, choice.codec),
    }
}

/// The custom video settings of the overrides, checked, in place of the stored ones.
pub open spec fn override_video(choice: CustomChoice, o: OverridesModel) -> Result<
    CustomChoice,
    Seq<char>,
> {
    match o.custom_video {
        None => Ok(choice),
        Some(v) => {
            let (family, codec) = video_target(choice);
            match custom_video_of(family, codec, video_doc(v)) {
                Err(e) => Err(e),
                Ok(v) => Ok(CustomChoice { video: Some(v), ..choice }),
            }
        },
    }
}

/// What is wrong with the chosen encoder and video together.
pub open spec fn choice_error(choice: CustomChoice) -> Option<Seq<char>> {
    match choice.encoder {
        None => None,
        Some(c) => match known_encoder(c.encoder) {
            None => None,
            Some(entry) => settings_error(
                resolved_table(entry.family, entry.codec),
                entry.codec,
                c.settings,
                match choice.video {
                    Some(v) => Some(v.color_format),
                    None => None,
                },
            ),
        },
    }
}

/// The custom selections of a start, or the first thing that is wrong with
/// them, given what was read of the stored ones.
pub open spec fn choice_with(
    settings: Map<Seq<char>, Seq<char>>,
    o: OverridesModel,
    encoder: Option<JsonRead>,
    video: Option<JsonRead>,
) -> Result<CustomChoice, Seq<char>> {
    match stored_choice(settings, encoder, video, chosen_codec(settings, o)) {
        Err(e) => Err(e),
        Ok(a) => match override_encoder(a, o) {
            Err(e) => Err(e),
            Ok(b) => match override_video(b, o) {
                Err(e) => Err(e),
                Ok(c) => match choice_error(c) {
                    Some(e) => Err(e),
                    None => Ok(c),
                },
            },
        },
    }
}

/// What reading a stored custom payload gives.
pub open spec fn stored_payload(settings: Map<Seq<char>, Seq<char>>, key: Seq<char>) -> Option<
    JsonRead,
> {
    payload(setting(settings, key, ""@))
}

/// The custom selections of a start, or the first thing that is wrong with them.
pub open spec fn custom_choice(settings: Map<Seq<char>, Seq<char>>, o: OverridesModel) -> Result<
    CustomChoice,
    Seq<char>,
> {
    choice_with(
        settings,
        o,
        stored_payload(settings, "custom_encoder_json"@),
        stored_payload(settings, "custom_video_json"@),
    )
}

/// The codec of a start with its custom encoder and video.
struct Choice {
    codec: String,
    encoder: Option<CustomEncoder>,
    video: Option<CustomVideo>,
}

impl Choice {
    spec fn model(&self) -> CustomChoice {
        CustomChoice {
            codec: self.codec@,
            encoder: opt_encoder(self.encoder),
            video: opt_video(self.video),
        }
    }
}

spec fn choice_outcome(r: Result<Choice, String>) -> Result<CustomChoice, Seq<char>> {
    match r {
        Ok(c) => Ok(c.model()),
        Err(e) => Err(e@),
    }
}

fn read_stored_choice(
    settings: &TextMap,
    encoder: &Option<Result<Json, String>>,
    video: &Option<Result<Json, String>>,
    codec: String,
) -> (r: Result<Choice, String>)
    requires
        canonical_payload(*encoder),
    ensures
        choice_outcome(r) == stored_choice(
            settings@,
            payload_model(*encoder),
            payload_model(*video),
            codec@,
        ),
{
    let mode = setting_str(settings, "video_mode", "ladder");
    let read = match encoder {
        Some(read) => read,
        None => {
            return Ok(Choice { codec, encoder: None, video: None });
        },
    };
    if !same(mode.as_str(), "custom") {
        return Ok(Choice { codec, encoder: None, video: None });
    }
    let custom = match read_custom_encoder(read) {
        Ok(c) => c,
        Err(e) => {
            return Err(e);
        },
    };
    let entry = match lookup_encoder(custom.encoder.as_str()) {
        Some(e) => e,
        None => {
            return Err(cat3("unknown encoder '", custom.encoder.as_str(), "'"));
        },
    };
    match video {
        None => Ok(Choice { codec: entry.codec.to_owned(), encoder: Some(custom), video: None }),
        Some(v) => match read_custom_video(entry.family, entry.codec, v) {
            Ok(v) => Ok(
                Choice { codec: entry.codec.to_owned(), encoder: Some(custom), video: Some(v) },
            ),
            Err(e) => Err(e),
        },
    }
}

fn apply_encoder(choice: Choice, o: &StartOverrides) -> (r: Result<Choice, String>)
    ensures
        choice_outcome(r) == override_encoder(choice.model(), o@),
{
    match &o.custom_encoder {
        None => Ok(choice),
        Some(c) => {
            let entry = match lookup_encoder(c.encoder.as_str()) {
                Some(e) => e,
                None => {
                    return Err(cat3("unknown encoder '", c.encoder.as_str(), "'"));
                },
            };
            match validate(entry.family, entry.codec, &c.settings) {
                Err(e) => Err(e),
                Ok(_) => {
                    let copied = CustomEncoder {
                        encoder: c.encoder.clone(),
                        settings: copy_entries(&c.settings),
                    };
                    Ok(
                        Choice {
                            codec: entry.codec.to_owned(),
                            encoder: Some(copied),
                            video: choice.video,
                        },
                    )
                },
            }
        },
    }
}

fn apply_video(choice: Choice, o: &StartOverrides) -> (r: Result<Choice, String>)
    ensures
        choice_outcome(r) == override_video(choice.model(), o@),
{
    match &o.custom_video {
        None => Ok(choice),
        Some(v) => {
            let entry = match &choice.encoder {
                Some(c) => lookup_encoder(c.encoder.as_str()),
                None => None,
            };
            let checked = match entry {
                Some(e) => check_custom_video(e.family, e.codec, v),
                None => check_custom_video(EncoderFamily::Nvenc, choice.codec.as_str(), v),
            };
            match checked {
                Ok(v) => Ok(Choice { codec: choice.codec, encoder: choice.encoder, video: Some(v) }),
                Err(e) => Err(e),
            }
        },
    }
}

fn gate_choice(choice: &Choice) -> (r: Option<String>)
    ensures
        opt_text(r) == choice_error(choice.model()),
{
    match &choice.encoder {
        None => None,
        Some(c) => match lookup_encoder(c.encoder.as_str()) {
            None => None,
            Some(entry) => {
                let color = match &choice.video {
                    Some(v) => Some(v.color_format.as_str()),
                    None => None,
                };
                match validate_pair(entry.family, entry.codec, &c.settings, color) {
                    Ok(_) => None,
                    Err(e) => Some(e),
                }
            },
        },
    }
}

fn choose_custom(
    settings: &TextMap,
    o: &StartOverrides,
    encoder: &Option<Result<Json, String>>,
    video: &Option<Result<Json, String>>,
) -> (r: Result<Choice, String>)
    requires
        canonical_payload(*encoder),
    ensures
        choice_outcome(r) == choice_with(
            settings@,
            o@,
            payload_model(*encoder),
            payload_model(*video),
        ),
{
    let a = match read_stored_choice(settings, encoder, video, choose_codec(settings, o)) {
        Ok(c) => c,
        Err(e) => {
            return Err(e);
        },
    };
    let b = match apply_encoder(a, o) {
        Ok(c) => c,
        Err(e) => {
            return Err(e);
        },
    };
    let c = match apply_video(b, o) {
        Ok(c) => c,
        Err(e) => {
            return Err(e);
        },
    };
    match gate_choice(&c) {
        Some(e) => Err(e),
        None => Ok(c),
    }
}

// ---------------------------------------------------------------------------
// Plan
// ---------------------------------------------------------------------------
/// What is settled before the ladder is asked for a bitrate.
pub struct CapturePlan {
    pub codec: String,
    pub encoder: String,
    pub custom_encoder: Option<CustomEncoder>,
    pub custom_video: Option<CustomVideo>,
    pub monitor: String,
    pub base_width: u32,
    pub base_height: u32,
    /// 0: that of the source.
    pub out_height: u32,
    /// Height that the ladder is asked for.
    pub ladder_height: u32,
}

/// What a plan stands for.
pub struct PlanModel {
    pub codec: Seq<char>,
    pub encoder: Seq<char>,
    pub custom_encoder: Option<CustomEncoderModel>,
    pub custom_video: Option<CustomVideoModel>,
    pub monitor: Seq<char>,
    pub base_width: nat,
    pub base_height: nat,
    pub out_height: nat,
    pub ladder_height: int,
}

impl View for CapturePlan {
    type V = PlanModel;

    open spec fn view(&self) -> PlanModel {
        PlanModel {
            codec: self.codec@,
            encoder: self.encoder@,
            custom_encoder: opt_encoder(self.custom_encoder),
            custom_video: opt_video(self.custom_video),
            monitor: self.monitor@,
            base_width: self.base_width as nat,
            base_height: self.base_height as nat,
            out_height: self.out_height as nat,
            ladder_height: self.ladder_height as int,
        }
    }
}

/// The output height: the override or the stored one. 0, that of the source,
/// where it is not below the base.
pub open spec fn chosen_height(
    settings: Map<Seq<char>, Seq<char>>,
    o: OverridesModel,
    base_height: nat,
) -> nat {
    let h = match o.height {
        Some(h) => h as nat,
        None => number_setting(settings, "out_height"@, "0"@, 0),
    };
    if h >= base_height {
        0
    } else {
        h
    }
}

/// The plan of a start, or the first thing that stands in its way, given what
/// was read of the stored custom payloads. Without a monitor the base is 1920x1080.
pub open spec fn plan_with_of(
    settings: Map<Seq<char>, Seq<char>>,
    o: OverridesModel,
    monitor: Option<&Monitor>,
    encoder: Option<JsonRead>,
    video: Option<JsonRead>,
) -> Result<PlanModel, Seq<char>> {
    match choice_with(settings, o, encoder, video) {
        Err(e) => Err(e),
        Ok(choice) => {
            let base_width = match monitor {
                Some(m) => m.width as nat,
                None => 1920,
            };
            let base_height = match monitor {
                Some(m) => m.height as nat,
                None => 1080,
            };
            let out_height = chosen_height(settings, o, base_height);
            Ok(
                PlanModel {
                    codec: choice.codec,
                    encoder: chosen_preference(settings, o),
                    custom_encoder: choice.encoder,
                    custom_video: choice.video,
                    monitor: match monitor {
                        Some(m) => m.name@,
                        None => Seq::empty(),
                    },
                    base_width,
                    base_height,
                    out_height,
                    ladder_height: if out_height != 0 {
                        out_height as int
                    } else {
                        match choice.video {
                            Some(v) => v.out_height,
                            None => base_height as int,
                        }
                    },
                },
            )
        },
    }
}

/// The plan of a start, or the first thing that stands in its way.
pub open spec fn plan_of(
    settings: Map<Seq<char>, Seq<char>>,
    o: OverridesModel,
    monitor: Option<&Monitor>,
) -> Result<PlanModel, Seq<char>> {
    plan_with_of(
        settings,
        o,
        monitor,
        stored_payload(settings, "custom_encoder_json"@),
        stored_payload(settings, "custom_video_json"@),
    )
}

/// What the outcome of planning stands for.
pub open spec fn plan_outcome(r: Result<CapturePlan, String>) -> Result<PlanModel, Seq<char>> {
    match r {
        Ok(p) => Ok(p@),
        Err(e) => Err(e@),
    }
}

/// Settles codec, encoder, custom selections and sizes of a start.
pub fn plan_capture(settings: &TextMap, o: &StartOverrides, monitor: Option<&Monitor>) -> (r: Result<
    CapturePlan,
    String,
>)
    ensures
        plan_outcome(r) == plan_of(settings@, o@, monitor),
{
    let encoder_raw = setting_str(settings, "custom_encoder_json", "");
    let video_raw = setting_str(settings, "custom_video_json", "");
    let encoder = read_payload(encoder_raw.as_str());
    let video = read_payload(video_raw.as_str());
    plan_with(settings, o, monitor, &encoder, &video)
}

/// Settles a start, given what was read of the stored custom payloads.
pub fn plan_with(
    settings: &TextMap,
    o: &StartOverrides,
    monitor: Option<&Monitor>,
    custom_encoder: &Option<Result<Json, String>>,
    custom_video: &Option<Result<Json, String>>,
) -> (r: Result<CapturePlan, String>)
    requires
        canonical_payload(*custom_encoder),
    ensures
        plan_outcome(r) == plan_with_of(
            settings@,
            o@,
            monitor,
            payload_model(*custom_encoder),
            payload_model(*custom_video),
        ),
{
    let choice = match choose_custom(settings, o, custom_encoder, custom_video) {
        Ok(c) => c,
        Err(e) => {
            return Err(e);
        },
    };
    let encoder = choose_preference(settings, o);
    let base_width: u32 = match monitor {
        Some(m) => m.width,
        None => 1920,
    };
    let base_height: u32 = match monitor {
        Some(m) => m.height,
        None => 1080,
    };
    let name: String = match monitor {
        Some(m) => m.name.clone(),
        None => String::new(),
    };
    let wanted: u32 = match o.height {
        Some(h) => h,
        None => setting_u32(settings, "out_height", "0", 0),
    };
    let out_height: u32 = if wanted >= base_height {
        0
    } else {
        wanted
    };
    let ladder_height: u32 = if out_height != 0 {
        out_height
    } else {
        match &choice.video {
            Some(v) => v.out_height,
            None => base_height,
        }
    };
    let plan = CapturePlan {
        codec: choice.codec,
        encoder,
        custom_encoder: choice.encoder,
        custom_video: choice.video,
        monitor: name,
        base_width,
        base_height,
        out_height,
        ladder_height,
    };
    proof {
        assert(plan@.monitor =~= (match monitor {
            Some(m) => m.name@,
            None => Seq::empty(),
        }));
    }
    Ok(plan)
}

// ---------------------------------------------------------------------------
// Password
// ---------------------------------------------------------------------------
/// The stored websocket password is long enough to be kept: 16 bytes.
pub open spec fn keeps_password(stored: Seq<char>) -> bool {
    vstd::utf8::encode_utf8(stored).len() >= 16
}

/// The websocket password, and whether it is a new one that is to be stored.
pub struct PasswordChoice {
    pub password: String,
    pub fresh: bool,
}

/// Takes the stored password where it is long enough, and the two random parts otherwise.
pub fn choose_password(stored: &str, part1: &str, part2: &str) -> (r: PasswordChoice)
    ensures
        r.fresh == !keeps_password(stored@),
        r.password@ == if keeps_password(stored@) {
            stored@
        } else {
            part1@ + part2@
        },
{
    let bytes = stored.as_bytes();
    if bytes.len() < 16 {
        PasswordChoice { password: cat(part1, part2), fresh: true }
    } else {
        PasswordChoice { password: stored.to_owned(), fresh: false }
    }
}

/// The websocket password of the settings, or a new random one of 64
/// hexadecimal digits.
pub fn websocket_password(settings: &TextMap) -> (r: PasswordChoice)
    ensures
        ({
            let stored = setting(settings@, "engine_ws_password"@, ""@);
            &&& r.fresh == !keeps_password(stored)
            &&& !r.fresh ==> r.password@ == stored
            &&& r.fresh ==> exists|a: Seq<char>, b: Seq<char>|
                #![trigger is_simple_uuid_text(a), is_simple_uuid_text(b)]
                is_simple_uuid_text(a) && is_simple_uuid_text(b) && r.password@ == a + b
        }),
{
    let stored = setting_str(settings, "engine_ws_password", "");
    let a = new_simple_uuid();
    let b = new_simple_uuid();
    let r = choose_password(stored.as_str(), a.as_str(), b.as_str());
    proof {
        if r.fresh {
            assert(is_simple_uuid_text(a@) && is_simple_uuid_text(b@) && r.password@ == a@ + b@);
        }
    }
    r
}

// ---------------------------------------------------------------------------
// Configuration
// ---------------------------------------------------------------------------
/// What the machine adds to a start.
pub struct CaptureEnv {
    pub output_dir: String,
    pub devices: Result<Vec<AudioDevice>, String>,
    pub vendor: String,
    pub obs_bin: String,
    pub websocket_password: String,
}

/// The clip length: the override, the game's, or the stored one in 32 bits.
pub open spec fn chosen_duration(settings: Map<Seq<char>, Seq<char>>, o: OverridesModel) -> nat {
    if o.duration_seconds is Some {
        o.duration_seconds->0 as nat
    } else if o.game is Some && o.game->0.duration_seconds is Some {
        o.game->0.duration_seconds->0 as nat
    } else {
        (buffer_length(settings) % 0x1_0000_0000) as nat
    }
}

/// The frame rate and bitrate of a start.
pub struct ChosenRate {
    pub fps: nat,
    pub bitrate_kbps: nat,
}

/// The frame rate and bitrate: the overrides, the custom video's frame rate,
/// those of custom mode, or the ladder's.
pub open spec fn chosen_rate(
    settings: Map<Seq<char>, Seq<char>>,
    o: OverridesModel,
    video: Option<CustomVideoModel>,
    ladder_kbps: nat,
) -> ChosenRate {
    let base = custom_rate(
        setting(settings, "video_mode"@, "ladder"@),
        setting(settings, "custom_fps"@, ""@),
        setting(settings, "custom_bitrate_kbps"@, ""@),
        ladder_fps_of(number_setting(settings, "fps"@, "60"@, 60)) as int,
        ladder_kbps as int,
    );
    ChosenRate {
        fps: match o.fps {
            Some(f) => f as nat,
            None => match video {
                Some(v) => effective_fps(v) as nat,
                None => base.fps as nat,
            },
        },
        bitrate_kbps: match o.bitrate_kbps {
            Some(b) => b as nat,
            None => base.bitrate_kbps as nat,
        },
    }
}

/// The window that is captured: the game itself where it has only a portal
/// session, or the stored one.
pub open spec fn chosen_window(settings: Map<Seq<char>, Seq<char>>, o: OverridesModel) -> Seq<char> {
    match o.game {
        Some(g) => if g.window_match is None && g.source_kind == Some("portal"@) {
            g.key
        } else {
            setting(settings, "capture_window"@, ""@)
        },
        None => setting(settings, "capture_window"@, ""@),
    }
}

/// The restore token: the game's own, or the stored one.
pub open spec fn chosen_token(settings: Map<Seq<char>, Seq<char>>, o: OverridesModel) -> Seq<char> {
    let own = match o.game {
        Some(g) => g.token,
        None => None,
    };
    match own {
        Some(t) => if t.len() > 0 {
            t
        } else {
            setting(settings, "engine_restore_token"@, ""@)
        },
        None => setting(settings, "engine_restore_token"@, ""@),
    }
}

/// The port of the private websocket.
pub open spec fn chosen_port(settings: Map<Seq<char>, Seq<char>>) -> nat {
    let n = match parse_unsigned(setting(settings, "engine_ws_port"@, "4456"@), 65535) {
        Some(n) => n,
        None => 4456,
    };
    if n < 1024 {
        1024
    } else {
        n
    }
}

/// The device that a stored one resolves to.
pub open spec fn chosen_device(
    stored: Seq<char>,
    devices: Result<Vec<AudioDevice>, String>,
    render: bool,
) -> Seq<char> {
    match devices {
        Ok(list) => matched_device(stored, device_models(list@), render),
        Err(_) => "default"@,
    }
}

/// The capture configuration of a plan.
pub open spec fn config_of(
    plan: PlanModel,
    settings: Map<Seq<char>, Seq<char>>,
    o: OverridesModel,
    ladder_kbps: nat,
    env: CaptureEnv,
) -> ConfigModel {
    let rate = chosen_rate(settings, o, plan.custom_video, ladder_kbps);
    ConfigModel {
        duration_seconds: chosen_duration(settings, o),
        fps: rate.fps,
        output_dir: env.output_dir@,
        codec: plan.codec,
        encoder: plan.encoder,
        gpu_index: number_setting(settings, "gpu_index"@, "0"@, 0),
        bitrate_kbps: rate.bitrate_kbps,
        out_height: plan.out_height,
        monitor: plan.monitor,
        window: chosen_window(settings, o),
        window_match: match o.game {
            Some(g) => g.window_match,
            None => None,
        },
        desktop_device: chosen_device(
            setting(settings, "desktop_device"@, "default_output"@),
            env.devices,
            true,
        ),
        mic_device: chosen_device(
            setting(settings, "mic_device"@, "default_input"@),
            env.devices,
            false,
        ),
        gain_game: clamped(number_setting(settings, "gain_game"@, "100"@, 100) as int, 0, 200) as nat,
        gain_mic: clamped(number_setting(settings, "gain_mic"@, "100"@, 100) as int, 0, 200) as nat,
        mute_game: flag_setting(settings, "mute_game"@),
        mute_mic: flag_setting(settings, "mute_mic"@),
        audio_single_track: flag_setting(settings, "audio_single_track"@),
        container: if setting(settings, "container"@, "mp4"@) == "mkv"@ {
            "mkv"@
        } else {
            "mp4"@
        },
        vendor: env.vendor@,
        base_width: plan.base_width,
        base_height: plan.base_height,
        portal_restore_token: chosen_token(settings, o),
        custom_encoder: plan.custom_encoder,
        custom_video: plan.custom_video,
        obs_bin: Some(env.obs_bin@),
        websocket_port: chosen_port(settings),
        websocket_password: env.websocket_password@,
    }
}

fn choose_duration(settings: &TextMap, o: &StartOverrides) -> (r: u32)
    ensures
        r == chosen_duration(settings@, o@),
{
    match o.duration_seconds {
        Some(d) => {
            return d;
        },
        None => {},
    }
    match &o.game {
        Some(g) => match g.duration_seconds {
            Some(d) => {
                return d;
            },
            None => {},
        },
        None => {},
    }
    let n: i64 = buffer_seconds(settings);
    (n as u64 % 0x1_0000_0000) as u32
}

fn choose_rate(
    settings: &TextMap,
    o: &StartOverrides,
    video: &Option<CustomVideo>,
    ladder_kbps: u32,
) -> (r: (u32, u32))
    ensures
        (ChosenRate { fps: r.0 as nat, bitrate_kbps: r.1 as nat }) == chosen_rate(
            settings@,
            o@,
            opt_video(*video),
            ladder_kbps as nat,
        ),
{
    let mode = setting_str(settings, "video_mode", "ladder");
    let custom_fps = setting_str(settings, "custom_fps", "");
    let custom_kbps = setting_str(settings, "custom_bitrate_kbps", "");
    let (base_fps, base_kbps, _refused) = custom_capture_params(
        mode.as_str(),
        custom_fps.as_str(),
        custom_kbps.as_str(),
        ladder_fps(settings),
        ladder_kbps,
    );
    let fps: u32 = match o.fps {
        Some(f) => f,
        None => match video {
            Some(v) => custom_effective_fps(v),
            None => base_fps,
        },
    };
    let kbps: u32 = match o.bitrate_kbps {
        Some(b) => b,
        None => base_kbps,
    };
    (fps, kbps)
}

fn choose_window(settings: &TextMap, o: &StartOverrides) -> (r: String)
    ensures
        r@ == chosen_window(settings@, o@),
{
    match &o.game {
        Some(g) => {
            let portal = match &g.source_kind {
                Some(k) => same(k.as_str(), "portal"),
                None => false,
            };
            if g.window_match.is_none() && portal {
                return g.key.clone();
            }
        },
        None => {},
    }
    setting_str(settings, "capture_window", "")
}

fn choose_token(settings: &TextMap, o: &StartOverrides) -> (r: String)
    ensures
        r@ == chosen_token(settings@, o@),
{
    match &o.game {
        Some(g) => match &g.token {
            Some(t) => {
                if !t.as_str().is_empty() {
                    return t.clone();
                }
            },
            None => {},
        },
        None => {},
    }
    setting_str(settings, "engine_restore_token", "")
}

fn choose_port(settings: &TextMap) -> (r: u16)
    ensures
        r == chosen_port(settings@),
{
    let s = setting_str(settings, "engine_ws_port", "4456");
    let n: u64 = match parse_u64(s.as_str(), 65535) {
        Some(n) => n,
        None => 4456,
    };
    if n < 1024 {
        1024
    } else {
        n as u16
    }
}

fn choose_gain(settings: &TextMap, key: &str) -> (r: u32)
    ensures
        r == clamped(number_setting(settings@, key@, "100"@, 100) as int, 0, 200),
{
    clamp_u32(setting_u32(settings, key, "100", 100), 0, 200)
}

/// The capture configuration of a plan, with the bitrate that the ladder has
/// for the plan's height and codec, and with what the machine adds.
pub fn build_capture_config(
    plan: CapturePlan,
    settings: &TextMap,
    o: &StartOverrides,
    ladder_kbps: u32,
    env: &CaptureEnv,
) -> (r: CaptureConfig)
    ensures
        r@ == config_of(plan@, settings@, o@, ladder_kbps as nat, *env),
{
    let (fps, bitrate_kbps) = choose_rate(settings, o, &plan.custom_video, ladder_kbps);
    let desktop = setting_str(settings, "desktop_device", "default_output");
    let mic = setting_str(settings, "mic_device", "default_input");
    let wanted_container = setting_str(settings, "container", "mp4");
    let container = if same(wanted_container.as_str(), "mkv") {
        "mkv"
    } else {
        "mp4"
    };
    let window_match: Option<String> = match &o.game {
        Some(g) => clone_opt(&g.window_match),
        None => None,
    };
    CaptureConfig {
        duration_seconds: choose_duration(settings, o),
        fps,
        output_dir: env.output_dir.clone(),
        codec: plan.codec,
        encoder: plan.encoder,
        gpu_index: setting_u32(settings, "gpu_index", "0", 0),
        bitrate_kbps,
        out_height: plan.out_height,
        monitor: plan.monitor,
        window: choose_window(settings, o),
        window_match,
        desktop_device: resolve_obs_device_id(desktop.as_str(), &env.devices, true),
        mic_device: resolve_obs_device_id(mic.as_str(), &env.devices, false),
        gain_game: choose_gain(settings, "gain_game"),
        gain_mic: choose_gain(settings, "gain_mic"),
        mute_game: setting_flag(settings, "mute_game"),
        mute_mic: setting_flag(settings, "mute_mic"),
        audio_single_track: setting_flag(settings, "audio_single_track"),
        container: container.to_owned(),
        vendor: env.vendor.clone(),
        base_width: plan.base_width,
        base_height: plan.base_height,
        portal_restore_token: choose_token(settings, o),
        custom_encoder: plan.custom_encoder,
        custom_video: plan.custom_video,
        obs_bin: Some(env.obs_bin.clone()),
        websocket_port: choose_port(settings),
        websocket_password: env.websocket_password.clone(),
    }
}

} // verus!
