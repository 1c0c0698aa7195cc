//! Stored settings: reading them with their defaults, checking a change before
//! it is written, and taking it back where the recorder cannot run with it.

use vstd::hash_map::StringHashMap;
use vstd::prelude::*;

use crate::encoder_custom::{
    canonical_payload, custom_encoder_read, custom_video_read, payload, payload_model,
    read_custom_encoder, read_custom_video, read_payload,
};
use crate::encoder_options::{
    known_encoder, lookup_encoder, resolved_table, settings_error, validate_pair,
};
use crate::json::{Json, JsonRead};
use crate::text::{
    cat3, parse_i64, parse_signed, parse_u32, parse_unsigned, same, texts, trim, trimmed,
};

verus! {

broadcast use vstd::string::group_string_axioms;

// ---------------------------------------------------------------------------
// Texts by name
// ---------------------------------------------------------------------------
/// A map from texts to texts.
pub struct TextMap {
    map: StringHashMap<String>,
}

impl View for TextMap {
    type V = Map<Seq<char>, Seq<char>>;

    closed spec fn view(&self) -> Map<Seq<char>, Seq<char>> {
        self.map@.map_values(|s: String| s@)
    }
}

impl TextMap {
    /// The empty map.
    pub fn new() -> (r: Self)
        ensures
            r@ == Map::<Seq<char>, Seq<char>>::empty(),
    {
        let r = TextMap { map: StringHashMap::new() };
        proof {
            assert(r@ =~= Map::<Seq<char>, Seq<char>>::empty());
        }
        r
    }

    /// Puts a value under a key, in place of the one that was there.
    pub fn insert(&mut self, key: String, value: String)
        ensures
            final(self)@ == old(self)@.insert(key@, value@),
    {
        let ghost before = self@;
        let ghost k = key@;
        let ghost v = value@;
        self.map.insert(key, value);
        proof {
            assert(self@ =~= before.insert(k, v));
        }
    }

    /// The value under a key.
    pub fn get(&self, key: &str) -> (r: Option<&String>)
        ensures
            match r {
                Some(v) => self@.contains_key(key@) && self@[key@] == v@,
                None => !self@.contains_key(key@),
            },
    {
        self.map.get(key)
    }
}

/// The value under a key, where there is one.
pub open spec fn stored(settings: Map<Seq<char>, Seq<char>>, key: Seq<char>) -> Option<Seq<char>> {
    if settings.contains_key(key) {
        Some(settings[key])
    } else {
        None
    }
}

// ---------------------------------------------------------------------------
// Reading
// ---------------------------------------------------------------------------
/// The setting under a key: the stored text, or the default where none or only
/// white space is stored.
pub open spec fn setting(
    settings: Map<Seq<char>, Seq<char>>,
    key: Seq<char>,
    default: Seq<char>,
) -> Seq<char> {
    match stored(settings, key) {
        Some(v) => if trim(v).len() > 0 {
            v
        } else {
            default
        },
        None => default,
    }
}

/// Setting under a key, or its default.
pub fn setting_str(settings: &TextMap, key: &str, default: &str) -> (r: String)
    ensures
        r@ == setting(settings@, key@, default@),
{
    match settings.get(key) {
        Some(v) => {
            if trimmed(v.as_str()).as_str().is_empty() {
                default.to_owned()
            } else {
                v.clone()
            }
        },
        None => default.to_owned(),
    }
}

/// The length of the replay buffer: the stored number, or 30, and at least 5.
pub open spec fn buffer_length(settings: Map<Seq<char>, Seq<char>>) -> int {
    let n = match stored(settings, "buffer_seconds"@) {
        Some(v) => match parse_signed(v) {
            Some(n) => n,
            None => 30,
        },
        None => 30,
    };
    if n < 5 {
        5
    } else {
        n
    }
}

/// Length of the replay buffer in seconds.
pub fn buffer_seconds(settings: &TextMap) -> (r: i64)
    ensures
        r == buffer_length(settings@),
{
    let n: i64 = match settings.get("buffer_seconds") {
        Some(v) => match parse_i64(v.as_str()) {
            Some(n) => n,
            None => 30,
        },
        None => 30,
    };
    if n < 5 {
        5
    } else {
        n
    }
}

/// The number that a setting writes, or its default.
pub open spec fn number_setting(
    settings: Map<Seq<char>, Seq<char>>,
    key: Seq<char>,
    default_text: Seq<char>,
    default: nat,
) -> nat {
    match parse_unsigned(setting(settings, key, default_text), u32::MAX as nat) {
        Some(n) => n,
        None => default,
    }
}

/// Number that a setting writes, or its default.
pub fn setting_u32(settings: &TextMap, key: &str, default_text: &str, default: u32) -> (r: u32)
    ensures
        r == number_setting(settings@, key@, default_text@, default as nat),
{
    let s = setting_str(settings, key, default_text);
    match parse_u32(s.as_str()) {
        Some(n) => n,
        None => default,
    }
}

/// A setting that is on.
pub open spec fn flag_setting(settings: Map<Seq<char>, Seq<char>>, key: Seq<char>) -> bool {
    let s = setting(settings, key, "0"@);
    s == "1"@ || s == "true"@
}

/// Whether a setting is on.
pub fn setting_flag(settings: &TextMap, key: &str) -> (r: bool)
    ensures
        r == flag_setting(settings@, key@),
{
    let s = setting_str(settings, key, "0");
    same(s.as_str(), "1") || same(s.as_str(), "true")
}

// ---------------------------------------------------------------------------
// Custom frame rate and bitrate
// ---------------------------------------------------------------------------
/// The frame rates to choose from in custom mode.
pub open spec fn is_custom_fps(v: nat) -> bool {
    v == 24 || v == 30 || v == 60 || v == 120 || v == 144
}

/// Frame rate and bitrate to capture with, and whether the wanted frame rate
/// was not one of those to choose from.
pub struct CaptureRate {
    pub fps: int,
    pub bitrate_kbps: int,
    pub refused_fps: bool,
}

/// The frame rate and bitrate of custom mode. The ladder's stand outside that
/// mode, and in place of a value that cannot be used.
pub open spec fn custom_rate(
    mode: Seq<char>,
    custom_fps: Seq<char>,
    custom_kbps: Seq<char>,
    ladder_fps: int,
    ladder_kbps: int,
) -> CaptureRate {
    if trim(mode) != "custom"@ {
        CaptureRate { fps: ladder_fps, bitrate_kbps: ladder_kbps, refused_fps: false }
    } else {
        let wanted = parse_unsigned(trim(custom_fps), u32::MAX as nat);
        let kbps = parse_unsigned(trim(custom_kbps), u32::MAX as nat);
        CaptureRate {
            fps: match wanted {
                Some(v) => if is_custom_fps(v) {
                    v as int
                } else {
                    ladder_fps
                },
                None => ladder_fps,
            },
            bitrate_kbps: match kbps {
                Some(v) => if 3_000 <= v <= 100_000 {
                    v as int
                } else {
                    ladder_kbps
                },
                None => ladder_kbps,
            },
            refused_fps: wanted is Some && !is_custom_fps(wanted->0),
        }
    }
}

/// Frame rate, bitrate, and whether the wanted frame rate was refused.
pub fn custom_capture_params(
    mode: &str,
    custom_fps: &str,
    custom_kbps: &str,
    ladder_fps: u32,
    ladder_kbps: u32,
) -> (r: (u32, u32, bool))
    ensures
        (CaptureRate { fps: r.0 as int, bitrate_kbps: r.1 as int, refused_fps: r.2 })
            == custom_rate(
            mode@,
            custom_fps@,
            custom_kbps@,
            ladder_fps as int,
            ladder_kbps as int,
        ),
{
    let m = trimmed(mode);
    if !same(m.as_str(), "custom") {
        return (ladder_fps, ladder_kbps, false);
    }
    let f = trimmed(custom_fps);
    let k = trimmed(custom_kbps);
    let mut fps: u32 = ladder_fps;
    let mut refused = false;
    match parse_u32(f.as_str()) {
        Some(v) => {
            if v == 24 || v == 30 || v == 60 || v == 120 || v == 144 {
                fps = v;
            } else {
                refused = true;
            }
        },
        None => {},
    }
    let mut bitrate: u32 = ladder_kbps;
    match parse_u32(k.as_str()) {
        Some(v) => {
            if 3_000 <= v && v <= 100_000 {
                bitrate = v;
            }
        },
        None => {},
    }
    (fps, bitrate, refused)
}

/// The frame rate of the ladder that a setting names.
pub open spec fn ladder_fps_of(n: nat) -> nat {
    if n == 30 || n == 120 || n == 144 || n == 24 {
        n
    } else {
        60
    }
}

/// Frame rate of the ladder.
pub fn ladder_fps(settings: &TextMap) -> (r: u32)
    ensures
        r == ladder_fps_of(number_setting(settings@, "fps"@, "60"@, 60)),
{
    let n: u32 = setting_u32(settings, "fps", "60", 60);
    if n == 30 || n == 120 || n == 144 || n == 24 {
        n
    } else {
        60
    }
}

// ---------------------------------------------------------------------------
// Checking custom selections
// ---------------------------------------------------------------------------
/// The value that a change proposes for a key, or else the stored one.
pub open spec fn proposed_or_stored(
    proposed: Map<Seq<char>, Seq<char>>,
    settings: Map<Seq<char>, Seq<char>>,
    key: Seq<char>,
) -> Seq<char> {
    if proposed.contains_key(key) {
        proposed[key]
    } else if settings.contains_key(key) {
        settings[key]
    } else {
        Seq::empty()
    }
}

/// What is wrong with a custom encoder and video that were read. Video settings
/// need a custom encoder, and the encoder's 10-bit profiles need the video's
/// 10-bit color format.
pub open spec fn payload_error(encoder: Option<JsonRead>, video: Option<JsonRead>) -> Option<
    Seq<char>,
> {
    match encoder {
        None => if video is Some {
            Some("custom video needs a custom encoder first"@)
        } else {
            None
        },
        Some(read) => match custom_encoder_read(read) {
            Err(e) => Some(e),
            Ok(c) => match video {
                None => None,
                Some(v) => {
                    let entry = known_encoder(c.encoder)->0;
                    match custom_video_read(entry.family, entry.codec, v) {
                        Err(e) => Some(e),
                        Ok(v) => settings_error(
                            resolved_table(entry.family, entry.codec),
                            entry.codec,
                            c.settings,
                            Some(v.color_format),
                        ),
                    }
                },
            },
        },
    }
}

/// What is wrong with the stored texts of a custom encoder and video. A blank
/// text stands for nothing.
pub open spec fn pair_error(encoder_raw: Seq<char>, video_raw: Seq<char>) -> Option<Seq<char>> {
    payload_error(payload(encoder_raw), payload(video_raw))
}

/// Checks a custom encoder and video that were read.
pub fn check_payloads(
    encoder: &Option<Result<Json, String>>,
    video: &Option<Result<Json, String>>,
) -> (r: Result<(), String>)
    requires
        canonical_payload(*encoder),
    ensures
        match r {
            Ok(_) => payload_error(payload_model(*encoder), payload_model(*video)) is None,
            Err(e) => payload_error(payload_model(*encoder), payload_model(*video)) == Some(e@),
        },
{
    let read = match encoder {
        Some(read) => read,
        None => {
            if video.is_some() {
                return Err("custom video needs a custom encoder first".to_owned());
            }
            return Ok(());
        },
    };
    let custom = match read_custom_encoder(read) {
        Ok(c) => c,
        Err(e) => {
            return Err(e);
        },
    };
    let entry = match lookup_encoder(custom.encoder.as_str()) {
        Some(e) => e,
        None => {
            return Err(cat3("unknown encoder '", custom.encoder.as_str(), "'"));
        },
    };
    let checked = match video {
        Some(v) => match read_custom_video(entry.family, entry.codec, v) {
            Ok(c) => c,
            Err(e) => {
                return Err(e);
            },
        },
        None => {
            return Ok(());
        },
    };
    match validate_pair(
        entry.family,
        entry.codec,
        &custom.settings,
        Some(checked.color_format.as_str()),
    ) {
        Ok(_) => Ok(()),
        Err(e) => Err(e),
    }
}

/// Checks the stored texts of a custom encoder and video together.
pub fn check_custom_pair(encoder_raw: &str, video_raw: &str) -> (r: Result<(), String>)
    ensures
        match r {
            Ok(_) => pair_error(encoder_raw@, video_raw@) is None,
            Err(e) => pair_error(encoder_raw@, video_raw@) == Some(e@),
        },
{
    check_payloads(&read_payload(encoder_raw), &read_payload(video_raw))
}

fn proposed_value(proposed: &TextMap, settings: &TextMap, key: &str) -> (r: String)
    ensures
        r@ == proposed_or_stored(proposed@, settings@, key@),
{
    match proposed.get(key) {
        Some(v) => v.clone(),
        None => match settings.get(key) {
            Some(v) => v.clone(),
            None => String::new(),
        },
    }
}

/// Checks the custom encoder and video that a change would leave, before
/// anything is written.
pub fn validate_custom_pair(proposed: &TextMap, settings: &TextMap) -> (r: Result<(), String>)
    ensures
        match r {
            Ok(_) => pair_error(
                proposed_or_stored(proposed@, settings@, "custom_encoder_json"@),
                proposed_or_stored(proposed@, settings@, "custom_video_json"@),
            ) is None,
            Err(e) => pair_error(
                proposed_or_stored(proposed@, settings@, "custom_encoder_json"@),
                proposed_or_stored(proposed@, settings@, "custom_video_json"@),
            ) == Some(e@),
        },
{
    let encoder = proposed_value(proposed, settings, "custom_encoder_json");
    let video = proposed_value(proposed, settings, "custom_video_json");
    check_custom_pair(encoder.as_str(), video.as_str())
}

} // verus!
