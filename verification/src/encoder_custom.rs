//! Custom encoder and video selections: read from their stored JSON, checked,
//! and brought to one canonical form.

use vstd::prelude::*;

use crate::api::{CustomEncoder, CustomEncoderModel, CustomVideo, CustomVideoModel};
use crate::encoder_options::{
    color_formats, has_text, known_encoder, lookup_encoder, resolved_table, settings_error,
    valid_color_formats, validate, COLOR_RANGES, COLOR_SPACES, SCALE_FILTERS,
};
use crate::encoder_tables::{strs, EncoderFamily};
use crate::json::{
    ascending_entries, canonical, json_entries, json_parse, lemma_ascending_entries,
    lemma_json_view, object_map, parse_json, read_model, Json, JsonModel, JsonRead,
};
use crate::text::{ascii_lower, ascii_lowered, cat, cat3, same, trim, trimmed, uppercase};

verus! {

broadcast use vstd::string::group_string_axioms;

// ---------------------------------------------------------------------------
// Encoder
// ---------------------------------------------------------------------------
/// The custom encoder that a document writes, or what is wrong with it.
pub open spec fn custom_encoder_of(doc: JsonModel) -> Result<CustomEncoderModel, Seq<char>> {
    let id = match doc.get("encoder"@) {
        Some(v) => v.as_str(),
        None => None,
    };
    let settings = match doc.get("settings"@) {
        Some(v) => v.as_object(),
        None => None,
    };
    match id {
        None => Err("custom encoder needs an 'encoder' id"@),
        Some(encoder) => match known_encoder(encoder) {
            None => Err("unknown encoder '"@ + encoder + "'"@),
            Some(entry) => match settings {
                None => Err("custom encoder needs a 'settings' object"@),
                Some(m) => {
                    let entries = ascending_entries(m);
                    match settings_error(
                        resolved_table(entry.family, entry.codec),
                        entry.codec,
                        entries,
                        None,
                    ) {
                        Some(e) => Err(e),
                        None => Ok(CustomEncoderModel { encoder, settings: entries }),
                    }
                },
            },
        },
    }
}

/// The custom encoder that a stored text writes, or what is wrong with it.
pub open spec fn custom_encoder_read(read: JsonRead) -> Result<CustomEncoderModel, Seq<char>> {
    match read {
        JsonRead::Failure(e) => Err("custom encoder is not valid JSON: "@ + e),
        JsonRead::Document(doc) => custom_encoder_of(doc),
    }
}

/// A document that was read lists its keys in ascending order.
pub open spec fn canonical_read(read: Result<Json, String>) -> bool {
    read matches Ok(doc) ==> canonical(doc)
}

/// What reading a stored text gives. A blank one stands for nothing.
pub open spec fn payload(raw: Seq<char>) -> Option<JsonRead> {
    if trim(raw).len() == 0 {
        None
    } else {
        Some(json_parse(raw))
    }
}

/// What a stored text that was read stands for.
pub open spec fn payload_model(read: Option<Result<Json, String>>) -> Option<JsonRead> {
    match read {
        Some(r) => Some(read_model(r)),
        None => None,
    }
}

/// A stored text that was read lists its keys in ascending order.
pub open spec fn canonical_payload(read: Option<Result<Json, String>>) -> bool {
    read matches Some(r) ==> canonical_read(r)
}

/// Reads a stored text, unless it is blank.
pub fn read_payload(raw: &str) -> (r: Option<Result<Json, String>>)
    ensures
        payload_model(r) == payload(raw@),
        canonical_payload(r),
{
    if trimmed(raw).as_str().is_empty() {
        None
    } else {
        Some(parse_json(raw))
    }
}

/// What the outcome of a check on a custom encoder stands for.
pub open spec fn encoder_outcome(r: Result<CustomEncoder, String>) -> Result<
    CustomEncoderModel,
    Seq<char>,
> {
    match r {
        Ok(c) => Ok(c@),
        Err(e) => Err(e@),
    }
}

/// The custom encoder that a document writes.
pub fn custom_encoder_from(doc: &Json) -> (r: Result<CustomEncoder, String>)
    requires
        canonical(*doc),
    ensures
        encoder_outcome(r) == custom_encoder_of(doc@),
{
    let id = match doc.get("encoder") {
        Some(v) => v.as_str(),
        None => None,
    };
    let encoder = match id {
        Some(s) => s,
        None => {
            return Err("custom encoder needs an 'encoder' id".to_owned());
        },
    };
    let entry = match lookup_encoder(encoder) {
        Some(e) => e,
        None => {
            return Err(cat3("unknown encoder '", encoder, "'"));
        },
    };
    let object = match doc.get("settings") {
        Some(v) => v.as_object(),
        None => None,
    };
    let settings = match object {
        Some(s) => s,
        None => {
            return Err("custom encoder needs a 'settings' object".to_owned());
        },
    };
    proof {
        lemma_ascending_entries(json_entries(settings@));
    }
    match validate(entry.family, entry.codec, settings) {
        Ok(clean) => Ok(CustomEncoder { encoder: encoder.to_owned(), settings: clean }),
        Err(e) => Err(e),
    }
}

/// Check the custom encoder of a document that was read.
pub fn read_custom_encoder(read: &Result<Json, String>) -> (r: Result<CustomEncoder, String>)
    requires
        canonical_read(*read),
    ensures
        encoder_outcome(r) == custom_encoder_read(read_model(*read)),
{
    match read {
        Ok(doc) => custom_encoder_from(doc),
        Err(e) => Err(cat("custom encoder is not valid JSON: ", e.as_str())),
    }
}

/// Read and check a stored custom encoder (`{"encoder": id, "settings": {...}}`).
pub fn parse_custom_encoder(raw: &str) -> (r: Result<CustomEncoder, String>)
    ensures
        encoder_outcome(r) == custom_encoder_read(json_parse(raw@)),
{
    read_custom_encoder(&parse_json(raw))
}

// ---------------------------------------------------------------------------
// Video
// ---------------------------------------------------------------------------
/// The frame rates of the common list.
pub const FPS_COMMON_VALUES: [u32; 11] = [10, 20, 24, 25, 30, 48, 50, 60, 120, 144, 240];

/// The three ways to give a frame rate.
pub const FPS_TYPES: [&'static str; 3] = ["common", "integer", "fractional"];

/// The number under a key, cut to 32 bits, or what is wrong with it.
pub open spec fn number_field(doc: JsonModel, key: Seq<char>) -> Result<int, Seq<char>> {
    match doc.get(key) {
        None => Err("custom video needs '"@ + key + "'"@),
        Some(v) => match v.as_u64() {
            None => Err(key + " must be a number"@),
            Some(n) => Ok(n % 0x1_0000_0000),
        },
    }
}

/// The text under a key, or what is wrong with it.
pub open spec fn text_field(doc: JsonModel, key: Seq<char>) -> Result<Seq<char>, Seq<char>> {
    match doc.get(key) {
        None => Err("custom video needs '"@ + key + "'"@),
        Some(v) => match v.as_str() {
            None => Err(key + " must be text"@),
            Some(s) => Ok(s),
        },
    }
}

/// The first of the list that equals `v` up to the case of ASCII letters.
pub open spec fn canon_of(list: Seq<Seq<char>>, v: Seq<char>) -> Option<Seq<char>>
    decreases list.len(),
{
    if list.len() == 0 {
        None
    } else if ascii_lower(list[0]) == ascii_lower(v) {
        Some(list[0])
    } else {
        canon_of(list.drop_first(), v)
    }
}

/// `v` brought into 2-8192 and made even.
pub open spec fn even_clamped(v: int) -> int {
    let c = if v < 2 {
        2
    } else if v > 8192 {
        8192
    } else {
        v
    };
    c - c % 2
}

/// The fields of a custom video as they are written.
pub struct VideoFields {
    pub out_width: int,
    pub out_height: int,
    pub scale_type: Seq<char>,
    pub fps_type: Seq<char>,
    pub color_format: Seq<char>,
    pub color_space: Seq<char>,
    pub color_range: Seq<char>,
}

/// The fields of a custom video, or the first that is missing or of the wrong type.
pub open spec fn video_fields(doc: JsonModel) -> Result<VideoFields, Seq<char>> {
    match number_field(doc, "out_width"@) {
        Err(e) => Err(e),
        Ok(out_width) => match number_field(doc, "out_height"@) {
            Err(e) => Err(e),
            Ok(out_height) => match text_field(doc, "scale_type"@) {
                Err(e) => Err(e),
                Ok(scale_type) => match text_field(doc, "fps_type"@) {
                    Err(e) => Err(e),
                    Ok(fps_type) => match text_field(doc, "color_format"@) {
                        Err(e) => Err(e),
                        Ok(color_format) => match text_field(doc, "color_space"@) {
                            Err(e) => Err(e),
                            Ok(color_space) => match text_field(doc, "color_range"@) {
                                Err(e) => Err(e),
                                Ok(color_range) => Ok(
                                    VideoFields {
                                        out_width,
                                        out_height,
                                        scale_type,
                                        fps_type,
                                        color_format,
                                        color_space,
                                        color_range,
                                    },
                                ),
                            },
                        },
                    },
                },
            },
        },
    }
}

/// A frame rate in its four forms: common, whole, numerator and denominator.
pub struct FpsModel {
    pub common: int,
    pub whole: int,
    pub num: int,
    pub den: int,
}

/// The frame rate that a document writes in the given way, or what is wrong with it.
pub open spec fn fps_fields(doc: JsonModel, fps_type: Seq<char>) -> Result<FpsModel, Seq<char>> {
    if fps_type == "common"@ {
        match number_field(doc, "fps_common"@) {
            Err(e) => Err(e),
            Ok(f) => if FPS_COMMON_VALUES@.contains(f as u32) {
                Ok(FpsModel { common: f, whole: 60, num: 60, den: 1 })
            } else {
                Err("fps_common must be a common OBS value (10/24/30/60/120/…)"@)
            },
        }
    } else if fps_type == "integer"@ {
        match number_field(doc, "fps_int"@) {
            Err(e) => Err(e),
            Ok(f) => if 1 <= f <= 360 {
                Ok(FpsModel { common: f, whole: f, num: f, den: 1 })
            } else {
                Err("fps_int must be 1-360"@)
            },
        }
    } else {
        match number_field(doc, "fps_num"@) {
            Err(e) => Err(e),
            Ok(n) => match number_field(doc, "fps_den"@) {
                Err(e) => Err(e),
                Ok(d) => if 1 <= n <= 1_000_000 && 1 <= d <= 1_000_000 {
                    Ok(
                        FpsModel {
                            common: if n / d < 1 {
                                1
                            } else {
                                n / d
                            },
                            whole: 60,
                            num: n,
                            den: d,
                        },
                    )
                } else {
                    Err("fps_num/fps_den must be 1-1000000"@)
                },
            },
        }
    }
}

/// The custom video that a document writes for a family and codec, or the
/// first thing that is wrong with it. Dimensions come out even, names in the
/// case of their lists.
pub open spec fn custom_video_of(family: EncoderFamily, codec: Seq<char>, doc: JsonModel) -> Result<
    CustomVideoModel,
    Seq<char>,
> {
    match video_fields(doc) {
        Err(e) => Err(e),
        Ok(f) => if !(2 <= f.out_width <= 8192) || !(2 <= f.out_height <= 8192) {
            Err("output resolution must be 2-8192 px"@)
        } else {
            let color_format = uppercase(f.color_format);
            match (
                canon_of(strs(SCALE_FILTERS@), f.scale_type),
                canon_of(strs(FPS_TYPES@), f.fps_type),
                canon_of(strs(COLOR_SPACES@), f.color_space),
                canon_of(strs(COLOR_RANGES@), f.color_range),
            ) {
                (None, _, _, _) => Err("unknown scale filter (use bicubic/lanczos/…)"@),
                (Some(_), None, _, _) => Err("fps_type must be common, integer or fractional"@),
                (Some(scale_type), Some(fps_type), space, range) => {
                    if !color_formats(family, codec).contains(color_format) {
                        Err("color format "@ + color_format + " not valid for this encoder"@)
                    } else if space is None {
                        Err("unknown color space"@)
                    } else if range is None {
                        Err("color range must be Partial or Full"@)
                    } else {
                        match fps_fields(doc, fps_type) {
                            Err(e) => Err(e),
                            Ok(fps) => Ok(
                                CustomVideoModel {
                                    out_width: even_clamped(f.out_width),
                                    out_height: even_clamped(f.out_height),
                                    scale_type,
                                    fps_type,
                                    fps_common: fps.common,
                                    fps_int: fps.whole,
                                    fps_num: fps.num,
                                    fps_den: fps.den,
                                    color_format,
                                    color_space: space->0,
                                    color_range: range->0,
                                },
                            ),
                        }
                    }
                },
            }
        },
    }
}

/// The custom video that a stored text writes, or what is wrong with it.
pub open spec fn custom_video_read(
    family: EncoderFamily,
    codec: Seq<char>,
    read: JsonRead,
) -> Result<CustomVideoModel, Seq<char>> {
    match read {
        JsonRead::Failure(e) => Err("custom video is not valid JSON: "@ + e),
        JsonRead::Document(doc) => custom_video_of(family, codec, doc),
    }
}

/// What the outcome of a check on a custom video stands for.
pub open spec fn video_outcome(r: Result<CustomVideo, String>) -> Result<
    CustomVideoModel,
    Seq<char>,
> {
    match r {
        Ok(v) => Ok(v@),
        Err(e) => Err(e@),
    }
}

/// What the outcome of reading a number stands for.
pub open spec fn number_outcome(r: Result<u32, String>) -> Result<int, Seq<char>> {
    match r {
        Ok(n) => Ok(n as int),
        Err(e) => Err(e@),
    }
}

fn need_number(doc: &Json, key: &str) -> (r: Result<u32, String>)
    ensures
        number_outcome(r) == number_field(doc@, key@),
{
    match doc.get(key) {
        None => Err(cat3("custom video needs '", key, "'")),
        Some(v) => match v.as_u64() {
            None => Err(cat(key, " must be a number")),
            Some(n) => Ok((n % 0x1_0000_0000) as u32),
        },
    }
}

fn need_text<'a>(doc: &'a Json, key: &str) -> (r: Result<&'a str, String>)
    ensures
        match r {
            Ok(s) => text_field(doc@, key@) == Ok::<Seq<char>, Seq<char>>(s@),
            Err(e) => text_field(doc@, key@) == Err::<Seq<char>, Seq<char>>(e@),
        },
{
    match doc.get(key) {
        None => Err(cat3("custom video needs '", key, "'")),
        Some(v) => match v.as_str() {
            None => Err(cat(key, " must be text")),
            Some(s) => Ok(s),
        },
    }
}

/// The first of the list that equals `v` up to the case of ASCII letters.
pub fn canon(list: &'static [&'static str], v: &str) -> (r: Option<&'static str>)
    ensures
        match r {
            Some(s) => canon_of(strs(list@), v@) == Some(s@),
            None => canon_of(strs(list@), v@) is None,
        },
{
    let ghost all = strs(list@);
    let wanted = ascii_lowered(v);
    let mut i: usize = 0;
    proof {
        assert(all.skip(0) =~= all);
    }
    while i < list.len()
        invariant
            all == strs(list@),
            wanted@ == ascii_lower(v@),
            i <= list@.len(),
            canon_of(all, v@) == canon_of(all.skip(i as int), v@),
        decreases list@.len() - i,
    {
        let lowered = ascii_lowered(list[i]);
        proof {
            assert(all.skip(i as int)[0] == list@[i as int]@);
            assert(all.skip(i as int).drop_first() =~= all.skip(i + 1));
        }
        if same(lowered.as_str(), wanted.as_str()) {
            return Some(list[i]);
        }
        i = i + 1;
    }
    None
}

/// `v` brought into 2-8192 and made even.
pub fn even_clamp(v: u32) -> (r: u32)
    ensures
        r == even_clamped(v as int),
{
    let c: u32 = if v < 2 {
        2
    } else if v > 8192 {
        8192
    } else {
        v
    };
    c - c % 2
}

/// A frame rate is in the common list.
pub fn is_common_fps(f: u32) -> (r: bool)
    ensures
        r == FPS_COMMON_VALUES@.contains(f),
{
    let list = FPS_COMMON_VALUES;
    let mut i: usize = 0;
    while i < 11
        invariant
            list@ == FPS_COMMON_VALUES@,
            list@.len() == 11,
            i <= 11,
            forall|k: int| 0 <= k < i ==> list@[k] != f,
        decreases 11 - i,
    {
        if list[i] == f {
            return true;
        }
        i = i + 1;
    }
    false
}

/// A frame rate in its four forms.
pub struct Fps {
    pub common: u32,
    pub whole: u32,
    pub num: u32,
    pub den: u32,
}

/// What the outcome of reading a frame rate stands for.
pub open spec fn fps_outcome(r: Result<Fps, String>) -> Result<FpsModel, Seq<char>> {
    match r {
        Ok(f) => Ok(
            FpsModel {
                common: f.common as int,
                whole: f.whole as int,
                num: f.num as int,
                den: f.den as int,
            },
        ),
        Err(e) => Err(e@),
    }
}

fn read_fps(doc: &Json, fps_type: &str) -> (r: Result<Fps, String>)
    ensures
        fps_outcome(r) == fps_fields(doc@, fps_type@),
{
    if same(fps_type, "common") {
        match need_number(doc, "fps_common") {
            Err(e) => Err(e),
            Ok(f) => {
                if is_common_fps(f) {
                    Ok(Fps { common: f, whole: 60, num: 60, den: 1 })
                } else {
                    Err("fps_common must be a common OBS value (10/24/30/60/120/…)".to_owned())
                }
            },
        }
    } else if same(fps_type, "integer") {
        match need_number(doc, "fps_int") {
            Err(e) => Err(e),
            Ok(f) => {
                if 1 <= f && f <= 360 {
                    Ok(Fps { common: f, whole: f, num: f, den: 1 })
                } else {
                    Err("fps_int must be 1-360".to_owned())
                }
            },
        }
    } else {
        let n: u32 = match need_number(doc, "fps_num") {
            Ok(n) => n,
            Err(e) => {
                return Err(e);
            },
        };
        let d: u32 = match need_number(doc, "fps_den") {
            Ok(d) => d,
            Err(e) => {
                return Err(e);
            },
        };
        if 1 <= n && n <= 1_000_000 && 1 <= d && d <= 1_000_000 {
            let q: u32 = n / d;
            let common: u32 = if q < 1 {
                1
            } else {
                q
            };
            Ok(Fps { common, whole: 60, num: n, den: d })
        } else {
            Err("fps_num/fps_den must be 1-1000000".to_owned())
        }
    }
}

/// The custom video that a document writes for a family and codec.
pub fn custom_video_from(family: EncoderFamily, codec: &str, doc: &Json) -> (r: Result<
    CustomVideo,
    String,
>)
    ensures
        video_outcome(r) == custom_video_of(family, codec@, doc@),
{
    let out_width: u32 = match need_number(doc, "out_width") {
        Ok(n) => n,
        Err(e) => {
            return Err(e);
        },
    };
    let out_height: u32 = match need_number(doc, "out_height") {
        Ok(n) => n,
        Err(e) => {
            return Err(e);
        },
    };
    let scale_type = match need_text(doc, "scale_type") {
        Ok(s) => s,
        Err(e) => {
            return Err(e);
        },
    };
    let fps_type = match need_text(doc, "fps_type") {
        Ok(s) => s,
        Err(e) => {
            return Err(e);
        },
    };
    let color_format = match need_text(doc, "color_format") {
        Ok(s) => s,
        Err(e) => {
            return Err(e);
        },
    };
    let color_space = match need_text(doc, "color_space") {
        Ok(s) => s,
        Err(e) => {
            return Err(e);
        },
    };
    let color_range = match need_text(doc, "color_range") {
        Ok(s) => s,
        Err(e) => {
            return Err(e);
        },
    };
    if !(2 <= out_width && out_width <= 8192) || !(2 <= out_height && out_height <= 8192) {
        return Err("output resolution must be 2-8192 px".to_owned());
    }
    let scale_type = match canon(&SCALE_FILTERS, scale_type) {
        Some(s) => s,
        None => {
            return Err("unknown scale filter (use bicubic/lanczos/…)".to_owned());
        },
    };
    let fps_type = match canon(&FPS_TYPES, fps_type) {
        Some(s) => s,
        None => {
            return Err("fps_type must be common, integer or fractional".to_owned());
        },
    };
    let color_format: String = color_format.to_uppercase();
    if !has_text(valid_color_formats(family, codec), color_format.as_str()) {
        return Err(cat3("color format ", color_format.as_str(), " not valid for this encoder"));
    }
    let color_space = match canon(&COLOR_SPACES, color_space) {
        Some(s) => s,
        None => {
            return Err("unknown color space".to_owned());
        },
    };
    let color_range = match canon(&COLOR_RANGES, color_range) {
        Some(s) => s,
        None => {
            return Err("color range must be Partial or Full".to_owned());
        },
    };
    match read_fps(doc, fps_type) {
        Err(e) => Err(e),
        Ok(fps) => Ok(
            CustomVideo {
                out_width: even_clamp(out_width),
                out_height: even_clamp(out_height),
                scale_type: scale_type.to_owned(),
                fps_type: fps_type.to_owned(),
                fps_common: fps.common,
                fps_int: fps.whole,
                fps_num: fps.num,
                fps_den: fps.den,
                color_format,
                color_space: color_space.to_owned(),
                color_range: color_range.to_owned(),
            },
        ),
    }
}

/// Check the custom video settings of a document that was read, for a family and codec.
pub fn read_custom_video(family: EncoderFamily, codec: &str, read: &Result<Json, String>) -> (r:
    Result<CustomVideo, String>)
    ensures
        video_outcome(r) == custom_video_read(family, codec@, read_model(*read)),
{
    match read {
        Ok(doc) => custom_video_from(family, codec, doc),
        Err(e) => Err(cat("custom video is not valid JSON: ", e.as_str())),
    }
}

/// Read and check stored custom video settings for a family and codec.
pub fn parse_custom_video(family: EncoderFamily, codec: &str, raw: &str) -> (r: Result<
    CustomVideo,
    String,
>)
    ensures
        video_outcome(r) == custom_video_read(family, codec@, json_parse(raw@)),
{
    read_custom_video(family, codec, &parse_json(raw))
}

/// The whole frame rate of custom video settings, 1-360.
pub open spec fn effective_fps(v: CustomVideoModel) -> int {
    let fps = if v.fps_type == "integer"@ {
        v.fps_int
    } else if v.fps_type == "fractional"@ {
        v.fps_num / (if v.fps_den < 1 {
            1
        } else {
            v.fps_den
        })
    } else {
        v.fps_common
    };
    if fps < 1 {
        1
    } else if fps > 360 {
        360
    } else {
        fps
    }
}

/// Whole frame rate of custom video settings, for reports and buffer sizes.
pub fn custom_effective_fps(v: &CustomVideo) -> (r: u32)
    ensures
        r == effective_fps(v@),
{
    let fps: u32 = if same(v.fps_type.as_str(), "integer") {
        v.fps_int
    } else if same(v.fps_type.as_str(), "fractional") {
        let den: u32 = if v.fps_den < 1 {
            1
        } else {
            v.fps_den
        };
        v.fps_num / den
    } else {
        v.fps_common
    };
    if fps < 1 {
        1
    } else if fps > 360 {
        360
    } else {
        fps
    }
}

// ---------------------------------------------------------------------------
// Checking settings that are already read
// ---------------------------------------------------------------------------
/// The entries of the document that writes custom video settings.
pub open spec fn video_entries(v: CustomVideoModel) -> Seq<(Seq<char>, JsonModel)> {
    seq![
        ("out_width"@, JsonModel::Int(v.out_width)),
        ("out_height"@, JsonModel::Int(v.out_height)),
        ("scale_type"@, JsonModel::Str(v.scale_type)),
        ("fps_type"@, JsonModel::Str(v.fps_type)),
        ("fps_common"@, JsonModel::Int(v.fps_common)),
        ("fps_int"@, JsonModel::Int(v.fps_int)),
        ("fps_num"@, JsonModel::Int(v.fps_num)),
        ("fps_den"@, JsonModel::Int(v.fps_den)),
        ("color_format"@, JsonModel::Str(v.color_format)),
        ("color_space"@, JsonModel::Str(v.color_space)),
        ("color_range"@, JsonModel::Str(v.color_range)),
    ]
}

/// The document that writes custom video settings.
pub open spec fn video_doc(v: CustomVideoModel) -> JsonModel {
    JsonModel::Object(object_map(video_entries(v)))
}

/// The document that writes custom video settings.
pub fn video_to_json(v: &CustomVideo) -> (r: Json)
    ensures
        r@ == video_doc(v@),
{
    let entries = vec![
        ("out_width".to_owned(), Json::Unsigned(v.out_width as u64)),
        ("out_height".to_owned(), Json::Unsigned(v.out_height as u64)),
        ("scale_type".to_owned(), Json::Str(v.scale_type.clone())),
        ("fps_type".to_owned(), Json::Str(v.fps_type.clone())),
        ("fps_common".to_owned(), Json::Unsigned(v.fps_common as u64)),
        ("fps_int".to_owned(), Json::Unsigned(v.fps_int as u64)),
        ("fps_num".to_owned(), Json::Unsigned(v.fps_num as u64)),
        ("fps_den".to_owned(), Json::Unsigned(v.fps_den as u64)),
        ("color_format".to_owned(), Json::Str(v.color_format.clone())),
        ("color_space".to_owned(), Json::Str(v.color_space.clone())),
        ("color_range".to_owned(), Json::Str(v.color_range.clone())),
    ];
    proof {
        assert(json_entries(entries@) =~= video_entries(v@));
        lemma_json_view(Json::Object(entries));
    }
    Json::Object(entries)
}

/// Check custom video settings for a family and codec.
pub fn check_custom_video(family: EncoderFamily, codec: &str, v: &CustomVideo) -> (r: Result<
    CustomVideo,
    String,
>)
    ensures
        video_outcome(r) == custom_video_of(family, codec@, video_doc(v@)),
{
    custom_video_from(family, codec, &video_to_json(v))
}

} // verus!
