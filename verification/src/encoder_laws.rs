//! What holds of the encoder registry as a whole.

use vstd::prelude::*;

use crate::api::CustomVideoModel;
use crate::encoder_custom::{
    canon_of, custom_video_of, effective_fps, even_clamped, fps_fields, number_field, video_doc,
    video_entries, video_fields, FPS_COMMON_VALUES, FPS_TYPES,
};
use crate::encoder_options::{
    auto_settings, color_formats, find_entry, find_option, for_codec, known_encoder,
    ladder_settings, linux_catalog, nvenc_settings, range_for_codec, resolve_option, resolved_table,
    setting_error, settings_error, windows_catalog, x264_settings, EntryModel, ResolvedModel,
    COLOR_RANGES, COLOR_SPACES, SCALE_FILTERS,
};
use crate::encoder_tables::{
    amf_table, nvenc_table, option_table, qsv_table, strs, vaapi_table, x264_table, DefaultModel,
    EncoderFamily, OptionModel, SpecKind, AMF_PRESETS_AV1, AMF_PRESETS_AVC_HEVC, MAIN10_ONLY,
    MAIN_ONLY, NVENC_PROFILES_H264, NVENC_PROFILES_HEVC, QSV_PROFILES_H264, QSV_PROFILES_HEVC,
    VAAPI_P010_PROFILES, VAAPI_PROFILE_H264,
};
use crate::json::{lemma_object_map, object_map, JsonModel};
use crate::text::{ascii_lower, ascii_upper, uppercase};
use vstd::utf8::is_ascii_chars;

verus! {

broadcast use vstd::string::group_string_axioms;

// ---------------------------------------------------------------------------
// Custom video
// ---------------------------------------------------------------------------
/// An entry whose key no other entry has is the one that counts.
pub proof fn lemma_distinct_entry<V>(entries: Seq<(Seq<char>, V)>, k: int)
    requires
        0 <= k < entries.len(),
        forall|j: int| 0 <= j < entries.len() && j != k ==> (#[trigger] entries[j]).0 != entries[k].0,
    ensures
        object_map(entries).contains_key(entries[k].0),
        object_map(entries)[entries[k].0] == entries[k].1,
{
    lemma_object_map(entries);
    let key = entries[k].0;
    assert(object_map(entries).contains_key(key));
    let i = choose|i: int|
        0 <= i < entries.len() && (#[trigger] entries[i]).0 == key && entries[i].1 == object_map(
            entries,
        )[key] && forall|j: int| i < j < entries.len() ==> (#[trigger] entries[j]).0 != key;
    assert(i == k);
}

/// Length and two characters: enough to tell the keys of video settings apart.
spec fn signature(s: Seq<char>) -> (nat, char, char) {
    (s.len(), s[0], s[6])
}

proof fn lemma_video_keys_distinct(v: CustomVideoModel)
    ensures
        forall|i: int, j: int|
            0 <= i < 11 && 0 <= j < 11 && i != j ==> (#[trigger] video_entries(v)[i]).0 != (
            #[trigger] video_entries(v)[j]).0,
{
    reveal_strlit("out_width");
    reveal_strlit("out_height");
    reveal_strlit("scale_type");
    reveal_strlit("fps_type");
    reveal_strlit("fps_common");
    reveal_strlit("fps_int");
    reveal_strlit("fps_num");
    reveal_strlit("fps_den");
    reveal_strlit("color_format");
    reveal_strlit("color_space");
    reveal_strlit("color_range");
    let es = video_entries(v);
    assert(signature(es[0].0) == (9nat, 'o', 'd'));
    assert(signature(es[1].0) == (10nat, 'o', 'i'));
    assert(signature(es[2].0) == (10nat, 's', 't'));
    assert(signature(es[3].0) == (8nat, 'f', 'p'));
    assert(signature(es[4].0) == (10nat, 'f', 'm'));
    assert(signature(es[5].0) == (7nat, 'f', 't'));
    assert(signature(es[6].0) == (7nat, 'f', 'm'));
    assert(signature(es[7].0) == (7nat, 'f', 'n'));
    assert(signature(es[8].0) == (12nat, 'c', 'f'));
    assert(signature(es[9].0) == (11nat, 'c', 's'));
    assert(signature(es[10].0) == (11nat, 'c', 'r'));
    assert forall|i: int, j: int| 0 <= i < 11 && 0 <= j < 11 && i != j implies (
    #[trigger] video_entries(v)[i]).0 != (#[trigger] video_entries(v)[j]).0 by {
        assert(signature(es[i].0) != signature(es[j].0));
    }
}

proof fn lemma_video_doc_fields(v: CustomVideoModel)
    ensures
        video_doc(v).get("out_width"@) == Some(JsonModel::Int(v.out_width)),
        video_doc(v).get("out_height"@) == Some(JsonModel::Int(v.out_height)),
        video_doc(v).get("scale_type"@) == Some(JsonModel::Str(v.scale_type)),
        video_doc(v).get("fps_type"@) == Some(JsonModel::Str(v.fps_type)),
        video_doc(v).get("fps_common"@) == Some(JsonModel::Int(v.fps_common)),
        video_doc(v).get("fps_int"@) == Some(JsonModel::Int(v.fps_int)),
        video_doc(v).get("fps_num"@) == Some(JsonModel::Int(v.fps_num)),
        video_doc(v).get("fps_den"@) == Some(JsonModel::Int(v.fps_den)),
        video_doc(v).get("color_format"@) == Some(JsonModel::Str(v.color_format)),
        video_doc(v).get("color_space"@) == Some(JsonModel::Str(v.color_space)),
        video_doc(v).get("color_range"@) == Some(JsonModel::Str(v.color_range)),
{
    let es = video_entries(v);
    lemma_video_keys_distinct(v);
    lemma_distinct_entry(es, 0);
    lemma_distinct_entry(es, 1);
    lemma_distinct_entry(es, 2);
    lemma_distinct_entry(es, 3);
    lemma_distinct_entry(es, 4);
    lemma_distinct_entry(es, 5);
    lemma_distinct_entry(es, 6);
    lemma_distinct_entry(es, 7);
    lemma_distinct_entry(es, 8);
    lemma_distinct_entry(es, 9);
    lemma_distinct_entry(es, 10);
}

proof fn lemma_canon_fixed(list: Seq<Seq<char>>, v: Seq<char>)
    ensures
        canon_of(list, v) matches Some(s) ==> canon_of(list, s) == Some(s) && list.contains(s)
            && ascii_lower(s) == ascii_lower(v),
    decreases list.len(),
{
    if list.len() > 0 && ascii_lower(list[0]) != ascii_lower(v) {
        lemma_canon_fixed(list.drop_first(), v);
        if canon_of(list.drop_first(), v) is Some {
            let s = canon_of(list.drop_first(), v)->0;
            let i = choose|i: int| 0 <= i < list.drop_first().len() && list.drop_first()[i] == s;
            assert(list[i + 1] == s);
        }
    } else if list.len() > 0 {
        assert(list[0] == canon_of(list, v)->0);
    }
}

proof fn lemma_format_uppercase(family: EncoderFamily, codec: Seq<char>, f: Seq<char>)
    requires
        color_formats(family, codec).contains(f),
    ensures
        uppercase(f) == f,
{
    reveal_strlit("NV12");
    reveal_strlit("I420");
    reveal_strlit("I444");
    reveal_strlit("P010");
    let i = choose|i: int| 0 <= i < color_formats(family, codec).len() && color_formats(family, codec)[i] == f;
    assert(f == "NV12"@ || f == "I420"@ || f == "I444"@ || f == "P010"@);
    assert(is_ascii_chars(f));
    assert(ascii_upper(f) =~= f);
}

/// Custom video settings that pass the checks have even dimensions of 2-8192
/// pixels, names out of the lists, a color format that the encoder takes, and
/// a frame rate of at least 1.
pub proof fn law_custom_video_is_sound(family: EncoderFamily, codec: Seq<char>, doc: JsonModel)
    ensures
        custom_video_of(family, codec, doc) matches Ok(v) ==> {
            &&& v.out_width % 2 == 0 && 2 <= v.out_width <= 8192
            &&& v.out_height % 2 == 0 && 2 <= v.out_height <= 8192
            &&& strs(SCALE_FILTERS@).contains(v.scale_type)
            &&& strs(FPS_TYPES@).contains(v.fps_type)
            &&& strs(COLOR_SPACES@).contains(v.color_space)
            &&& strs(COLOR_RANGES@).contains(v.color_range)
            &&& color_formats(family, codec).contains(v.color_format)
            &&& v.fps_common >= 1 && v.fps_int >= 1 && v.fps_num >= 1 && v.fps_den >= 1
        },
{
    if custom_video_of(family, codec, doc) is Ok {
        let f = video_fields(doc)->Ok_0;
        lemma_canon_fixed(strs(SCALE_FILTERS@), f.scale_type);
        lemma_canon_fixed(strs(FPS_TYPES@), f.fps_type);
        lemma_canon_fixed(strs(COLOR_SPACES@), f.color_space);
        lemma_canon_fixed(strs(COLOR_RANGES@), f.color_range);
        let v = custom_video_of(family, codec, doc)->Ok_0;
        let fps = fps_fields(doc, v.fps_type);
        assert(fps is Ok);
        assert forall|x: u32| FPS_COMMON_VALUES@.contains(x) implies x >= 10 by {
            let i = choose|i: int| 0 <= i < FPS_COMMON_VALUES@.len() && FPS_COMMON_VALUES@[i] == x;
        }
    }
}

/// Checking settings that were checked before changes nothing.
pub proof fn law_custom_video_check_is_idempotent(
    family: EncoderFamily,
    codec: Seq<char>,
    doc: JsonModel,
)
    ensures
        custom_video_of(family, codec, doc) matches Ok(v) ==> custom_video_of(
            family,
            codec,
            video_doc(v),
        ) == Ok::<CustomVideoModel, Seq<char>>(v),
{
    if custom_video_of(family, codec, doc) is Ok {
        let v = custom_video_of(family, codec, doc)->Ok_0;
        let f = video_fields(doc)->Ok_0;
        law_custom_video_is_sound(family, codec, doc);
        lemma_video_doc_fields(v);
        lemma_canon_fixed(strs(SCALE_FILTERS@), f.scale_type);
        lemma_canon_fixed(strs(FPS_TYPES@), f.fps_type);
        lemma_canon_fixed(strs(COLOR_SPACES@), f.color_space);
        lemma_canon_fixed(strs(COLOR_RANGES@), f.color_range);
        lemma_format_uppercase(family, codec, v.color_format);
        let again = video_doc(v);
        assert(number_field(again, "out_width"@) == Ok::<int, Seq<char>>(v.out_width));
        assert(number_field(again, "out_height"@) == Ok::<int, Seq<char>>(v.out_height));
        assert(video_fields(again) is Ok);
        assert(even_clamped(v.out_width) == v.out_width);
        assert(even_clamped(v.out_height) == v.out_height);
        assert(number_field(doc, "fps_common"@) matches Ok(n) ==> 0 <= n < 0x1_0000_0000);
        assert(number_field(doc, "fps_int"@) matches Ok(n) ==> 0 <= n < 0x1_0000_0000);
        let first = fps_fields(doc, v.fps_type);
        let second = fps_fields(again, v.fps_type);
        assert(first is Ok);
        assert(second == first);
    }
}

/// The frame rate that is reported lies in 1-360, and is the one that was
/// chosen where a whole or a common rate was checked before.
pub proof fn law_effective_fps(family: EncoderFamily, codec: Seq<char>, doc: JsonModel)
    ensures
        custom_video_of(family, codec, doc) matches Ok(v) ==> {
            &&& 1 <= effective_fps(v) <= 360
            &&& v.fps_type == "integer"@ ==> effective_fps(v) == v.fps_int
            &&& v.fps_type == "common"@ ==> effective_fps(v) == v.fps_common
            &&& v.fps_type == "fractional"@ && v.fps_common <= 360 ==> effective_fps(v)
                == v.fps_common
        },
{
    if custom_video_of(family, codec, doc) is Ok {
        law_custom_video_is_sound(family, codec, doc);
        let v = custom_video_of(family, codec, doc)->Ok_0;
        reveal_strlit("integer");
        reveal_strlit("common");
        reveal_strlit("fractional");
        assert(fps_fields(doc, v.fps_type) is Ok);
        assert forall|x: u32| FPS_COMMON_VALUES@.contains(x) implies 10 <= x <= 240 by {
            let i = choose|i: int| 0 <= i < FPS_COMMON_VALUES@.len() && FPS_COMMON_VALUES@[i] == x;
        }
    }
}

// ---------------------------------------------------------------------------
// Tables
// ---------------------------------------------------------------------------
/// No two options share a key.
pub open spec fn keys_distinct(t: Seq<OptionModel>) -> bool {
    forall|i: int, j: int|
        0 <= i < t.len() && 0 <= j < t.len() && i != j ==> (#[trigger] t[i]).key != (
        #[trigger] t[j]).key
}

/// Length and two characters: enough to tell the keys of a family apart.
spec fn key_mark(s: Seq<char>) -> (nat, char, char) {
    (s.len(), s[0], s[1])
}

/// An option is consistent: its label belongs to the option labels, a text
/// option offers its default, a range is not empty and holds its default, and
/// what is given by codec is consistent too.
pub open spec fn option_sound(o: OptionModel) -> bool {
    &&& "obsopt."@.is_prefix_of(o.i18n)
    &&& o.kind == SpecKind::Enum ==> o.values.len() > 0 && (o.default matches Some(
        DefaultModel::Str(d),
    ) && o.values.contains(d))
    &&& o.kind == SpecKind::Int ==> o.min <= o.max && o.codec_defaults.len() == 0
    &&& o.kind == SpecKind::Int ==> (o.default matches Some(DefaultModel::Int(d)) ==> {
        &&& o.min <= d <= o.max
        &&& forall|i: int|
            0 <= i < o.codec_range.len() ==> (#[trigger] o.codec_range[i]).1 <= d
                <= o.codec_range[i].2
    })
    &&& forall|i: int|
        0 <= i < o.codec_values.len() ==> ((#[trigger] o.codec_values[i]).1.len() > 0 && (
        for_codec(o.codec_defaults, o.codec_values[i].0) is None ==> (o.default matches Some(
            DefaultModel::Str(d),
        ) ==> o.codec_values[i].1.contains(d))))
    &&& forall|i: int|
        0 <= i < o.codec_defaults.len() ==> ((#[trigger] o.codec_defaults[i]).1 matches
            DefaultModel::Str(d) ==> (match for_codec(o.codec_values, o.codec_defaults[i].0) {
            Some(v) => v,
            None => o.values,
        }).contains(d))
    &&& forall|i: int|
        0 <= i < o.codecs.len() ==> {
            let c = #[trigger] o.codecs[i];
            c == "h264"@ || c == "hevc"@ || c == "av1"@
        }
}

proof fn lemma_nvenc_keys()
    ensures
        keys_distinct(nvenc_table()),
        nvenc_table().len() == 15,
{
    reveal_strlit("rate_control");
    reveal_strlit("bitrate");
    reveal_strlit("max_bitrate");
    reveal_strlit("target_quality");
    reveal_strlit("cqp");
    reveal_strlit("keyint_sec");
    reveal_strlit("preset");
    reveal_strlit("tune");
    reveal_strlit("multipass");
    reveal_strlit("profile");
    reveal_strlit("lookahead");
    reveal_strlit("adaptive_quantization");
    reveal_strlit("device");
    reveal_strlit("bf");
    reveal_strlit("opts");
    let t = nvenc_table();
    assert(key_mark(t[0].key) == (12nat, 'r', 'a'));
    assert(key_mark(t[1].key) == (7nat, 'b', 'i'));
    assert(key_mark(t[2].key) == (11nat, 'm', 'a'));
    assert(key_mark(t[3].key) == (14nat, 't', 'a'));
    assert(key_mark(t[4].key) == (3nat, 'c', 'q'));
    assert(key_mark(t[5].key) == (10nat, 'k', 'e'));
    assert(key_mark(t[6].key) == (6nat, 'p', 'r'));
    assert(key_mark(t[7].key) == (4nat, 't', 'u'));
    assert(key_mark(t[8].key) == (9nat, 'm', 'u'));
    assert(key_mark(t[9].key) == (7nat, 'p', 'r'));
    assert(key_mark(t[10].key) == (9nat, 'l', 'o'));
    assert(key_mark(t[11].key) == (21nat, 'a', 'd'));
    assert(key_mark(t[12].key) == (6nat, 'd', 'e'));
    assert(key_mark(t[13].key) == (2nat, 'b', 'f'));
    assert(key_mark(t[14].key) == (4nat, 'o', 'p'));
    assert forall|i: int, j: int| 0 <= i < t.len() && 0 <= j < t.len() && i != j implies (
    #[trigger] t[i]).key != (#[trigger] t[j]).key by {
        assert(key_mark(t[i].key) != key_mark(t[j].key));
    }
}

proof fn lemma_nvenc_sound()
    ensures
        forall|i: int| 0 <= i < nvenc_table().len() ==> option_sound(#[trigger] nvenc_table()[i]),
{
    let t = nvenc_table();
    reveal_strlit("obsopt.");
    reveal_strlit("obsopt.adaptive_quantization");
    reveal_strlit("obsopt.bframes");
    reveal_strlit("obsopt.bitrate");
    reveal_strlit("obsopt.cqp");
    reveal_strlit("obsopt.gpu");
    reveal_strlit("obsopt.keyint");
    reveal_strlit("obsopt.lookahead");
    reveal_strlit("obsopt.max_bitrate");
    reveal_strlit("obsopt.multipass");
    reveal_strlit("obsopt.opts");
    reveal_strlit("obsopt.preset");
    reveal_strlit("obsopt.profile");
    reveal_strlit("obsopt.rate_control");
    reveal_strlit("obsopt.target_quality");
    reveal_strlit("obsopt.tune");
    assert("obsopt.rate_control"@.subrange(0, 7) =~= "obsopt."@);
    assert(t[0].values[0] == "CBR"@);
    assert(option_sound(t[0]));
    assert("obsopt.bitrate"@.subrange(0, 7) =~= "obsopt."@);
    assert(option_sound(t[1]));
    assert("obsopt.max_bitrate"@.subrange(0, 7) =~= "obsopt."@);
    assert(option_sound(t[2]));
    assert("obsopt.target_quality"@.subrange(0, 7) =~= "obsopt."@);
    assert(option_sound(t[3]));
    assert("obsopt.cqp"@.subrange(0, 7) =~= "obsopt."@);
    assert(option_sound(t[4]));
    assert("obsopt.keyint"@.subrange(0, 7) =~= "obsopt."@);
    assert(option_sound(t[5]));
    assert("obsopt.preset"@.subrange(0, 7) =~= "obsopt."@);
    assert(t[6].values[4] == "p5"@);
    assert(option_sound(t[6]));
    assert("obsopt.tune"@.subrange(0, 7) =~= "obsopt."@);
    assert(t[7].values[1] == "hq"@);
    assert(option_sound(t[7]));
    assert("obsopt.multipass"@.subrange(0, 7) =~= "obsopt."@);
    assert(t[8].values[1] == "qres"@);
    assert(option_sound(t[8]));
    assert("obsopt.profile"@.subrange(0, 7) =~= "obsopt."@);
    assert(t[9].values[0] == "high"@);
    assert(strs(NVENC_PROFILES_H264@)[0] == "high"@);
    assert(strs(NVENC_PROFILES_HEVC@)[1] == "main"@);
    assert(strs(MAIN_ONLY@)[0] == "main"@);
    reveal_strlit("h264");
    reveal_strlit("hevc");
    reveal_strlit("av1");
    assert("h264"@[1] == '2' && "hevc"@[1] == 'e');
    reveal_with_fuel(for_codec, 4);
    assert(for_codec(t[9].codec_values, "hevc"@) == Some(strs(NVENC_PROFILES_HEVC@)));
    assert(for_codec(t[9].codec_values, "av1"@) == Some(strs(MAIN_ONLY@)));
    assert(option_sound(t[9]));
    assert("obsopt.lookahead"@.subrange(0, 7) =~= "obsopt."@);
    assert(option_sound(t[10]));
    assert("obsopt.adaptive_quantization"@.subrange(0, 7) =~= "obsopt."@);
    assert(option_sound(t[11]));
    assert("obsopt.gpu"@.subrange(0, 7) =~= "obsopt."@);
    assert(option_sound(t[12]));
    assert("obsopt.bframes"@.subrange(0, 7) =~= "obsopt."@);
    assert(option_sound(t[13]));
    assert("obsopt.opts"@.subrange(0, 7) =~= "obsopt."@);
    assert(option_sound(t[14]));
}

proof fn lemma_x264_keys()
    ensures
        keys_distinct(x264_table()),
        x264_table().len() == 12,
{
    reveal_strlit("rate_control");
    reveal_strlit("bitrate");
    reveal_strlit("use_bufsize");
    reveal_strlit("buffer_size");
    reveal_strlit("crf");
    reveal_strlit("keyint_sec");
    reveal_strlit("preset");
    reveal_strlit("profile");
    reveal_strlit("tune");
    reveal_strlit("bf");
    reveal_strlit("x264opts");
    reveal_strlit("repeat_headers");
    let t = x264_table();
    assert(key_mark(t[0].key) == (12nat, 'r', 'a'));
    assert(key_mark(t[1].key) == (7nat, 'b', 'i'));
    assert(key_mark(t[2].key) == (11nat, 'u', 's'));
    assert(key_mark(t[3].key) == (11nat, 'b', 'u'));
    assert(key_mark(t[4].key) == (3nat, 'c', 'r'));
    assert(key_mark(t[5].key) == (10nat, 'k', 'e'));
    assert(key_mark(t[6].key) == (6nat, 'p', 'r'));
    assert(key_mark(t[7].key) == (7nat, 'p', 'r'));
    assert(key_mark(t[8].key) == (4nat, 't', 'u'));
    assert(key_mark(t[9].key) == (2nat, 'b', 'f'));
    assert(key_mark(t[10].key) == (8nat, 'x', '2'));
    assert(key_mark(t[11].key) == (14nat, 'r', 'e'));
    assert forall|i: int, j: int| 0 <= i < t.len() && 0 <= j < t.len() && i != j implies (
    #[trigger] t[i]).key != (#[trigger] t[j]).key by {
        assert(key_mark(t[i].key) != key_mark(t[j].key));
    }
}

proof fn lemma_x264_sound()
    ensures
        forall|i: int| 0 <= i < x264_table().len() ==> option_sound(#[trigger] x264_table()[i]),
{
    let t = x264_table();
    reveal_strlit("obsopt.");
    reveal_strlit("obsopt.bframes");
    reveal_strlit("obsopt.bitrate");
    reveal_strlit("obsopt.buffer_size");
    reveal_strlit("obsopt.crf");
    reveal_strlit("obsopt.keyint");
    reveal_strlit("obsopt.opts");
    reveal_strlit("obsopt.preset");
    reveal_strlit("obsopt.profile");
    reveal_strlit("obsopt.rate_control");
    reveal_strlit("obsopt.repeat_headers");
    reveal_strlit("obsopt.tune");
    reveal_strlit("obsopt.use_bufsize");
    assert("obsopt.rate_control"@.subrange(0, 7) =~= "obsopt."@);
    assert(t[0].values[0] == "CBR"@);
    assert(option_sound(t[0]));
    assert("obsopt.bitrate"@.subrange(0, 7) =~= "obsopt."@);
    assert(option_sound(t[1]));
    assert("obsopt.use_bufsize"@.subrange(0, 7) =~= "obsopt."@);
    assert(option_sound(t[2]));
    assert("obsopt.buffer_size"@.subrange(0, 7) =~= "obsopt."@);
    assert(option_sound(t[3]));
    assert("obsopt.crf"@.subrange(0, 7) =~= "obsopt."@);
    assert(option_sound(t[4]));
    assert("obsopt.keyint"@.subrange(0, 7) =~= "obsopt."@);
    assert(option_sound(t[5]));
    assert("obsopt.preset"@.subrange(0, 7) =~= "obsopt."@);
    assert(t[6].values[2] == "veryfast"@);
    assert(option_sound(t[6]));
    assert("obsopt.profile"@.subrange(0, 7) =~= "obsopt."@);
    assert(t[7].values[0] == ""@);
    assert(option_sound(t[7]));
    assert("obsopt.tune"@.subrange(0, 7) =~= "obsopt."@);
    assert(t[8].values[0] == ""@);
    assert(option_sound(t[8]));
    assert("obsopt.bframes"@.subrange(0, 7) =~= "obsopt."@);
    assert(option_sound(t[9]));
    assert("obsopt.opts"@.subrange(0, 7) =~= "obsopt."@);
    assert(option_sound(t[10]));
    assert("obsopt.repeat_headers"@.subrange(0, 7) =~= "obsopt."@);
    assert(option_sound(t[11]));
}

proof fn lemma_qsv_keys()
    ensures
        keys_distinct(qsv_table()),
        qsv_table().len() == 11,
{
    reveal_strlit("rate_control");
    reveal_strlit("bitrate");
    reveal_strlit("max_bitrate");
    reveal_strlit("cqp");
    reveal_strlit("icq_quality");
    reveal_strlit("target_usage");
    reveal_strlit("profile");
    reveal_strlit("keyint_sec");
    reveal_strlit("latency");
    reveal_strlit("bframes");
    reveal_strlit("repeat_headers");
    let t = qsv_table();
    assert(key_mark(t[0].key) == (12nat, 'r', 'a'));
    assert(key_mark(t[1].key) == (7nat, 'b', 'i'));
    assert(key_mark(t[2].key) == (11nat, 'm', 'a'));
    assert(key_mark(t[3].key) == (3nat, 'c', 'q'));
    assert(key_mark(t[4].key) == (11nat, 'i', 'c'));
    assert(key_mark(t[5].key) == (12nat, 't', 'a'));
    assert(key_mark(t[6].key) == (7nat, 'p', 'r'));
    assert(key_mark(t[7].key) == (10nat, 'k', 'e'));
    assert(key_mark(t[8].key) == (7nat, 'l', 'a'));
    assert(key_mark(t[9].key) == (7nat, 'b', 'f'));
    assert(key_mark(t[10].key) == (14nat, 'r', 'e'));
    assert forall|i: int, j: int| 0 <= i < t.len() && 0 <= j < t.len() && i != j implies (
    #[trigger] t[i]).key != (#[trigger] t[j]).key by {
        assert(key_mark(t[i].key) != key_mark(t[j].key));
    }
}

proof fn lemma_qsv_sound()
    ensures
        forall|i: int| 0 <= i < qsv_table().len() ==> option_sound(#[trigger] qsv_table()[i]),
{
    let t = qsv_table();
    reveal_strlit("obsopt.");
    reveal_strlit("obsopt.bframes");
    reveal_strlit("obsopt.bitrate");
    reveal_strlit("obsopt.cqp");
    reveal_strlit("obsopt.icq");
    reveal_strlit("obsopt.keyint");
    reveal_strlit("obsopt.latency");
    reveal_strlit("obsopt.max_bitrate");
    reveal_strlit("obsopt.profile");
    reveal_strlit("obsopt.rate_control");
    reveal_strlit("obsopt.repeat_headers");
    reveal_strlit("obsopt.target_usage");
    assert("obsopt.rate_control"@.subrange(0, 7) =~= "obsopt."@);
    assert(t[0].values[0] == "CBR"@);
    assert(option_sound(t[0]));
    assert("obsopt.bitrate"@.subrange(0, 7) =~= "obsopt."@);
    assert(option_sound(t[1]));
    assert("obsopt.max_bitrate"@.subrange(0, 7) =~= "obsopt."@);
    assert(option_sound(t[2]));
    assert("obsopt.cqp"@.subrange(0, 7) =~= "obsopt."@);
    assert(option_sound(t[3]));
    assert("obsopt.icq"@.subrange(0, 7) =~= "obsopt."@);
    assert(option_sound(t[4]));
    assert("obsopt.target_usage"@.subrange(0, 7) =~= "obsopt."@);
    assert(t[5].values[3] == "TU4"@);
    assert(option_sound(t[5]));
    assert("obsopt.profile"@.subrange(0, 7) =~= "obsopt."@);
    assert(t[6].values[2] == "high"@);
    assert(strs(QSV_PROFILES_H264@)[2] == "high"@);
    assert(strs(QSV_PROFILES_HEVC@)[0] == "main"@);
    assert(strs(MAIN_ONLY@)[0] == "main"@);
    reveal_strlit("h264");
    reveal_strlit("hevc");
    reveal_strlit("av1");
    assert("h264"@[1] == '2' && "hevc"@[1] == 'e');
    reveal_with_fuel(for_codec, 4);
    assert(for_codec(t[6].codec_values, "hevc"@) == Some(strs(QSV_PROFILES_HEVC@)));
    assert(for_codec(t[6].codec_values, "av1"@) == Some(strs(MAIN_ONLY@)));
    assert(option_sound(t[6]));
    assert("obsopt.keyint"@.subrange(0, 7) =~= "obsopt."@);
    assert(option_sound(t[7]));
    assert("obsopt.latency"@.subrange(0, 7) =~= "obsopt."@);
    assert(t[8].values[0] == "normal"@);
    assert(option_sound(t[8]));
    assert("obsopt.bframes"@.subrange(0, 7) =~= "obsopt."@);
    assert(option_sound(t[9]));
    assert("obsopt.repeat_headers"@.subrange(0, 7) =~= "obsopt."@);
    assert(option_sound(t[10]));
}

proof fn lemma_amf_keys()
    ensures
        keys_distinct(amf_table()),
        amf_table().len() == 9,
{
    reveal_strlit("rate_control");
    reveal_strlit("bitrate");
    reveal_strlit("cqp");
    reveal_strlit("keyint_sec");
    reveal_strlit("preset");
    reveal_strlit("profile");
    reveal_strlit("bf");
    reveal_strlit("pre_analysis");
    reveal_strlit("ffmpeg_opts");
    let t = amf_table();
    assert(key_mark(t[0].key) == (12nat, 'r', 'a'));
    assert(key_mark(t[1].key) == (7nat, 'b', 'i'));
    assert(key_mark(t[2].key) == (3nat, 'c', 'q'));
    assert(key_mark(t[3].key) == (10nat, 'k', 'e'));
    assert(key_mark(t[4].key) == (6nat, 'p', 'r'));
    assert(key_mark(t[5].key) == (7nat, 'p', 'r'));
    assert(key_mark(t[6].key) == (2nat, 'b', 'f'));
    assert(key_mark(t[7].key) == (12nat, 'p', 'r'));
    assert(key_mark(t[8].key) == (11nat, 'f', 'f'));
    assert forall|i: int, j: int| 0 <= i < t.len() && 0 <= j < t.len() && i != j implies (
    #[trigger] t[i]).key != (#[trigger] t[j]).key by {
        assert(key_mark(t[i].key) != key_mark(t[j].key));
    }
}

proof fn lemma_amf_sound()
    ensures
        forall|i: int| 0 <= i < amf_table().len() ==> option_sound(#[trigger] amf_table()[i]),
{
    let t = amf_table();
    reveal_strlit("obsopt.");
    reveal_strlit("obsopt.amf_preset");
    reveal_strlit("obsopt.bframes");
    reveal_strlit("obsopt.bitrate");
    reveal_strlit("obsopt.cqp");
    reveal_strlit("obsopt.keyint");
    reveal_strlit("obsopt.opts");
    reveal_strlit("obsopt.preanalysis");
    reveal_strlit("obsopt.profile");
    reveal_strlit("obsopt.rate_control");
    assert("obsopt.rate_control"@.subrange(0, 7) =~= "obsopt."@);
    assert(t[0].values[0] == "CBR"@);
    assert(option_sound(t[0]));
    assert("obsopt.bitrate"@.subrange(0, 7) =~= "obsopt."@);
    assert(option_sound(t[1]));
    assert("obsopt.cqp"@.subrange(0, 7) =~= "obsopt."@);
    assert(option_sound(t[2]));
    assert("obsopt.keyint"@.subrange(0, 7) =~= "obsopt."@);
    assert(option_sound(t[3]));
    assert("obsopt.amf_preset"@.subrange(0, 7) =~= "obsopt."@);
    assert(t[4].values[2] == "quality"@);
    assert(strs(AMF_PRESETS_AVC_HEVC@)[2] == "quality"@);
    assert(strs(AMF_PRESETS_AV1@)[0] == "highQuality"@);
    reveal_strlit("h264");
    reveal_strlit("hevc");
    reveal_strlit("av1");
    assert("h264"@[1] == '2' && "hevc"@[1] == 'e');
    reveal_with_fuel(for_codec, 4);
    assert(for_codec(t[4].codec_values, "av1"@) == Some(strs(AMF_PRESETS_AV1@)));
    assert(option_sound(t[4]));
    assert("obsopt.profile"@.subrange(0, 7) =~= "obsopt."@);
    assert(t[5].values[0] == "high"@);
    assert(strs(MAIN_ONLY@)[0] == "main"@);
    reveal_strlit("h264");
    reveal_strlit("hevc");
    reveal_strlit("av1");
    assert("h264"@[1] == '2' && "hevc"@[1] == 'e');
    reveal_with_fuel(for_codec, 4);
    assert(for_codec(t[5].codec_values, "av1"@) == Some(strs(MAIN_ONLY@)));
    assert(option_sound(t[5]));
    assert("obsopt.bframes"@.subrange(0, 7) =~= "obsopt."@);
    assert(option_sound(t[6]));
    assert("obsopt.preanalysis"@.subrange(0, 7) =~= "obsopt."@);
    assert(option_sound(t[7]));
    assert("obsopt.opts"@.subrange(0, 7) =~= "obsopt."@);
    assert(option_sound(t[8]));
}

proof fn lemma_vaapi_keys()
    ensures
        keys_distinct(vaapi_table()),
        vaapi_table().len() == 10,
{
    reveal_strlit("vaapi_device");
    reveal_strlit("rate_control");
    reveal_strlit("profile");
    reveal_strlit("level");
    reveal_strlit("bitrate");
    reveal_strlit("maxrate");
    reveal_strlit("qp");
    reveal_strlit("keyint_sec");
    reveal_strlit("bf");
    reveal_strlit("ffmpeg_opts");
    let t = vaapi_table();
    assert(key_mark(t[0].key) == (12nat, 'v', 'a'));
    assert(key_mark(t[1].key) == (12nat, 'r', 'a'));
    assert(key_mark(t[2].key) == (7nat, 'p', 'r'));
    assert(key_mark(t[3].key) == (5nat, 'l', 'e'));
    assert(key_mark(t[4].key) == (7nat, 'b', 'i'));
    assert(key_mark(t[5].key) == (7nat, 'm', 'a'));
    assert(key_mark(t[6].key) == (2nat, 'q', 'p'));
    assert(key_mark(t[7].key) == (10nat, 'k', 'e'));
    assert(key_mark(t[8].key) == (2nat, 'b', 'f'));
    assert(key_mark(t[9].key) == (11nat, 'f', 'f'));
    assert forall|i: int, j: int| 0 <= i < t.len() && 0 <= j < t.len() && i != j implies (
    #[trigger] t[i]).key != (#[trigger] t[j]).key by {
        assert(key_mark(t[i].key) != key_mark(t[j].key));
    }
}

proof fn lemma_vaapi_sound()
    ensures
        forall|i: int| 0 <= i < vaapi_table().len() ==> option_sound(#[trigger] vaapi_table()[i]),
{
    let t = vaapi_table();
    reveal_strlit("obsopt.");
    reveal_strlit("obsopt.bframes");
    reveal_strlit("obsopt.bitrate");
    reveal_strlit("obsopt.keyint");
    reveal_strlit("obsopt.level");
    reveal_strlit("obsopt.maxrate");
    reveal_strlit("obsopt.opts");
    reveal_strlit("obsopt.profile");
    reveal_strlit("obsopt.qp");
    reveal_strlit("obsopt.rate_control");
    reveal_strlit("obsopt.vaapi_device");
    assert("obsopt.vaapi_device"@.subrange(0, 7) =~= "obsopt."@);
    assert(option_sound(t[0]));
    assert("obsopt.rate_control"@.subrange(0, 7) =~= "obsopt."@);
    assert(t[1].values[0] == "CBR"@);
    assert(option_sound(t[1]));
    assert("obsopt.profile"@.subrange(0, 7) =~= "obsopt."@);
    assert(option_sound(t[2]));
    assert("obsopt.level"@.subrange(0, 7) =~= "obsopt."@);
    assert(option_sound(t[3]));
    assert("obsopt.bitrate"@.subrange(0, 7) =~= "obsopt."@);
    assert(option_sound(t[4]));
    assert("obsopt.maxrate"@.subrange(0, 7) =~= "obsopt."@);
    assert(option_sound(t[5]));
    assert("obsopt.qp"@.subrange(0, 7) =~= "obsopt."@);
    assert(option_sound(t[6]));
    assert("obsopt.keyint"@.subrange(0, 7) =~= "obsopt."@);
    assert(option_sound(t[7]));
    assert("obsopt.bframes"@.subrange(0, 7) =~= "obsopt."@);
    assert(option_sound(t[8]));
    assert("obsopt.opts"@.subrange(0, 7) =~= "obsopt."@);
    assert(option_sound(t[9]));
}

/// In every family no two options share a key, and every option is consistent.
pub proof fn law_tables_are_sound(family: EncoderFamily)
    ensures
        option_table(family).len() > 0,
        keys_distinct(option_table(family)),
        forall|i: int|
            0 <= i < option_table(family).len() ==> option_sound(#[trigger] option_table(family)[i]),
{
    match family {
        EncoderFamily::Nvenc => {
            lemma_nvenc_keys();
            lemma_nvenc_sound();
        },
        EncoderFamily::X264 => {
            lemma_x264_keys();
            lemma_x264_sound();
        },
        EncoderFamily::Qsv => {
            lemma_qsv_keys();
            lemma_qsv_sound();
        },
        EncoderFamily::Amf => {
            lemma_amf_keys();
            lemma_amf_sound();
        },
        EncoderFamily::Vaapi => {
            lemma_vaapi_keys();
            lemma_vaapi_sound();
        },
    }
}

proof fn lemma_codec_entry<V>(pairs: Seq<(Seq<char>, V)>, codec: Seq<char>)
    ensures
        match for_codec(pairs, codec) {
            Some(v) => exists|i: int| 0 <= i < pairs.len() && #[trigger] pairs[i] == (codec, v),
            None => forall|i: int| 0 <= i < pairs.len() ==> (#[trigger] pairs[i]).0 != codec,
        },
    decreases pairs.len(),
{
    if pairs.len() > 0 && pairs[0].0 != codec {
        let rest = pairs.drop_first();
        lemma_codec_entry(rest, codec);
        assert forall|i: int| 1 <= i < pairs.len() implies #[trigger] pairs[i] == rest[i - 1] by {}
        match for_codec(rest, codec) {
            Some(v) => {
                let i = choose|i: int| 0 <= i < rest.len() && #[trigger] rest[i] == (codec, v);
                assert(pairs[i + 1] == (codec, v));
            },
            None => {},
        }
    } else if pairs.len() > 0 {
        assert(pairs[0] == (codec, pairs[0].1));
    }
}

proof fn lemma_codec_range(ranges: Seq<(Seq<char>, int, int)>, codec: Seq<char>, min: int, max: int)
    ensures
        range_for_codec(ranges, codec, min, max) == (min, max) || exists|i: int|
            0 <= i < ranges.len() && range_for_codec(ranges, codec, min, max) == (
                (#[trigger] ranges[i]).1,
                ranges[i].2,
            ),
    decreases ranges.len(),
{
    if ranges.len() > 0 {
        let last = ranges[ranges.len() - 1];
        if last.0 != codec {
            let init = ranges.drop_last();
            lemma_codec_range(init, codec, min, max);
            if range_for_codec(init, codec, min, max) != (min, max) {
                let i = choose|i: int|
                    0 <= i < init.len() && range_for_codec(init, codec, min, max) == (
                        (#[trigger] init[i]).1,
                        init[i].2,
                    );
                assert(ranges[i] == init[i]);
            }
        }
    }
}

/// The option of a codec is that of the table, with its key, kind, step and
/// label. It is there where the table names no codec or this one. What it is
/// set to by default can be chosen: a text of its list, an integer of its range.
pub proof fn law_resolved_default_can_be_chosen(family: EncoderFamily, codec: Seq<char>, i: int)
    requires
        0 <= i < option_table(family).len(),
    ensures
        resolved_table(family, codec).len() == option_table(family).len(),
        ({
            let o = option_table(family)[i];
            let r = resolved_table(family, codec)[i];
            &&& r.key == o.key && r.kind == o.kind && r.step == o.step && r.i18n == o.i18n
            &&& r.supported <==> o.codecs.len() == 0 || o.codecs.contains(codec)
            &&& r.kind == SpecKind::Enum ==> (r.default matches Some(DefaultModel::Str(d))
                && r.values.contains(d))
            &&& r.kind == SpecKind::Int ==> (r.default matches Some(DefaultModel::Int(d)) ==> r.min
                <= d <= r.max)
        }),
{
    law_tables_are_sound(family);
    let o = option_table(family)[i];
    let r = resolved_table(family, codec)[i];
    assert(r == resolve_option(o, codec));
    assert(option_sound(o));
    lemma_codec_entry(o.codec_values, codec);
    lemma_codec_entry(o.codec_defaults, codec);
    lemma_codec_range(o.codec_range, codec, o.min, o.max);
    lemma_defaults_are_texts(family, i);
}

proof fn lemma_defaults_are_texts(family: EncoderFamily, i: int)
    requires
        0 <= i < option_table(family).len(),
    ensures
        forall|k: int|
            0 <= k < option_table(family)[i].codec_defaults.len() ==> (
            #[trigger] option_table(family)[i].codec_defaults[k]).1 is Str,
{
}

/// The color formats start with NV12. x264 never takes P010, and QSV's H.264
/// takes NV12 alone. Where an option offers a value that needs 10 bit, the
/// codec takes P010.
pub proof fn law_10bit_value_has_its_format(family: EncoderFamily, codec: Seq<char>, i: int)
    requires
        0 <= i < resolved_table(family, codec).len(),
    ensures
        color_formats(family, codec).len() > 0,
        color_formats(family, codec)[0] == "NV12"@,
        family == EncoderFamily::X264 ==> !color_formats(family, codec).contains("P010"@),
        family == EncoderFamily::Qsv && codec == "h264"@ ==> color_formats(family, codec)
            == seq!["NV12"@],
        ({
            let r = resolved_table(family, codec)[i];
            (exists|v: Seq<char>| #[trigger] r.values.contains(v) && r.p010_values.contains(v))
                || (exists|n: i64| #[trigger] r.int_values.contains(n) && r.p010_ints.contains(n))
                ==> color_formats(family, codec).contains("P010"@)
        }),
{
    let o = option_table(family)[i];
    let r = resolved_table(family, codec)[i];
    let formats = color_formats(family, codec);
    assert(r == resolve_option(o, codec));
    reveal_strlit("NV12");
    reveal_strlit("I420");
    reveal_strlit("I444");
    reveal_strlit("P010");
    lemma_codec_names();
    reveal_with_fuel(for_codec, 4);
    match family {
        EncoderFamily::Nvenc => {
            assert(formats[3] == "P010"@);
        },
        EncoderFamily::X264 => {
            assert("P010"@[0] == 'P' && "NV12"@[0] == 'N' && "I420"@[0] == 'I' && "I444"@[0] == 'I');
        },
        EncoderFamily::Qsv => {
            if codec == "h264"@ {
                assert(formats =~= seq!["NV12"@]);
                reveal_strlit("baseline");
                reveal_strlit("main");
                reveal_strlit("high");
                reveal_strlit("main10");
                if i == 6 {
                    assert(r.values == strs(QSV_PROFILES_H264@));
                    assert(r.p010_values == strs(MAIN10_ONLY@));
                    assert forall|v: Seq<char>| #[trigger] r.values.contains(v) implies v.len() != 6 by {}
                }
            } else {
                assert(formats[1] == "P010"@);
            }
        },
        EncoderFamily::Amf => {},
        EncoderFamily::Vaapi => {
            if codec == "hevc"@ || codec == "av1"@ {
                assert(formats[1] == "P010"@);
            } else if i == 2 {
                assert(r.p010_ints == VAAPI_P010_PROFILES@);
                if codec == "h264"@ {
                    assert(r.int_values == VAAPI_PROFILE_H264@);
                } else {
                    assert(r.int_values.len() == 0);
                }
            }
        },
    }
}

// ---------------------------------------------------------------------------
// Catalogs
// ---------------------------------------------------------------------------
/// Length and two characters: enough to tell the encoder ids apart.
spec fn id_mark(s: Seq<char>) -> (nat, char, char) {
    (
        s.len(),
        s[0],
        if s.len() == 18 {
            s[11]
        } else {
            s[3]
        },
    )
}

proof fn lemma_id_marks()
    ensures
        id_mark("av1_ffmpeg_vaapi"@) == (16nat, 'a', '_'),
        id_mark("av1_texture_amf"@) == (15nat, 'a', '_'),
        id_mark("ffmpeg_vaapi"@) == (12nat, 'f', 'p'),
        id_mark("h264_texture_amf"@) == (16nat, 'h', '4'),
        id_mark("h265_texture_amf"@) == (16nat, 'h', '5'),
        id_mark("hevc_ffmpeg_vaapi"@) == (17nat, 'h', 'c'),
        id_mark("obs_nvenc_av1_tex"@) == (17nat, 'o', '_'),
        id_mark("obs_nvenc_h264_tex"@) == (18nat, 'o', '2'),
        id_mark("obs_nvenc_hevc_tex"@) == (18nat, 'o', 'e'),
        id_mark("obs_qsv11_av1"@) == (13nat, 'o', '_'),
        id_mark("obs_qsv11_hevc"@) == (14nat, 'o', '_'),
        id_mark("obs_qsv11_v2"@) == (12nat, 'o', '_'),
        id_mark("obs_x264"@) == (8nat, 'o', '_'),
{
    reveal_strlit("av1_ffmpeg_vaapi");
    reveal_strlit("av1_texture_amf");
    reveal_strlit("ffmpeg_vaapi");
    reveal_strlit("h264_texture_amf");
    reveal_strlit("h265_texture_amf");
    reveal_strlit("hevc_ffmpeg_vaapi");
    reveal_strlit("obs_nvenc_av1_tex");
    reveal_strlit("obs_nvenc_h264_tex");
    reveal_strlit("obs_nvenc_hevc_tex");
    reveal_strlit("obs_qsv11_av1");
    reveal_strlit("obs_qsv11_hevc");
    reveal_strlit("obs_qsv11_v2");
    reveal_strlit("obs_x264");
}

proof fn lemma_find_functional(catalog: Seq<EntryModel>, i: int)
    requires
        0 <= i < catalog.len(),
        forall|j: int|
            0 <= j < catalog.len() && (#[trigger] catalog[j]).id == catalog[i].id ==> catalog[j]
                == catalog[i],
    ensures
        find_entry(catalog, catalog[i].id) == Some(catalog[i]),
    decreases catalog.len(),
{
    if catalog[0].id != catalog[i].id {
        let rest = catalog.drop_first();
        assert(rest[i - 1] == catalog[i]);
        assert forall|j: int| 0 <= j < rest.len() && (#[trigger] rest[j]).id == catalog[i].id implies rest[j]
            == catalog[i] by {
            assert(rest[j] == catalog[j + 1]);
        }
        lemma_find_functional(rest, i - 1);
    }
}

/// Every id of a catalog resolves to its own entry, and no catalog lists an id twice.
pub proof fn law_catalog_ids_resolve()
    ensures
        forall|i: int|
            0 <= i < windows_catalog().len() ==> known_encoder((#[trigger] windows_catalog()[i]).id)
                == Some(windows_catalog()[i]),
        forall|i: int|
            0 <= i < linux_catalog().len() ==> known_encoder((#[trigger] linux_catalog()[i]).id)
                == Some(linux_catalog()[i]),
        forall|i: int, j: int|
            0 <= i < j < windows_catalog().len() ==> (#[trigger] windows_catalog()[i]).id != (
            #[trigger] windows_catalog()[j]).id,
        forall|i: int, j: int|
            0 <= i < j < linux_catalog().len() ==> (#[trigger] linux_catalog()[i]).id != (
            #[trigger] linux_catalog()[j]).id,
{
    lemma_id_marks();
    let w = windows_catalog();
    let l = linux_catalog();
    let all = w + l;
    assert(id_mark(w[0].id) == (18nat, 'o', '2'));
    assert(id_mark(w[1].id) == (18nat, 'o', 'e'));
    assert(id_mark(w[2].id) == (17nat, 'o', '_'));
    assert(id_mark(w[3].id) == (16nat, 'h', '4'));
    assert(id_mark(w[4].id) == (16nat, 'h', '5'));
    assert(id_mark(w[5].id) == (15nat, 'a', '_'));
    assert(id_mark(w[6].id) == (12nat, 'o', '_'));
    assert(id_mark(w[7].id) == (14nat, 'o', '_'));
    assert(id_mark(w[8].id) == (13nat, 'o', '_'));
    assert(id_mark(w[9].id) == (8nat, 'o', '_'));
    assert(id_mark(l[0].id) == (18nat, 'o', '2'));
    assert(id_mark(l[1].id) == (18nat, 'o', 'e'));
    assert(id_mark(l[2].id) == (17nat, 'o', '_'));
    assert(id_mark(l[3].id) == (12nat, 'o', '_'));
    assert(id_mark(l[4].id) == (14nat, 'o', '_'));
    assert(id_mark(l[5].id) == (13nat, 'o', '_'));
    assert(id_mark(l[6].id) == (12nat, 'f', 'p'));
    assert(id_mark(l[7].id) == (17nat, 'h', 'c'));
    assert(id_mark(l[8].id) == (16nat, 'a', '_'));
    assert(id_mark(l[9].id) == (8nat, 'o', '_'));
    assert forall|i: int, j: int| 0 <= i < j < w.len() implies (#[trigger] w[i]).id != (
    #[trigger] w[j]).id by {
        assert(id_mark(w[i].id) != id_mark(w[j].id));
    }
    assert forall|i: int, j: int| 0 <= i < j < l.len() implies (#[trigger] l[i]).id != (
    #[trigger] l[j]).id by {
        assert(id_mark(l[i].id) != id_mark(l[j].id));
    }
    assert forall|i: int, j: int|
        0 <= i < w.len() && 0 <= j < l.len() && (#[trigger] w[i]).id == (#[trigger] l[j]).id implies w[i]
        == l[j] by {
        assert(id_mark(w[i].id) == id_mark(l[j].id));
    }
    assert forall|i: int| 0 <= i < w.len() implies known_encoder((#[trigger] w[i]).id) == Some(
        w[i],
    ) by {
        assert(all[i] == w[i]);
        assert forall|j: int| 0 <= j < all.len() && (#[trigger] all[j]).id == all[i].id implies all[j]
            == all[i] by {
            if j < w.len() {
                assert(all[j] == w[j]);
            } else {
                assert(all[j] == l[j - w.len()]);
            }
        }
        lemma_find_functional(all, i);
    }
    assert forall|i: int| 0 <= i < l.len() implies known_encoder((#[trigger] l[i]).id) == Some(
        l[i],
    ) by {
        let k = i + w.len();
        assert(all[k] == l[i]);
        assert forall|j: int| 0 <= j < all.len() && (#[trigger] all[j]).id == all[k].id implies all[j]
            == all[k] by {
            if j < w.len() {
                assert(all[j] == w[j]);
            } else {
                assert(all[j] == l[j - w.len()]);
            }
        }
        lemma_find_functional(all, k);
    }
}

// ---------------------------------------------------------------------------
// Recipes
// ---------------------------------------------------------------------------
proof fn lemma_find_option(options: Seq<ResolvedModel>, i: int)
    requires
        0 <= i < options.len(),
        forall|j: int| 0 <= j < options.len() && j != i ==> (#[trigger] options[j]).key != options[i].key,
    ensures
        find_option(options, options[i].key) == Some(options[i]),
    decreases options.len(),
{
    if i > 0 {
        let rest = options.drop_first();
        assert(options[0].key != options[i].key);
        assert(rest[i - 1] == options[i]);
        assert forall|j: int| 0 <= j < rest.len() && j != i - 1 implies (#[trigger] rest[j]).key
            != rest[i - 1].key by {
            assert(rest[j] == options[j + 1]);
        }
        lemma_find_option(rest, i - 1);
    }
}

/// The option of a key of the table is found for every codec.
pub proof fn lemma_table_option(family: EncoderFamily, codec: Seq<char>, i: int)
    requires
        0 <= i < option_table(family).len(),
    ensures
        find_option(resolved_table(family, codec), option_table(family)[i].key) == Some(
            resolve_option(option_table(family)[i], codec),
        ),
{
    law_tables_are_sound(family);
    let t = option_table(family);
    let options = resolved_table(family, codec);
    assert(options[i] == resolve_option(t[i], codec));
    assert forall|j: int| 0 <= j < options.len() && j != i implies (#[trigger] options[j]).key
        != options[i].key by {
        assert(options[j] == resolve_option(t[j], codec));
        assert(t[j].key != t[i].key);
    }
    lemma_find_option(options, i);
}

proof fn lemma_no_error(
    options: Seq<ResolvedModel>,
    codec: Seq<char>,
    settings: Seq<(Seq<char>, JsonModel)>,
    color_format: Option<Seq<char>>,
)
    requires
        forall|i: int|
            0 <= i < settings.len() ==> setting_error(
                find_option(options, (#[trigger] settings[i]).0),
                codec,
                settings[i].0,
                settings[i].1,
                color_format,
            ) is None,
    ensures
        settings_error(options, codec, settings, color_format) is None,
    decreases settings.len(),
{
    if settings.len() > 0 {
        let rest = settings.drop_first();
        assert forall|i: int| 0 <= i < rest.len() implies setting_error(
            find_option(options, (#[trigger] rest[i]).0),
            codec,
            rest[i].0,
            rest[i].1,
            color_format,
        ) is None by {
            assert(rest[i] == settings[i + 1]);
        }
        assert(settings[0] == settings[0]);
        lemma_no_error(options, codec, rest, color_format);
    }
}

/// The lowest and the highest bitrate that a family takes.
pub open spec fn bitrate_range(family: EncoderFamily, codec: Seq<char>) -> (int, int) {
    match find_option(resolved_table(family, codec), "bitrate"@) {
        Some(o) => (o.min, o.max),
        None => (0, 0),
    }
}

/// The automatic recipe passes the checks of every family, codec and color
/// format, at every bitrate that the family takes.
pub proof fn law_auto_recipe_passes_everywhere(
    family: EncoderFamily,
    codec: Seq<char>,
    bitrate_kbps: nat,
    color_format: Option<Seq<char>>,
)
    requires
        bitrate_range(family, codec).0 <= bitrate_kbps <= bitrate_range(family, codec).1,
    ensures
        settings_error(
            resolved_table(family, codec),
            codec,
            auto_settings(bitrate_kbps),
            color_format,
        ) is None,
{
    let t = option_table(family);
    let (b, r): (int, int) = match family {
        EncoderFamily::Vaapi => (4, 1),
        _ => (1, 0),
    };
    lemma_table_option(family, codec, b);
    lemma_table_option(family, codec, r);
    assert(t[b].key == "bitrate"@);
    assert(t[r].key == "rate_control"@);
    assert(t[r].values[0] == "CBR"@);
    assert(for_codec(t[r].codec_values, codec) is None);
    assert(t[b].codec_int_values.len() == 0);
    assert(for_codec(t[b].codec_int_values, codec) is None);
    assert(range_for_codec(t[b].codec_range, codec, t[b].min, t[b].max) == (t[b].min, t[b].max));
    assert(bitrate_range(family, codec) == (t[b].min, t[b].max));
    lemma_no_error(resolved_table(family, codec), codec, auto_settings(bitrate_kbps), color_format);
}

proof fn lemma_codec_names()
    ensures
        "h264"@ != "hevc"@,
        "h264"@ != "av1"@,
        "hevc"@ != "av1"@,
{
    reveal_strlit("h264");
    reveal_strlit("hevc");
    reveal_strlit("av1");
    assert("h264"@[1] == '2' && "hevc"@[1] == 'e');
}

/// The measured recipe of x264 passes the checks of its family, whatever the
/// codec and color format.
pub proof fn law_x264_recipe_passes(codec: Seq<char>, bitrate_kbps: nat, color_format: Option<Seq<char>>)
    requires
        bitrate_range(EncoderFamily::X264, codec).0 <= bitrate_kbps <= bitrate_range(
            EncoderFamily::X264,
            codec,
        ).1,
    ensures
        settings_error(
            resolved_table(EncoderFamily::X264, codec),
            codec,
            x264_settings(bitrate_kbps),
            color_format,
        ) is None,
{
    let f = EncoderFamily::X264;
    let t = option_table(f);
    lemma_table_option(f, codec, 0);
    lemma_table_option(f, codec, 1);
    lemma_table_option(f, codec, 5);
    lemma_table_option(f, codec, 6);
    lemma_table_option(f, codec, 7);
    assert(t[0].values[0] == "CBR"@);
    assert(t[6].values[2] == "veryfast"@);
    assert(t[7].values[3] == "high"@);
    lemma_no_error(resolved_table(f, codec), codec, x264_settings(bitrate_kbps), color_format);
}

/// The measured recipe of NVENC passes the checks of its family for the three
/// codecs, every bitrate that it takes and every GPU that the registry can name.
pub proof fn law_nvenc_recipe_passes(
    codec: Seq<char>,
    bitrate_kbps: nat,
    gpu_index: nat,
    color_format: Option<Seq<char>>,
)
    requires
        codec == "h264"@ || codec == "hevc"@ || codec == "av1"@,
        gpu_index <= 16,
        bitrate_range(EncoderFamily::Nvenc, codec).0 <= bitrate_kbps <= bitrate_range(
            EncoderFamily::Nvenc,
            codec,
        ).1,
    ensures
        settings_error(
            resolved_table(EncoderFamily::Nvenc, codec),
            codec,
            nvenc_settings(bitrate_kbps, gpu_index, codec),
            color_format,
        ) is None,
{
    let f = EncoderFamily::Nvenc;
    let t = option_table(f);
    lemma_codec_names();
    lemma_table_option(f, codec, 0);
    lemma_table_option(f, codec, 1);
    lemma_table_option(f, codec, 2);
    lemma_table_option(f, codec, 5);
    lemma_table_option(f, codec, 6);
    lemma_table_option(f, codec, 7);
    lemma_table_option(f, codec, 8);
    lemma_table_option(f, codec, 9);
    lemma_table_option(f, codec, 10);
    lemma_table_option(f, codec, 11);
    lemma_table_option(f, codec, 12);
    lemma_table_option(f, codec, 13);
    assert(t[0].values[0] == "CBR"@);
    assert(t[6].values[4] == "p5"@);
    assert(t[7].values[1] == "hq"@);
    assert(t[8].values[0] == "disabled"@);
    let p = resolve_option(t[9], codec);
    let name = if codec == "hevc"@ || codec == "av1"@ {
        "main"@
    } else {
        "high"@
    };
    reveal_with_fuel(for_codec, 4);
    assert(p.values.contains(name)) by {
        if codec == "h264"@ {
            assert(p.values == strs(NVENC_PROFILES_H264@));
            assert(p.values[0] == name);
        } else if codec == "hevc"@ {
            assert(p.values == strs(NVENC_PROFILES_HEVC@));
            assert(p.values[1] == name);
        } else {
            assert(p.values == strs(MAIN_ONLY@));
            assert(p.values[0] == name);
        }
    }
    assert(!p.p010_values.contains(name)) by {
        reveal_strlit("main");
        reveal_strlit("high");
        reveal_strlit("main10");
        reveal_strlit("high10");
        assert(name.len() == 4) by {
            assert("main"@.len() == 4 && "high"@.len() == 4);
        }
        assert("main10"@.len() == 6 && "high10"@.len() == 6);
        assert(p.p010_values.len() == 2);
        assert(p.p010_values[0] == "high10"@ && p.p010_values[1] == "main10"@);
    }
    lemma_no_error(
        resolved_table(f, codec),
        codec,
        nvenc_settings(bitrate_kbps, gpu_index, codec),
        color_format,
    );
}

/// A ladder recipe exists for exactly the encoders of the catalogs, and passes
/// the checks of its family for the encoder's own codec.
pub proof fn law_ladder_recipe_passes(
    encoder_id: Seq<char>,
    bitrate_kbps: nat,
    gpu_index: nat,
    color_format: Option<Seq<char>>,
)
    requires
        gpu_index <= 16,
    ensures
        known_encoder(encoder_id) matches Some(entry) ==> {
            let recipe = ladder_settings(encoder_id, bitrate_kbps, gpu_index, entry.codec);
            &&& recipe is Some
            &&& bitrate_range(entry.family, entry.codec).0 <= bitrate_kbps <= bitrate_range(
                entry.family,
                entry.codec,
            ).1 ==> settings_error(
                resolved_table(entry.family, entry.codec),
                entry.codec,
                recipe->0,
                color_format,
            ) is None
        },
        known_encoder(encoder_id) is None ==> forall|codec: Seq<char>|
            #[trigger] ladder_settings(encoder_id, bitrate_kbps, gpu_index, codec) is None,
{
    if known_encoder(encoder_id) is Some {
        let e = known_encoder(encoder_id)->0;
        lemma_found_codec(windows_catalog() + linux_catalog(), encoder_id);
        if bitrate_range(e.family, e.codec).0 <= bitrate_kbps <= bitrate_range(e.family, e.codec).1 {
            match e.family {
                EncoderFamily::Nvenc => {
                    law_nvenc_recipe_passes(e.codec, bitrate_kbps, gpu_index, color_format);
                },
                EncoderFamily::X264 => {
                    law_x264_recipe_passes(e.codec, bitrate_kbps, color_format);
                },
                _ => {
                    law_auto_recipe_passes_everywhere(e.family, e.codec, bitrate_kbps, color_format);
                },
            }
        }
    }
}

proof fn lemma_found_codec(catalog: Seq<EntryModel>, id: Seq<char>)
    requires
        forall|i: int|
            0 <= i < catalog.len() ==> {
                let c = (#[trigger] catalog[i]).codec;
                c == "h264"@ || c == "hevc"@ || c == "av1"@
            },
    ensures
        find_entry(catalog, id) matches Some(e) ==> e.codec == "h264"@ || e.codec == "hevc"@
            || e.codec == "av1"@,
    decreases catalog.len(),
{
    if catalog.len() > 0 && catalog[0].id != id {
        assert forall|i: int| 0 <= i < catalog.drop_first().len() implies {
            let c = (#[trigger] catalog.drop_first()[i]).codec;
            c == "h264"@ || c == "hevc"@ || c == "av1"@
        } by {
            assert(catalog.drop_first()[i] == catalog[i + 1]);
        }
        lemma_found_codec(catalog.drop_first(), id);
    }
}

} // verus!
