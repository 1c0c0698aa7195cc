//! What the settings page offers: codecs, heights, encoders with their option
//! forms, and the current choices. No text for people crosses this border,
//! only keys.

use vstd::prelude::*;

use crate::api::{opt_video, CustomEncoder, CustomEncoderModel, CustomVideo, CustomVideoModel};
use crate::encoder_custom::{
    custom_encoder_read, custom_video_of, check_custom_video, parse_custom_encoder, video_doc,
    FPS_COMMON_VALUES, FPS_TYPES,
};
use crate::encoder_options::{
    color_formats, families_for_vendor, family_validated, is_validated, known_encoder,
    lookup_encoder, resolved_models, resolved_options, resolved_table, settings_error,
    valid_color_formats, validate_pair, vendor_families, EncoderEntry, EntryModel, ResolvedModel,
    ResolvedOption, COLOR_RANGES, COLOR_SPACES, SCALE_FILTERS,
};
use crate::encoder_tables::{strs, DefaultModel, EncoderFamily, SpecDefault, SpecKind, VisibleModel, VisibleRule};
use crate::json::{json_entries, json_parse, Json, JsonModel, JsonRead};
use crate::records::{
    field_models, read_record, record_fields, text_at, text_field, whole_at, whole_field,
};
use crate::linux::video::Monitor;
use crate::settings::{ladder_fps, ladder_fps_of, number_setting, setting, setting_str, setting_u32, TextMap};
use crate::text::{cat, decimal, decimal_of, opt_text, same, texts, trim, trimmed};

verus! {

broadcast use vstd::string::group_string_axioms;

/// The texts of a fixed list.
fn owned(list: &[&'static str]) -> (r: Vec<String>)
    ensures
        texts(r@) == strs(list@),
{
    let ghost all = strs(list@);
    let mut out: Vec<String> = Vec::new();
    let mut i: usize = 0;
    while i < list.len()
        invariant
            all == strs(list@),
            i <= list@.len(),
            texts(out@) =~= all.take(i as int),
        decreases list@.len() - i,
    {
        let ghost before = out@;
        out.push(list[i].to_owned());
        proof {
            assert(texts(out@) =~= texts(before).push(all[i as int]));
        }
        i = i + 1;
    }
    proof {
        assert(texts(out@) =~= all);
    }
    out
}

// ---------------------------------------------------------------------------
// Codecs and heights
// ---------------------------------------------------------------------------
/// A codec to choose.
#[derive(Debug, Clone)]
pub struct CodecOpt {
    pub id: String,
}

/// The ids of a list of codecs.
pub open spec fn codec_ids(v: Seq<CodecOpt>) -> Seq<Seq<char>> {
    v.map_values(|c: CodecOpt| c.id@)
}

/// A codec that is known to work.
pub open spec fn is_offerable(id: Seq<char>) -> bool {
    id == "h264"@ || id == "hevc"@ || id == "av1"@ || id == "x264"@
}

/// The known codecs among those that the platform has, each once, in order.
pub open spec fn known_codecs(offered: Seq<Seq<char>>) -> Seq<Seq<char>>
    decreases offered.len(),
{
    if offered.len() == 0 {
        Seq::empty()
    } else {
        let init = known_codecs(offered.drop_last());
        let id = offered.last();
        if is_offerable(id) && !init.contains(id) {
            init.push(id)
        } else {
            init
        }
    }
}

/// The codecs to choose from. H.264 always is one.
pub open spec fn codec_choice(offered: Seq<Seq<char>>) -> Seq<Seq<char>> {
    if known_codecs(offered).len() == 0 {
        seq!["h264"@]
    } else {
        known_codecs(offered)
    }
}

fn has_codec(codecs: &Vec<CodecOpt>, id: &str) -> (r: bool)
    ensures
        r == codec_ids(codecs@).contains(id@),
{
    let ghost all = codec_ids(codecs@);
    let mut i: usize = 0;
    while i < codecs.len()
        invariant
            all == codec_ids(codecs@),
            i <= codecs@.len(),
            forall|k: int| 0 <= k < i ==> all[k] != id@,
        decreases codecs@.len() - i,
    {
        proof {
            assert(all[i as int] == codecs@[i as int].id@);
        }
        if same(codecs[i].id.as_str(), id) {
            return true;
        }
        i = i + 1;
    }
    false
}

/// Codecs to choose from.
pub fn offer_codecs(offered: &Vec<String>) -> (r: Vec<CodecOpt>)
    ensures
        codec_ids(r@) == codec_choice(texts(offered@)),
{
    let ghost all = texts(offered@);
    let mut out: Vec<CodecOpt> = Vec::new();
    let mut i: usize = 0;
    proof {
        assert(all.take(0) =~= Seq::<Seq<char>>::empty());
        assert(codec_ids(out@) =~= Seq::<Seq<char>>::empty());
    }
    while i < offered.len()
        invariant
            all == texts(offered@),
            i <= offered@.len(),
            codec_ids(out@) == known_codecs(all.take(i as int)),
        decreases offered@.len() - i,
    {
        let id = offered[i].as_str();
        proof {
            assert(all.take(i + 1).drop_last() =~= all.take(i as int));
            assert(all.take(i + 1).last() == id@);
        }
        let known = same(id, "h264") || same(id, "hevc") || same(id, "av1") || same(id, "x264");
        if known && !has_codec(&out, id) {
            let ghost before = out@;
            out.push(CodecOpt { id: id.to_owned() });
            proof {
                assert(codec_ids(out@) =~= codec_ids(before).push(id@));
            }
        }
        i = i + 1;
    }
    proof {
        assert(all.take(all.len() as int) =~= all);
        assert(codec_ids(out@).len() == out@.len());
    }
    if out.len() == 0 {
        out.push(CodecOpt { id: "h264".to_owned() });
        proof {
            assert(codec_ids(out@) =~= seq!["h264"@]);
        }
    }
    out
}

/// One cell of the bitrate ladder: a height with a codec.
#[derive(Debug, Clone, Copy)]
pub struct LadderCell {
    pub kbps: u32,
    pub recommended: (u32, u32),
    pub ring_mb_60s: u32,
}

/// One row of the bitrate ladder: a height, with a cell per codec.
pub struct LadderRow {
    pub height: u32,
    pub cells: Vec<LadderCell>,
}

/// A height to choose, with its bitrates, recommended ranges and buffer sizes
/// in the order of the codecs.
#[derive(Debug, Clone)]
pub struct HeightOpt {
    pub height: u32,
    pub label: String,
    pub bitrates: Vec<u32>,
    pub recommended: Vec<(u32, u32)>,
    pub ring_mb_60s: Vec<u32>,
}

/// A height offers the cells of a row.
pub open spec fn offers_row(h: HeightOpt, row: LadderRow) -> bool {
    &&& h.height == row.height
    &&& h.label@ == decimal(row.height as nat) + "p"@
    &&& h.bitrates@ == row.cells@.map_values(|c: LadderCell| c.kbps)
    &&& h.recommended@ == row.cells@.map_values(|c: LadderCell| c.recommended)
    &&& h.ring_mb_60s@ == row.cells@.map_values(|c: LadderCell| c.ring_mb_60s)
}

/// Height to choose.
pub fn height_option(row: &LadderRow) -> (r: HeightOpt)
    ensures
        offers_row(r, *row),
{
    let n = decimal_of(row.height as u64);
    let mut bitrates: Vec<u32> = Vec::new();
    let mut recommended: Vec<(u32, u32)> = Vec::new();
    let mut ring: Vec<u32> = Vec::new();
    let mut i: usize = 0;
    while i < row.cells.len()
        invariant
            i <= row.cells@.len(),
            bitrates@ =~= row.cells@.map_values(|c: LadderCell| c.kbps).take(i as int),
            recommended@ =~= row.cells@.map_values(|c: LadderCell| c.recommended).take(i as int),
            ring@ =~= row.cells@.map_values(|c: LadderCell| c.ring_mb_60s).take(i as int),
        decreases row.cells@.len() - i,
    {
        let c = row.cells[i];
        bitrates.push(c.kbps);
        recommended.push(c.recommended);
        ring.push(c.ring_mb_60s);
        i = i + 1;
    }
    proof {
        assert(bitrates@ =~= row.cells@.map_values(|c: LadderCell| c.kbps));
        assert(recommended@ =~= row.cells@.map_values(|c: LadderCell| c.recommended));
        assert(ring@ =~= row.cells@.map_values(|c: LadderCell| c.ring_mb_60s));
    }
    HeightOpt {
        height: row.height,
        label: cat(n.as_str(), "p"),
        bitrates,
        recommended,
        ring_mb_60s: ring,
    }
}

// ---------------------------------------------------------------------------
// Encoders
// ---------------------------------------------------------------------------
/// The short name of a family.
pub open spec fn family_name(f: EncoderFamily) -> Seq<char> {
    match f {
        EncoderFamily::Nvenc => "nvenc"@,
        EncoderFamily::X264 => "x264"@,
        EncoderFamily::Qsv => "qsv"@,
        EncoderFamily::Amf => "amf"@,
        EncoderFamily::Vaapi => "vaapi"@,
    }
}

/// Short name of a family.
pub fn family_slug(f: EncoderFamily) -> (r: &'static str)
    ensures
        r@ == family_name(f),
{
    match f {
        EncoderFamily::Nvenc => "nvenc",
        EncoderFamily::X264 => "x264",
        EncoderFamily::Qsv => "qsv",
        EncoderFamily::Amf => "amf",
        EncoderFamily::Vaapi => "vaapi",
    }
}

/// An encoder to choose.
#[derive(Debug, Clone)]
pub struct EncoderOpt {
    pub id: String,
    pub codec: String,
    pub family: String,
    pub validated: bool,
    pub available: bool,
}

/// What an encoder to choose stands for.
pub struct EncoderOptModel {
    pub id: Seq<char>,
    pub codec: Seq<char>,
    pub family: Seq<char>,
    pub validated: bool,
    pub available: bool,
}

impl View for EncoderOpt {
    type V = EncoderOptModel;

    open spec fn view(&self) -> EncoderOptModel {
        EncoderOptModel {
            id: self.id@,
            codec: self.codec@,
            family: self.family@,
            validated: self.validated,
            available: self.available,
        }
    }
}

/// An encoder of the catalog as it is offered: it is available where the GPU
/// drives its family and its codec is offered. The software encoder needs neither codec nor GPU.
pub open spec fn offered_encoder(e: EntryModel, vendor: Seq<char>, codecs: Seq<Seq<char>>) -> EncoderOptModel {
    EncoderOptModel {
        id: e.id,
        codec: e.codec,
        family: family_name(e.family),
        validated: is_validated(e.family),
        available: vendor_families(vendor).contains(e.family) && (codecs.contains(e.codec) || e.id
            == "obs_x264"@),
    }
}

fn has_family(list: &Vec<EncoderFamily>, f: EncoderFamily) -> (r: bool)
    ensures
        r == list@.contains(f),
{
    let mut i: usize = 0;
    while i < list.len()
        invariant
            i <= list@.len(),
            forall|k: int| 0 <= k < i ==> list@[k] != f,
        decreases list@.len() - i,
    {
        if list[i] == f {
            return true;
        }
        i = i + 1;
    }
    false
}

/// Encoder of the catalog as it is offered.
pub fn encoder_option(e: &EncoderEntry, vendor: &str, codecs: &Vec<CodecOpt>) -> (r: EncoderOpt)
    ensures
        r@ == offered_encoder(e@, vendor@, codec_ids(codecs@)),
{
    let families = families_for_vendor(vendor);
    let in_family = has_family(&families, e.family);
    let codec_ok = has_codec(codecs, e.codec) || same(e.id, "obs_x264");
    EncoderOpt {
        id: e.id.to_owned(),
        codec: e.codec.to_owned(),
        family: family_slug(e.family).to_owned(),
        validated: family_validated(e.family),
        available: in_family && codec_ok,
    }
}

/// When an option is shown: the sibling under `key` has one of the values, and
/// so has the one under `and_key` where there is one.
#[derive(Debug, Clone)]
pub struct VisibleWhen {
    pub key: String,
    pub values: Vec<String>,
    pub and_key: Option<String>,
    pub and_values: Vec<String>,
}

/// What a condition of an option stands for.
pub struct VisibleWhenModel {
    pub key: Seq<char>,
    pub values: Seq<Seq<char>>,
    pub and_key: Option<Seq<char>>,
    pub and_values: Seq<Seq<char>>,
}

impl View for VisibleWhen {
    type V = VisibleWhenModel;

    open spec fn view(&self) -> VisibleWhenModel {
        VisibleWhenModel {
            key: self.key@,
            values: texts(self.values@),
            and_key: opt_text(self.and_key),
            and_values: texts(self.and_values@),
        }
    }
}

/// The condition of a visibility rule. A rule without a first condition has none.
pub open spec fn shown_when(v: VisibleModel) -> Option<VisibleWhenModel> {
    match v.when {
        None => None,
        Some((key, values)) => Some(
            VisibleWhenModel {
                key,
                values,
                and_key: match v.and_when {
                    Some((k, _)) => Some(k),
                    None => None,
                },
                and_values: match v.and_when {
                    Some((_, vs)) => vs,
                    None => Seq::empty(),
                },
            },
        ),
    }
}

/// What an optional condition stands for.
pub open spec fn opt_when(v: Option<VisibleWhen>) -> Option<VisibleWhenModel> {
    match v {
        Some(w) => Some(w@),
        None => None,
    }
}

/// Condition of a visibility rule.
pub fn visible_when(v: &VisibleRule) -> (r: Option<VisibleWhen>)
    ensures
        opt_when(r) == shown_when(v@),
{
    match v.when {
        None => None,
        Some((key, values)) => {
            let and_key: Option<String> = match v.and_when {
                Some((k, _)) => Some(k.to_owned()),
                None => None,
            };
            let and_values: Vec<String> = match v.and_when {
                Some((_, vs)) => owned(vs),
                None => Vec::new(),
            };
            let w = VisibleWhen { key: key.to_owned(), values: owned(values), and_key, and_values };
            proof {
                assert(w@.and_values =~= shown_when(v@)->0.and_values);
            }
            Some(w)
        },
    }
}

/// One option of an encoder's form.
pub struct OptionSpecJson {
    pub key: String,
    pub kind: String,
    pub values: Vec<String>,
    pub int_values: Vec<i64>,
    pub min: i64,
    pub max: i64,
    pub step: i64,
    pub default: Option<Json>,
    pub i18n: String,
    pub visible_when: Option<VisibleWhen>,
    /// False where the codec does not have the option.
    pub supported: bool,
    pub p010_values: Vec<String>,
    pub p010_ints: Vec<i64>,
}

/// What an option of a form stands for.
pub struct FormModel {
    pub key: Seq<char>,
    pub kind: Seq<char>,
    pub values: Seq<Seq<char>>,
    pub int_values: Seq<i64>,
    pub min: int,
    pub max: int,
    pub step: int,
    pub default: Option<JsonModel>,
    pub i18n: Seq<char>,
    pub visible_when: Option<VisibleWhenModel>,
    pub supported: bool,
    pub p010_values: Seq<Seq<char>>,
    pub p010_ints: Seq<i64>,
}

/// What an optional value stands for.
pub open spec fn opt_json(j: Option<Json>) -> Option<JsonModel> {
    match j {
        Some(j) => Some(j@),
        None => None,
    }
}

impl View for OptionSpecJson {
    type V = FormModel;

    open spec fn view(&self) -> FormModel {
        FormModel {
            key: self.key@,
            kind: self.kind@,
            values: texts(self.values@),
            int_values: self.int_values@,
            min: self.min as int,
            max: self.max as int,
            step: self.step as int,
            default: opt_json(self.default),
            i18n: self.i18n@,
            visible_when: opt_when(self.visible_when),
            supported: self.supported,
            p010_values: texts(self.p010_values@),
            p010_ints: self.p010_ints@,
        }
    }
}

/// The name of a kind of option.
pub open spec fn kind_name(k: SpecKind) -> Seq<char> {
    match k {
        SpecKind::Enum => "enum"@,
        SpecKind::Int => "int"@,
        SpecKind::Bool => "bool"@,
        SpecKind::Text => "text"@,
    }
}

/// An option as its form shows it.
pub open spec fn form_option(r: ResolvedModel) -> FormModel {
    FormModel {
        key: r.key,
        kind: kind_name(r.kind),
        values: r.values,
        int_values: r.int_values,
        min: r.min,
        max: r.max,
        step: r.step,
        default: match r.default {
            Some(DefaultModel::Str(s)) => Some(JsonModel::Str(s)),
            Some(DefaultModel::Int(n)) => Some(JsonModel::Int(n)),
            Some(DefaultModel::Bool(b)) => Some(JsonModel::Bool(b)),
            None => None,
        },
        i18n: r.i18n,
        visible_when: shown_when(r.visible),
        supported: r.supported,
        p010_values: r.p010_values,
        p010_ints: r.p010_ints,
    }
}

fn copy_numbers(v: &Vec<i64>) -> (r: Vec<i64>)
    ensures
        r@ == v@,
{
    let mut out: Vec<i64> = Vec::new();
    let mut i: usize = 0;
    while i < v.len()
        invariant
            i <= v@.len(),
            out@ =~= v@.take(i as int),
        decreases v@.len() - i,
    {
        out.push(v[i]);
        i = i + 1;
    }
    proof {
        assert(out@ =~= v@);
    }
    out
}

/// Option as its form shows it.
pub fn spec_json(r: &ResolvedOption) -> (o: OptionSpecJson)
    ensures
        o@ == form_option(r@),
{
    let kind = match r.kind {
        SpecKind::Enum => "enum",
        SpecKind::Int => "int",
        SpecKind::Bool => "bool",
        SpecKind::Text => "text",
    };
    let default: Option<Json> = match r.default {
        Some(SpecDefault::Str(s)) => Some(Json::Str(s.to_owned())),
        Some(SpecDefault::Int(n)) => Some(Json::Signed(n)),
        Some(SpecDefault::Bool(b)) => Some(Json::Bool(b)),
        None => None,
    };
    OptionSpecJson {
        key: r.key.to_owned(),
        kind: kind.to_owned(),
        values: owned(r.values.as_slice()),
        int_values: copy_numbers(&r.int_values),
        min: r.min,
        max: r.max,
        step: r.step,
        default,
        i18n: r.i18n.to_owned(),
        visible_when: visible_when(&r.visible),
        supported: r.supported,
        p010_values: owned(r.p010_values.as_slice()),
        p010_ints: copy_numbers(&r.p010_ints),
    }
}

/// The form of one encoder.
pub struct EncoderSchema {
    pub encoder: String,
    pub family: String,
    pub codec: String,
    pub validated: bool,
    pub options: Vec<OptionSpecJson>,
}

/// What the form of an encoder stands for.
pub struct SchemaModel {
    pub encoder: Seq<char>,
    pub family: Seq<char>,
    pub codec: Seq<char>,
    pub validated: bool,
    pub options: Seq<FormModel>,
}

/// What a list of options stands for.
pub open spec fn form_models(v: Seq<OptionSpecJson>) -> Seq<FormModel> {
    v.map_values(|o: OptionSpecJson| o@)
}

impl View for EncoderSchema {
    type V = SchemaModel;

    open spec fn view(&self) -> SchemaModel {
        SchemaModel {
            encoder: self.encoder@,
            family: self.family@,
            codec: self.codec@,
            validated: self.validated,
            options: form_models(self.options@),
        }
    }
}

/// The form of an encoder of the catalog: the options of its family for its codec.
pub open spec fn schema_of(e: EntryModel) -> SchemaModel {
    SchemaModel {
        encoder: e.id,
        family: family_name(e.family),
        codec: e.codec,
        validated: is_validated(e.family),
        options: resolved_table(e.family, e.codec).map_values(|r: ResolvedModel| form_option(r)),
    }
}

/// Form of an encoder of the catalog.
pub fn encoder_form(e: &EncoderEntry) -> (r: EncoderSchema)
    ensures
        r@ == schema_of(e@),
{
    let resolved = resolved_options(e.family, e.codec);
    let ghost table = resolved_table(e.family, e.codec@);
    let ghost goal = table.map_values(|r: ResolvedModel| form_option(r));
    let mut options: Vec<OptionSpecJson> = Vec::new();
    let mut i: usize = 0;
    while i < resolved.len()
        invariant
            resolved_models(resolved@) == table,
            goal == table.map_values(|r: ResolvedModel| form_option(r)),
            i <= resolved@.len(),
            form_models(options@) =~= goal.take(i as int),
        decreases resolved@.len() - i,
    {
        let ghost before = options@;
        let o = spec_json(&resolved[i]);
        options.push(o);
        proof {
            assert(table[i as int] == resolved@[i as int]@);
            assert(goal[i as int] == o@);
            assert(form_models(options@) =~= form_models(before).push(o@));
        }
        i = i + 1;
    }
    proof {
        assert(table.len() == resolved@.len());
        assert(form_models(options@) =~= goal);
    }
    EncoderSchema {
        encoder: e.id.to_owned(),
        family: family_slug(e.family).to_owned(),
        codec: e.codec.to_owned(),
        validated: family_validated(e.family),
        options,
    }
}

/// The color formats of one encoder.
#[derive(Debug, Clone)]
pub struct EncoderColors {
    pub id: String,
    pub formats: Vec<String>,
}

/// Color formats of an encoder of the catalog.
pub fn encoder_colors(e: &EncoderEntry) -> (r: EncoderColors)
    ensures
        r.id@ == e.id@,
        texts(r.formats@) == color_formats(e.family, e.codec@),
{
    EncoderColors { id: e.id.to_owned(), formats: owned(valid_color_formats(e.family, e.codec)) }
}

// ---------------------------------------------------------------------------
// Current choices
// ---------------------------------------------------------------------------
/// The current custom selection.
pub struct CustomSelection {
    pub encoder: String,
    pub settings: Vec<(String, Json)>,
    pub video: Option<CustomVideo>,
}

/// What a custom selection stands for.
pub struct SelectionModel {
    pub encoder: Seq<char>,
    pub settings: Seq<(Seq<char>, JsonModel)>,
    pub video: Option<CustomVideoModel>,
}

impl View for CustomSelection {
    type V = SelectionModel;

    open spec fn view(&self) -> SelectionModel {
        SelectionModel {
            encoder: self.encoder@,
            settings: json_entries(self.settings@),
            video: opt_video(self.video),
        }
    }
}

pub const VIDEO_FIELDS: [&'static str; 11] = [
    "out_width",
    "out_height",
    "scale_type",
    "fps_type",
    "fps_common",
    "fps_int",
    "fps_num",
    "fps_den",
    "color_format",
    "color_space",
    "color_range",
];

/// The video settings that the fields of a record write word for word, without
/// checking them. None of them may be missing.
pub open spec fn literal_video(fields: Seq<Option<JsonRead>>) -> Option<CustomVideoModel> {
    let w = whole_field(fields[0]);
    let h = whole_field(fields[1]);
    let scale = text_field(fields[2]);
    let fps_type = text_field(fields[3]);
    let common = whole_field(fields[4]);
    let whole = whole_field(fields[5]);
    let num = whole_field(fields[6]);
    let den = whole_field(fields[7]);
    let format = text_field(fields[8]);
    let space = text_field(fields[9]);
    let range = text_field(fields[10]);
    if w is Some && h is Some && scale is Some && fps_type is Some && common is Some && whole
        is Some && num is Some && den is Some && format is Some && space is Some && range is Some {
        Some(
            CustomVideoModel {
                out_width: w->0,
                out_height: h->0,
                scale_type: scale->0,
                fps_type: fps_type->0,
                fps_common: common->0,
                fps_int: whole->0,
                fps_num: num->0,
                fps_den: den->0,
                color_format: format->0,
                color_space: space->0,
                color_range: range->0,
            },
        )
    } else {
        None
    }
}

/// Video settings that the fields of a record write word for word.
pub fn read_literal_video(fields: &Vec<Option<Result<Json, String>>>) -> (r: Option<CustomVideo>)
    requires
        fields@.len() == 11,
    ensures
        opt_video(r) == literal_video(field_models(fields@)),
{
    let numbers = (
        whole_at(fields, 0),
        whole_at(fields, 1),
        whole_at(fields, 4),
        whole_at(fields, 5),
        whole_at(fields, 6),
        whole_at(fields, 7),
    );
    let names = (
        text_at(fields, 2),
        text_at(fields, 3),
        text_at(fields, 8),
        text_at(fields, 9),
        text_at(fields, 10),
    );
    match (numbers, names) {
        (
            (Some(w), Some(h), Some(common), Some(whole), Some(num), Some(den)),
            (Some(scale), Some(fps_type), Some(format), Some(space), Some(range)),
        ) => Some(
            CustomVideo {
                out_width: w,
                out_height: h,
                scale_type: scale,
                fps_type,
                fps_common: common,
                fps_int: whole,
                fps_num: num,
                fps_den: den,
                color_format: format,
                color_space: space,
                color_range: range,
            },
        ),
        _ => None,
    }
}

/// The video settings that a stored text writes: none where it is blank.
pub open spec fn selected_video(raw: Seq<char>) -> Option<Option<CustomVideoModel>> {
    if trim(raw).len() == 0 {
        Some(None)
    } else {
        match record_fields(raw, strs(VIDEO_FIELDS@), 1) {
            Some(fields) => match literal_video(fields) {
                Some(v) => Some(Some(v)),
                None => None,
            },
            None => None,
        }
    }
}

/// The custom selection that is shown: the stored one, where it still passes
/// every check. A selection that has gone stale is never shown as valid.
pub open spec fn selection_of(encoder: CustomEncoderModel, video: Option<CustomVideoModel>) -> Option<
    SelectionModel,
> {
    match known_encoder(encoder.encoder) {
        None => None,
        Some(entry) => {
            let color = match video {
                Some(v) => Some(v.color_format),
                None => None,
            };
            let settings_ok = settings_error(
                resolved_table(entry.family, entry.codec),
                entry.codec,
                encoder.settings,
                color,
            ) is None;
            let video_ok = match video {
                Some(v) => custom_video_of(entry.family, entry.codec, video_doc(v)) is Ok,
                None => true,
            };
            if settings_ok && video_ok {
                Some(
                    SelectionModel {
                        encoder: encoder.encoder,
                        settings: encoder.settings,
                        video,
                    },
                )
            } else {
                None
            }
        },
    }
}

/// The custom selection that is shown, by the stored texts.
pub open spec fn current_selection(encoder_raw: Seq<char>, video_raw: Seq<char>) -> Option<
    SelectionModel,
> {
    if trim(encoder_raw).len() == 0 {
        None
    } else {
        match custom_encoder_read(json_parse(encoder_raw)) {
            Err(_) => None,
            Ok(c) => match selected_video(video_raw) {
                None => None,
                Some(v) => selection_of(c, v),
            },
        }
    }
}

/// What an optional selection stands for.
pub open spec fn opt_selection(s: Option<CustomSelection>) -> Option<SelectionModel> {
    match s {
        Some(s) => Some(s@),
        None => None,
    }
}

/// Shows a custom selection that still passes every check.
pub fn show_selection(custom: CustomEncoder, video: Option<CustomVideo>) -> (r: Option<
    CustomSelection,
>)
    ensures
        opt_selection(r) == selection_of(custom@, opt_video(video)),
{
    let entry = match lookup_encoder(custom.encoder.as_str()) {
        Some(e) => e,
        None => {
            return None;
        },
    };
    let color = match &video {
        Some(v) => Some(v.color_format.as_str()),
        None => None,
    };
    match validate_pair(entry.family, entry.codec, &custom.settings, color) {
        Ok(_) => {},
        Err(_) => {
            return None;
        },
    }
    match &video {
        Some(v) => match check_custom_video(entry.family, entry.codec, v) {
            Ok(_) => {},
            Err(_) => {
                return None;
            },
        },
        None => {},
    }
    Some(CustomSelection { encoder: custom.encoder, settings: custom.settings, video })
}

/// Custom selection that is shown, by the stored texts.
pub fn read_selection(encoder_raw: &str, video_raw: &str) -> (r: Option<CustomSelection>)
    ensures
        opt_selection(r) == current_selection(encoder_raw@, video_raw@),
{
    if trimmed(encoder_raw).as_str().is_empty() {
        return None;
    }
    let custom = match parse_custom_encoder(encoder_raw) {
        Ok(c) => c,
        Err(_) => {
            return None;
        },
    };
    if trimmed(video_raw).as_str().is_empty() {
        return show_selection(custom, None);
    }
    match read_record(video_raw, &VIDEO_FIELDS, 1) {
        Some(fields) => {
            proof {
                assert(field_models(fields@).len() == fields@.len());
            }
            match read_literal_video(&fields) {
                Some(v) => show_selection(custom, Some(v)),
                None => None,
            }
        },
        None => None,
    }
}

/// A monitor to choose.
#[derive(Debug, Clone)]
pub struct MonitorOpt {
    pub name: String,
    pub label: String,
}

/// Everything that the settings page offers.
pub struct VideoOptions {
    pub codecs: Vec<CodecOpt>,
    pub heights: Vec<HeightOpt>,
    pub monitors: Vec<MonitorOpt>,
    pub current_codec: String,
    pub current_height: u32,
    pub current_fps: u32,
    pub current_monitor: String,
    /// A screen choice is kept, so that the next start asks for none.
    pub portal_ready: bool,
    pub buffer_height: u32,
    pub transcoding: bool,
    pub max_source_height: u32,
    pub vendor: String,
    /// `gpu` or `cpu`.
    pub encoder: String,
    pub fps_options: Vec<u32>,
    pub encoders: Vec<EncoderOpt>,
    pub encoder_schema: Vec<EncoderSchema>,
    pub encoder_colors: Vec<EncoderColors>,
    pub scale_filters: Vec<String>,
    pub fps_types: Vec<String>,
    pub fps_common_values: Vec<u32>,
    pub color_spaces: Vec<String>,
    pub color_ranges: Vec<String>,
    pub custom: Option<CustomSelection>,
}

/// The codec that is shown as the current one.
pub open spec fn shown_codec(settings: Map<Seq<char>, Seq<char>>) -> Seq<char> {
    let s = setting(settings, "video_codec"@, "h264"@);
    if s == "hevc"@ || s == "av1"@ {
        s
    } else {
        "h264"@
    }
}

/// The encoder preference that is shown as the current one.
pub open spec fn shown_preference(settings: Map<Seq<char>, Seq<char>>) -> Seq<char> {
    if setting(settings, "video_encoder"@, "gpu"@) == "cpu"@ || setting(
        settings,
        "video_codec"@,
        ""@,
    ) == "x264"@ {
        "cpu"@
    } else {
        "gpu"@
    }
}

/// The greatest height of the monitors, or 0.
pub open spec fn greatest_height(monitors: Seq<Monitor>) -> nat
    decreases monitors.len(),
{
    if monitors.len() == 0 {
        0
    } else {
        let init = greatest_height(monitors.drop_last());
        let h = monitors.last().height as nat;
        if h > init {
            h
        } else {
            init
        }
    }
}

/// The choices for the frame rate.
pub open spec fn fps_choice() -> Seq<u32> {
    seq![24u32, 30, 60, 120, 144]
}

fn monitor_options(monitors: &Vec<Monitor>) -> (r: (Vec<MonitorOpt>, u32))
    ensures
        r.0@.len() == monitors@.len(),
        forall|i: int|
            0 <= i < monitors@.len() ==> (#[trigger] r.0@[i]).name@ == monitors@[i].name@
                && r.0@[i].label@ == monitors@[i].label@,
        r.1 == greatest_height(monitors@),
{
    let mut out: Vec<MonitorOpt> = Vec::new();
    let mut best: u32 = 0;
    let mut i: usize = 0;
    proof {
        assert(monitors@.take(0) =~= Seq::<Monitor>::empty());
    }
    while i < monitors.len()
        invariant
            i <= monitors@.len(),
            out@.len() == i,
            forall|k: int|
                0 <= k < i ==> (#[trigger] out@[k]).name@ == monitors@[k].name@ && out@[k].label@
                    == monitors@[k].label@,
            best == greatest_height(monitors@.take(i as int)),
        decreases monitors@.len() - i,
    {
        let m = &monitors[i];
        proof {
            assert(monitors@.take(i + 1).drop_last() =~= monitors@.take(i as int));
        }
        out.push(MonitorOpt { name: m.name.clone(), label: m.label.clone() });
        if m.height > best {
            best = m.height;
        }
        i = i + 1;
    }
    proof {
        assert(monitors@.take(monitors@.len() as int) =~= monitors@);
    }
    (out, best)
}

fn current_codec(settings: &TextMap) -> (r: String)
    ensures
        r@ == shown_codec(settings@),
{
    let s = setting_str(settings, "video_codec", "h264");
    if same(s.as_str(), "hevc") || same(s.as_str(), "av1") {
        s
    } else {
        "h264".to_owned()
    }
}

fn current_preference(settings: &TextMap) -> (r: &'static str)
    ensures
        r@ == shown_preference(settings@),
{
    let e = setting_str(settings, "video_encoder", "gpu");
    let c = setting_str(settings, "video_codec", "");
    if same(e.as_str(), "cpu") || same(c.as_str(), "x264") {
        "cpu"
    } else {
        "gpu"
    }
}

fn common_rates() -> (r: Vec<u32>)
    ensures
        r@ == FPS_COMMON_VALUES@,
{
    let list = FPS_COMMON_VALUES;
    let mut out: Vec<u32> = Vec::new();
    let mut i: usize = 0;
    while i < 11
        invariant
            list@ == FPS_COMMON_VALUES@,
            list@.len() == 11,
            i <= 11,
            out@ =~= list@.take(i as int),
        decreases 11 - i,
    {
        out.push(list[i]);
        i = i + 1;
    }
    proof {
        assert(out@ =~= list@);
    }
    out
}

/// The encoders of the catalog with their availability, forms and colors.
pub struct EncoderPages {
    pub encoders: Vec<EncoderOpt>,
    pub schema: Vec<EncoderSchema>,
    pub colors: Vec<EncoderColors>,
}

/// What the encoders of a catalog offer.
pub fn encoder_pages(catalog: &Vec<EncoderEntry>, vendor: &str, codecs: &Vec<CodecOpt>) -> (r:
    EncoderPages)
    ensures
        r.encoders@.len() == catalog@.len(),
        r.schema@.len() == catalog@.len(),
        r.colors@.len() == catalog@.len(),
        forall|i: int|
            0 <= i < catalog@.len() ==> (#[trigger] r.encoders@[i])@ == offered_encoder(
                catalog@[i]@,
                vendor@,
                codec_ids(codecs@),
            ),
        forall|i: int|
            0 <= i < catalog@.len() ==> (#[trigger] r.schema@[i])@ == schema_of(catalog@[i]@),
        forall|i: int|
            0 <= i < catalog@.len() ==> (#[trigger] r.colors@[i]).id@ == catalog@[i].id@ && texts(
                r.colors@[i].formats@,
            ) == color_formats(catalog@[i].family, catalog@[i].codec@),
{
    let mut encoders: Vec<EncoderOpt> = Vec::new();
    let mut schema: Vec<EncoderSchema> = Vec::new();
    let mut colors: Vec<EncoderColors> = Vec::new();
    let mut i: usize = 0;
    while i < catalog.len()
        invariant
            i <= catalog@.len(),
            encoders@.len() == i,
            schema@.len() == i,
            colors@.len() == i,
            forall|k: int|
                0 <= k < i ==> (#[trigger] encoders@[k])@ == offered_encoder(
                    catalog@[k]@,
                    vendor@,
                    codec_ids(codecs@),
                ),
            forall|k: int| 0 <= k < i ==> (#[trigger] schema@[k])@ == schema_of(catalog@[k]@),
            forall|k: int|
                0 <= k < i ==> (#[trigger] colors@[k]).id@ == catalog@[k].id@ && texts(
                    colors@[k].formats@,
                ) == color_formats(catalog@[k].family, catalog@[k].codec@),
        decreases catalog@.len() - i,
    {
        encoders.push(encoder_option(&catalog[i], vendor, codecs));
        schema.push(encoder_form(&catalog[i]));
        colors.push(encoder_colors(&catalog[i]));
        i = i + 1;
    }
    EncoderPages { encoders, schema, colors }
}

/// What the settings page shows as chosen.
pub struct ShownModel {
    pub codec: Seq<char>,
    /// `gpu` or `cpu`.
    pub encoder: Seq<char>,
    pub height: nat,
    pub fps: nat,
    pub monitor: Seq<char>,
    /// A screen choice is kept.
    pub portal_ready: bool,
}

/// What the settings page shows as chosen.
pub open spec fn shown_choice(settings: Map<Seq<char>, Seq<char>>) -> ShownModel {
    ShownModel {
        codec: shown_codec(settings),
        encoder: shown_preference(settings),
        height: number_setting(settings, "out_height"@, "0"@, 0),
        fps: ladder_fps_of(number_setting(settings, "fps"@, "60"@, 60)),
        monitor: setting(settings, "monitor"@, ""@),
        portal_ready: setting(settings, "engine_restore_token"@, ""@).len() > 0,
    }
}

/// Everything that the settings page offers. `codecs` are those of
/// `offer_codecs`, and `ladder` has a cell for each of them in every row.
pub fn video_options(
    settings: &TextMap,
    vendor: &str,
    codecs: Vec<CodecOpt>,
    ladder: &Vec<LadderRow>,
    monitors: &Vec<Monitor>,
    catalog: &Vec<EncoderEntry>,
) -> (r: VideoOptions)
    ensures
        r.codecs == codecs,
        r.heights@.len() == ladder@.len(),
        forall|i: int| 0 <= i < ladder@.len() ==> offers_row(#[trigger] r.heights@[i], ladder@[i]),
        r.monitors@.len() == monitors@.len(),
        forall|i: int|
            0 <= i < monitors@.len() ==> (#[trigger] r.monitors@[i]).name@ == monitors@[i].name@
                && r.monitors@[i].label@ == monitors@[i].label@,
        shown_choice(settings@) == (ShownModel {
            codec: r.current_codec@,
            encoder: r.encoder@,
            height: r.current_height as nat,
            fps: r.current_fps as nat,
            monitor: r.current_monitor@,
            portal_ready: r.portal_ready,
        }),
        r.buffer_height == r.current_height,
        !r.transcoding,
        r.max_source_height == greatest_height(monitors@),
        r.vendor@ == vendor@,
        r.fps_options@ == fps_choice(),
        r.encoders@.len() == catalog@.len(),
        forall|i: int|
            0 <= i < catalog@.len() ==> (#[trigger] r.encoders@[i])@ == offered_encoder(
                catalog@[i]@,
                vendor@,
                codec_ids(codecs@),
            ),
        r.encoder_schema@.len() == catalog@.len(),
        forall|i: int|
            0 <= i < catalog@.len() ==> (#[trigger] r.encoder_schema@[i])@ == schema_of(
                catalog@[i]@,
            ),
        r.encoder_colors@.len() == catalog@.len(),
        forall|i: int|
            0 <= i < catalog@.len() ==> (#[trigger] r.encoder_colors@[i]).id@ == catalog@[i].id@
                && texts(r.encoder_colors@[i].formats@) == color_formats(
                catalog@[i].family,
                catalog@[i].codec@,
            ),
        texts(r.scale_filters@) == strs(SCALE_FILTERS@),
        texts(r.fps_types@) == strs(FPS_TYPES@),
        r.fps_common_values@ == FPS_COMMON_VALUES@,
        texts(r.color_spaces@) == strs(COLOR_SPACES@),
        texts(r.color_ranges@) == strs(COLOR_RANGES@),
        opt_selection(r.custom) == current_selection(
            setting(settings@, "custom_encoder_json"@, ""@),
            setting(settings@, "custom_video_json"@, ""@),
        ),
{
    let mut heights: Vec<HeightOpt> = Vec::new();
    let mut i: usize = 0;
    while i < ladder.len()
        invariant
            i <= ladder@.len(),
            heights@.len() == i,
            forall|k: int| 0 <= k < i ==> offers_row(#[trigger] heights@[k], ladder@[k]),
        decreases ladder@.len() - i,
    {
        heights.push(height_option(&ladder[i]));
        i = i + 1;
    }
    let (monitor_list, max_source_height) = monitor_options(monitors);
    let pages = encoder_pages(catalog, vendor, &codecs);
    let current_height: u32 = setting_u32(settings, "out_height", "0", 0);
    let token = setting_str(settings, "engine_restore_token", "");
    let encoder_raw = setting_str(settings, "custom_encoder_json", "");
    let video_raw = setting_str(settings, "custom_video_json", "");
    let fps_options: Vec<u32> = vec![24, 30, 60, 120, 144];
    proof {
        assert(fps_options@ =~= fps_choice());
    }
    VideoOptions {
        codecs,
        heights,
        monitors: monitor_list,
        current_codec: current_codec(settings),
        current_height,
        current_fps: ladder_fps(settings),
        current_monitor: setting_str(settings, "monitor", ""),
        portal_ready: !token.as_str().is_empty(),
        buffer_height: current_height,
        transcoding: false,
        max_source_height,
        vendor: vendor.to_owned(),
        encoder: current_preference(settings).to_owned(),
        fps_options,
        encoders: pages.encoders,
        encoder_schema: pages.schema,
        encoder_colors: pages.colors,
        scale_filters: owned(&SCALE_FILTERS),
        fps_types: owned(&FPS_TYPES),
        fps_common_values: common_rates(),
        color_spaces: owned(&COLOR_SPACES),
        color_ranges: owned(&COLOR_RANGES),
        custom: read_selection(encoder_raw.as_str(), video_raw.as_str()),
    }
}

/// The current frame rate is always one of those to choose from.
pub proof fn law_current_fps_can_be_chosen(n: nat)
    ensures
        fps_choice().contains(ladder_fps_of(n) as u32),
{
    let c = fps_choice();
    assert(c[0] == 24 && c[1] == 30 && c[2] == 60 && c[3] == 120 && c[4] == 144);
}

} // verus!
