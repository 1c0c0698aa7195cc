//! Encoder registry: which encoders exist, what settings each takes, the
//! recipes that are written for them, and the checks on custom selections.

use vstd::prelude::*;

use crate::encoder_tables::{
    codec_default_list, codec_int_lists, codec_lists, codec_ranges, opt_default, option_models,
    option_table, options_for, strs, DefaultModel, EncoderFamily, OptionModel, OptionSpec,
    SpecDefault, SpecKind, VisibleModel, VisibleRule,
};
use crate::json::{
    entries_writable, json_entries, lemma_scalar_writable, Json, JsonModel,
};
use crate::text::{cat, cat3, cat5, decimal_int, decimal_of_int, opt_text, same};

verus! {

broadcast use vstd::string::group_string_axioms;

// ---------------------------------------------------------------------------
// Catalogs
// ---------------------------------------------------------------------------
/// One OBS encoder with its codec and family.
#[derive(Debug, Clone, Copy)]
pub struct EncoderEntry {
    pub id: &'static str,
    pub codec: &'static str,
    pub family: EncoderFamily,
}

/// What a catalog entry stands for.
pub struct EntryModel {
    pub id: Seq<char>,
    pub codec: Seq<char>,
    pub family: EncoderFamily,
}

impl View for EncoderEntry {
    type V = EntryModel;

    open spec fn view(&self) -> EntryModel {
        EntryModel { id: self.id@, codec: self.codec@, family: self.family }
    }
}

/// What a list of catalog entries stands for.
pub open spec fn entry_list(v: Seq<EncoderEntry>) -> Seq<EntryModel> {
    v.map_values(|e: EncoderEntry| e@)
}

/// The catalog entry of an id.
pub open spec fn entry_model(id: Seq<char>, codec: Seq<char>, family: EncoderFamily) -> EntryModel {
    EntryModel { id, codec, family }
}

/// The encoders of the OBS build for Windows.
pub open spec fn windows_catalog() -> Seq<EntryModel> {
    seq![
        entry_model("obs_nvenc_h264_tex"@, "h264"@, EncoderFamily::Nvenc),
        entry_model("obs_nvenc_hevc_tex"@, "hevc"@, EncoderFamily::Nvenc),
        entry_model("obs_nvenc_av1_tex"@, "av1"@, EncoderFamily::Nvenc),
        entry_model("h264_texture_amf"@, "h264"@, EncoderFamily::Amf),
        entry_model("h265_texture_amf"@, "hevc"@, EncoderFamily::Amf),
        entry_model("av1_texture_amf"@, "av1"@, EncoderFamily::Amf),
        entry_model("obs_qsv11_v2"@, "h264"@, EncoderFamily::Qsv),
        entry_model("obs_qsv11_hevc"@, "hevc"@, EncoderFamily::Qsv),
        entry_model("obs_qsv11_av1"@, "av1"@, EncoderFamily::Qsv),
        entry_model("obs_x264"@, "h264"@, EncoderFamily::X264),
    ]
}

/// The encoders of the OBS build for Linux, which has no AMF.
pub open spec fn linux_catalog() -> Seq<EntryModel> {
    seq![
        entry_model("obs_nvenc_h264_tex"@, "h264"@, EncoderFamily::Nvenc),
        entry_model("obs_nvenc_hevc_tex"@, "hevc"@, EncoderFamily::Nvenc),
        entry_model("obs_nvenc_av1_tex"@, "av1"@, EncoderFamily::Nvenc),
        entry_model("obs_qsv11_v2"@, "h264"@, EncoderFamily::Qsv),
        entry_model("obs_qsv11_hevc"@, "hevc"@, EncoderFamily::Qsv),
        entry_model("obs_qsv11_av1"@, "av1"@, EncoderFamily::Qsv),
        entry_model("ffmpeg_vaapi"@, "h264"@, EncoderFamily::Vaapi),
        entry_model("hevc_ffmpeg_vaapi"@, "hevc"@, EncoderFamily::Vaapi),
        entry_model("av1_ffmpeg_vaapi"@, "av1"@, EncoderFamily::Vaapi),
        entry_model("obs_x264"@, "h264"@, EncoderFamily::X264),
    ]
}

/// The first entry with the id.
pub open spec fn find_entry(catalog: Seq<EntryModel>, id: Seq<char>) -> Option<EntryModel>
    decreases catalog.len(),
{
    if catalog.len() == 0 {
        None
    } else if catalog[0].id == id {
        Some(catalog[0])
    } else {
        find_entry(catalog.drop_first(), id)
    }
}

/// The entry of an id in either catalog.
pub open spec fn known_encoder(id: Seq<char>) -> Option<EntryModel> {
    find_entry(windows_catalog() + linux_catalog(), id)
}

fn entry(id: &'static str, codec: &'static str, family: EncoderFamily) -> (r: EncoderEntry)
    ensures
        r@ == entry_model(id@, codec@, family),
{
    EncoderEntry { id, codec, family }
}

/// Encoders of the pinned OBS build for Windows.
pub fn catalog_windows() -> (r: Vec<EncoderEntry>)
    ensures
        entry_list(r@) == windows_catalog(),
{
    let r = vec![
        entry("obs_nvenc_h264_tex", "h264", EncoderFamily::Nvenc),
        entry("obs_nvenc_hevc_tex", "hevc", EncoderFamily::Nvenc),
        entry("obs_nvenc_av1_tex", "av1", EncoderFamily::Nvenc),
        entry("h264_texture_amf", "h264", EncoderFamily::Amf),
        entry("h265_texture_amf", "hevc", EncoderFamily::Amf),
        entry("av1_texture_amf", "av1", EncoderFamily::Amf),
        entry("obs_qsv11_v2", "h264", EncoderFamily::Qsv),
        entry("obs_qsv11_hevc", "hevc", EncoderFamily::Qsv),
        entry("obs_qsv11_av1", "av1", EncoderFamily::Qsv),
        entry("obs_x264", "h264", EncoderFamily::X264),
    ];
    proof {
        assert(entry_list(r@) =~= windows_catalog());
    }
    r
}

/// Encoders of the pinned OBS build for Linux.
pub fn catalog_linux() -> (r: Vec<EncoderEntry>)
    ensures
        entry_list(r@) == linux_catalog(),
{
    let r = vec![
        entry("obs_nvenc_h264_tex", "h264", EncoderFamily::Nvenc),
        entry("obs_nvenc_hevc_tex", "hevc", EncoderFamily::Nvenc),
        entry("obs_nvenc_av1_tex", "av1", EncoderFamily::Nvenc),
        entry("obs_qsv11_v2", "h264", EncoderFamily::Qsv),
        entry("obs_qsv11_hevc", "hevc", EncoderFamily::Qsv),
        entry("obs_qsv11_av1", "av1", EncoderFamily::Qsv),
        entry("ffmpeg_vaapi", "h264", EncoderFamily::Vaapi),
        entry("hevc_ffmpeg_vaapi", "hevc", EncoderFamily::Vaapi),
        entry("av1_ffmpeg_vaapi", "av1", EncoderFamily::Vaapi),
        entry("obs_x264", "h264", EncoderFamily::X264),
    ];
    proof {
        assert(entry_list(r@) =~= linux_catalog());
    }
    r
}

/// The first entry of a list with the id.
pub fn find_in(catalog: &Vec<EncoderEntry>, id: &str) -> (r: Option<EncoderEntry>)
    ensures
        match r {
            Some(e) => find_entry(entry_list(catalog@), id@) == Some(e@),
            None => find_entry(entry_list(catalog@), id@) is None,
        },
{
    let mut i: usize = 0;
    let ghost all = entry_list(catalog@);
    proof {
        assert(all.skip(0) =~= all);
    }
    while i < catalog.len()
        invariant
            i <= catalog@.len(),
            all == entry_list(catalog@),
            find_entry(all, id@) == find_entry(all.skip(i as int), id@),
        decreases catalog@.len() - i,
    {
        let e = catalog[i];
        proof {
            assert(all.skip(i as int)[0] == e@);
            assert(all.skip(i as int).drop_first() =~= all.skip(i + 1));
        }
        if same(e.id, id) {
            return Some(e);
        }
        i = i + 1;
    }
    None
}

proof fn lemma_find_entry_concat(a: Seq<EntryModel>, b: Seq<EntryModel>, id: Seq<char>)
    ensures
        find_entry(a + b, id) == (match find_entry(a, id) {
            Some(e) => Some(e),
            None => find_entry(b, id),
        }),
    decreases a.len(),
{
    if a.len() == 0 {
        assert(a + b =~= b);
    } else {
        assert((a + b)[0] == a[0]);
        assert((a + b).drop_first() =~= a.drop_first() + b);
        lemma_find_entry_concat(a.drop_first(), b, id);
    }
}

/// Find an encoder id in either catalog.
pub fn lookup_encoder(id: &str) -> (r: Option<EncoderEntry>)
    ensures
        match r {
            Some(e) => known_encoder(id@) == Some(e@),
            None => known_encoder(id@) is None,
        },
{
    proof {
        lemma_find_entry_concat(windows_catalog(), linux_catalog(), id@);
    }
    match find_in(&catalog_windows(), id) {
        Some(e) => Some(e),
        None => find_in(&catalog_linux(), id),
    }
}

/// The family of an encoder id. Only ids of the catalogs have one.
pub open spec fn encoder_family(id: Seq<char>) -> Option<EncoderFamily> {
    match known_encoder(id) {
        Some(e) => Some(e.family),
        None => None,
    }
}

/// Which family an OBS encoder id belongs to.
pub fn family_of(encoder_id: &str) -> (r: Option<EncoderFamily>)
    ensures
        r == encoder_family(encoder_id@),
{
    match lookup_encoder(encoder_id) {
        Some(e) => Some(e.family),
        None => None,
    }
}

/// The families whose full recipe has been measured on real hardware.
pub open spec fn is_validated(family: EncoderFamily) -> bool {
    family == EncoderFamily::Nvenc || family == EncoderFamily::X264
}

/// Whether the full recipe of a family has been measured on real hardware.
pub fn family_validated(family: EncoderFamily) -> (r: bool)
    ensures
        r == is_validated(family),
{
    matches!(family, EncoderFamily::Nvenc | EncoderFamily::X264)
}

/// The families that the GPU of a vendor can drive, in order of preference.
pub open spec fn vendor_families(vendor: Seq<char>) -> Seq<EncoderFamily> {
    if vendor == "nvidia"@ {
        seq![EncoderFamily::Nvenc, EncoderFamily::X264]
    } else if vendor == "amd"@ {
        seq![EncoderFamily::Amf, EncoderFamily::Vaapi, EncoderFamily::X264]
    } else if vendor == "intel"@ {
        seq![EncoderFamily::Qsv, EncoderFamily::X264]
    } else {
        seq![EncoderFamily::X264]
    }
}

/// Families that the detected GPU vendor can drive.
pub fn families_for_vendor(vendor: &str) -> (r: Vec<EncoderFamily>)
    ensures
        r@ == vendor_families(vendor@),
{
    let r = if same(vendor, "nvidia") {
        vec![EncoderFamily::Nvenc, EncoderFamily::X264]
    } else if same(vendor, "amd") {
        vec![EncoderFamily::Amf, EncoderFamily::Vaapi, EncoderFamily::X264]
    } else if same(vendor, "intel") {
        vec![EncoderFamily::Qsv, EncoderFamily::X264]
    } else {
        vec![EncoderFamily::X264]
    };
    proof {
        assert(r@ =~= vendor_families(vendor@));
    }
    r
}

// ---------------------------------------------------------------------------
// Options of one codec
// ---------------------------------------------------------------------------
/// One option resolved for a codec: lists, range and default are already those
/// of the codec.
#[derive(Debug, Clone)]
pub struct ResolvedOption {
    pub key: &'static str,
    pub kind: SpecKind,
    pub values: Vec<&'static str>,
    pub int_values: Vec<i64>,
    pub min: i64,
    pub max: i64,
    pub step: i64,
    pub default: Option<SpecDefault>,
    pub i18n: &'static str,
    pub visible: VisibleRule,
    /// False where the option does not exist for the codec.
    pub supported: bool,
    pub p010_values: Vec<&'static str>,
    pub p010_ints: Vec<i64>,
}

/// What a resolved option stands for.
pub struct ResolvedModel {
    pub key: Seq<char>,
    pub kind: SpecKind,
    pub values: Seq<Seq<char>>,
    pub int_values: Seq<i64>,
    pub min: int,
    pub max: int,
    pub step: int,
    pub default: Option<DefaultModel>,
    pub i18n: Seq<char>,
    pub visible: VisibleModel,
    pub supported: bool,
    pub p010_values: Seq<Seq<char>>,
    pub p010_ints: Seq<i64>,
}

impl View for ResolvedOption {
    type V = ResolvedModel;

    open spec fn view(&self) -> ResolvedModel {
        ResolvedModel {
            key: self.key@,
            kind: self.kind,
            values: strs(self.values@),
            int_values: self.int_values@,
            min: self.min as int,
            max: self.max as int,
            step: self.step as int,
            default: opt_default(self.default),
            i18n: self.i18n@,
            visible: self.visible@,
            supported: self.supported,
            p010_values: strs(self.p010_values@),
            p010_ints: self.p010_ints@,
        }
    }
}

/// What a list of resolved options stands for.
pub open spec fn resolved_models(v: Seq<ResolvedOption>) -> Seq<ResolvedModel> {
    v.map_values(|o: ResolvedOption| o@)
}

/// The entry of a codec in a list by codec: the first that names it.
pub open spec fn for_codec<V>(pairs: Seq<(Seq<char>, V)>, codec: Seq<char>) -> Option<V>
    decreases pairs.len(),
{
    if pairs.len() == 0 {
        None
    } else if pairs[0].0 == codec {
        Some(pairs[0].1)
    } else {
        for_codec(pairs.drop_first(), codec)
    }
}

/// The range of a codec: the last that names it, or else `(min, max)`.
pub open spec fn range_for_codec(
    ranges: Seq<(Seq<char>, int, int)>,
    codec: Seq<char>,
    min: int,
    max: int,
) -> (int, int)
    decreases ranges.len(),
{
    if ranges.len() == 0 {
        (min, max)
    } else if ranges.last().0 == codec {
        (ranges.last().1, ranges.last().2)
    } else {
        range_for_codec(ranges.drop_last(), codec, min, max)
    }
}

/// An option as it stands for one codec.
pub open spec fn resolve_option(o: OptionModel, codec: Seq<char>) -> ResolvedModel {
    ResolvedModel {
        key: o.key,
        kind: o.kind,
        values: match for_codec(o.codec_values, codec) {
            Some(v) => v,
            None => o.values,
        },
        int_values: match for_codec(o.codec_int_values, codec) {
            Some(v) => v,
            None => o.int_values,
        },
        min: range_for_codec(o.codec_range, codec, o.min, o.max).0,
        max: range_for_codec(o.codec_range, codec, o.min, o.max).1,
        step: o.step,
        default: match for_codec(o.codec_defaults, codec) {
            Some(d) => Some(d),
            None => o.default,
        },
        i18n: o.i18n,
        visible: o.visible,
        supported: o.codecs.len() == 0 || o.codecs.contains(codec),
        p010_values: o.p010_values,
        p010_ints: o.p010_ints,
    }
}

/// The options of a family as they stand for one codec.
pub open spec fn resolved_table(family: EncoderFamily, codec: Seq<char>) -> Seq<ResolvedModel> {
    option_table(family).map_values(|o: OptionModel| resolve_option(o, codec))
}

/// A list of texts holds a text.
pub fn has_text(list: &[&'static str], s: &str) -> (r: bool)
    ensures
        r == strs(list@).contains(s@),
{
    let ghost all = strs(list@);
    let mut i: usize = 0;
    while i < list.len()
        invariant
            all == strs(list@),
            i <= list@.len(),
            forall|k: int| 0 <= k < i ==> all[k] != s@,
        decreases list@.len() - i,
    {
        if same(list[i], s) {
            proof {
                assert(all[i as int] == s@);
            }
            return true;
        }
        i = i + 1;
    }
    false
}

/// A list of integers holds an integer.
pub fn has_int(list: &[i64], n: i64) -> (r: bool)
    ensures
        r == list@.contains(n),
{
    let mut i: usize = 0;
    while i < list.len()
        invariant
            i <= list@.len(),
            forall|k: int| 0 <= k < i ==> list@[k] != n,
        decreases list@.len() - i,
    {
        if list[i] == n {
            return true;
        }
        i = i + 1;
    }
    false
}

fn copy_texts(list: &'static [&'static str]) -> (r: Vec<&'static str>)
    ensures
        r@ == list@,
{
    let mut r: Vec<&'static str> = Vec::new();
    let mut i: usize = 0;
    while i < list.len()
        invariant
            i <= list@.len(),
            r@ == list@.take(i as int),
        decreases list@.len() - i,
    {
        r.push(list[i]);
        i = i + 1;
    }
    proof {
        assert(list@.take(list@.len() as int) =~= list@);
    }
    r
}

fn copy_ints(list: &'static [i64]) -> (r: Vec<i64>)
    ensures
        r@ == list@,
{
    let mut r: Vec<i64> = Vec::new();
    let mut i: usize = 0;
    while i < list.len()
        invariant
            i <= list@.len(),
            r@ == list@.take(i as int),
        decreases list@.len() - i,
    {
        r.push(list[i]);
        i = i + 1;
    }
    proof {
        assert(list@.take(list@.len() as int) =~= list@);
    }
    r
}

fn codec_str(pairs: &Vec<(&'static str, &'static [&'static str])>, codec: &str) -> (r: Option<
    &'static [&'static str],
>)
    ensures
        match r {
            Some(v) => for_codec(codec_lists(pairs@), codec@) == Some(strs(v@)),
            None => for_codec(codec_lists(pairs@), codec@) is None,
        },
{
    let ghost all = codec_lists(pairs@);
    let mut i: usize = 0;
    proof {
        assert(all.skip(0) =~= all);
    }
    while i < pairs.len()
        invariant
            all == codec_lists(pairs@),
            i <= pairs@.len(),
            for_codec(all, codec@) == for_codec(all.skip(i as int), codec@),
        decreases pairs@.len() - i,
    {
        let p = pairs[i];
        proof {
            assert(all.skip(i as int)[0] == (p.0@, strs(p.1@)));
            assert(all.skip(i as int).drop_first() =~= all.skip(i + 1));
        }
        if same(p.0, codec) {
            return Some(p.1);
        }
        i = i + 1;
    }
    None
}

fn codec_ints(pairs: &Vec<(&'static str, &'static [i64])>, codec: &str) -> (r: Option<
    &'static [i64],
>)
    ensures
        match r {
            Some(v) => for_codec(codec_int_lists(pairs@), codec@) == Some(v@),
            None => for_codec(codec_int_lists(pairs@), codec@) is None,
        },
{
    let ghost all = codec_int_lists(pairs@);
    let mut i: usize = 0;
    proof {
        assert(all.skip(0) =~= all);
    }
    while i < pairs.len()
        invariant
            all == codec_int_lists(pairs@),
            i <= pairs@.len(),
            for_codec(all, codec@) == for_codec(all.skip(i as int), codec@),
        decreases pairs@.len() - i,
    {
        let p = pairs[i];
        proof {
            assert(all.skip(i as int)[0] == (p.0@, p.1@));
            assert(all.skip(i as int).drop_first() =~= all.skip(i + 1));
        }
        if same(p.0, codec) {
            return Some(p.1);
        }
        i = i + 1;
    }
    None
}

fn codec_default(pairs: &Vec<(&'static str, SpecDefault)>, codec: &str) -> (r: Option<SpecDefault>)
    ensures
        opt_default(r) == for_codec(codec_default_list(pairs@), codec@),
{
    let ghost all = codec_default_list(pairs@);
    let mut i: usize = 0;
    proof {
        assert(all.skip(0) =~= all);
    }
    while i < pairs.len()
        invariant
            all == codec_default_list(pairs@),
            i <= pairs@.len(),
            for_codec(all, codec@) == for_codec(all.skip(i as int), codec@),
        decreases pairs@.len() - i,
    {
        let p = pairs[i];
        proof {
            assert(all.skip(i as int)[0] == (p.0@, p.1@));
            assert(all.skip(i as int).drop_first() =~= all.skip(i + 1));
        }
        if same(p.0, codec) {
            return Some(p.1);
        }
        i = i + 1;
    }
    None
}

/// An option as it stands for one codec.
pub fn resolve_spec(s: &OptionSpec, codec: &str) -> (r: ResolvedOption)
    ensures
        r@ == resolve_option(s@, codec@),
{
    let supported = s.codecs.len() == 0 || has_text(s.codecs, codec);
    let values: Vec<&'static str> = match codec_str(&s.codec_values, codec) {
        Some(v) => copy_texts(v),
        None => copy_texts(s.values),
    };
    let mut min: i64 = s.min;
    let mut max: i64 = s.max;
    let ghost ranges = codec_ranges(s.codec_range@);
    let mut i: usize = 0;
    while i < s.codec_range.len()
        invariant
            ranges == codec_ranges(s.codec_range@),
            i <= s.codec_range@.len(),
            (min as int, max as int) == range_for_codec(
                ranges.take(i as int),
                codec@,
                s.min as int,
                s.max as int,
            ),
        decreases s.codec_range@.len() - i,
    {
        let p = s.codec_range[i];
        proof {
            assert(ranges.take(i + 1).last() == (p.0@, p.1 as int, p.2 as int));
            assert(ranges.take(i + 1).drop_last() =~= ranges.take(i as int));
        }
        if same(p.0, codec) {
            min = p.1;
            max = p.2;
        }
        i = i + 1;
    }
    let int_values: Vec<i64> = match codec_ints(&s.codec_int_values, codec) {
        Some(v) => copy_ints(v),
        None => copy_ints(s.int_values),
    };
    let default = match codec_default(&s.codec_defaults, codec) {
        Some(d) => Some(d),
        None => s.default,
    };
    let r = ResolvedOption {
        key: s.key,
        kind: s.kind,
        values,
        int_values,
        min,
        max,
        step: s.step,
        default,
        i18n: s.i18n,
        visible: s.visible,
        supported,
        p010_values: copy_texts(s.p010_values),
        p010_ints: copy_ints(s.p010_ints),
    };
    proof {
        assert(ranges.take(ranges.len() as int) =~= ranges);
    }
    r
}

/// Every option of a family resolved for one codec, for the option form and
/// the checks alike.
pub fn resolved_options(family: EncoderFamily, codec: &str) -> (r: Vec<ResolvedOption>)
    ensures
        resolved_models(r@) == resolved_table(family, codec@),
{
    let specs = options_for(family);
    let ghost table = option_table(family);
    let mut r: Vec<ResolvedOption> = Vec::new();
    let mut i: usize = 0;
    while i < specs.len()
        invariant
            option_models(specs@) == table,
            table == option_table(family),
            i <= specs@.len(),
            resolved_models(r@) =~= resolved_table(family, codec@).take(i as int),
        decreases specs@.len() - i,
    {
        let o = resolve_spec(&specs[i], codec);
        let ghost before = r@;
        r.push(o);
        proof {
            assert(table[i as int] == specs@[i as int]@);
            assert(resolved_table(family, codec@)[i as int] == o@);
            assert(resolved_models(r@) =~= resolved_models(before).push(o@));
        }
        i = i + 1;
    }
    proof {
        assert(resolved_table(family, codec@).len() == table.len());
        assert(table.len() == specs@.len());
        assert(resolved_models(r@) =~= resolved_table(family, codec@));
    }
    r
}

/// The first resolved option with the key.
pub open spec fn find_option(options: Seq<ResolvedModel>, key: Seq<char>) -> Option<ResolvedModel>
    decreases options.len(),
{
    if options.len() == 0 {
        None
    } else if options[0].key == key {
        Some(options[0])
    } else {
        find_option(options.drop_first(), key)
    }
}

fn find_resolved<'a>(options: &'a Vec<ResolvedOption>, key: &str) -> (r: Option<&'a ResolvedOption>)
    ensures
        match r {
            Some(o) => find_option(resolved_models(options@), key@) == Some(o@),
            None => find_option(resolved_models(options@), key@) is None,
        },
{
    let ghost all = resolved_models(options@);
    let mut i: usize = 0;
    proof {
        assert(all.skip(0) =~= all);
    }
    while i < options.len()
        invariant
            all == resolved_models(options@),
            i <= options@.len(),
            find_option(all, key@) == find_option(all.skip(i as int), key@),
        decreases options@.len() - i,
    {
        proof {
            assert(all.skip(i as int)[0] == options@[i as int]@);
            assert(all.skip(i as int).drop_first() =~= all.skip(i + 1));
        }
        if same(options[i].key, key) {
            return Some(&options[i]);
        }
        i = i + 1;
    }
    None
}

// ---------------------------------------------------------------------------
// Color formats
// ---------------------------------------------------------------------------
/// Color spaces of the video settings.
pub const COLOR_SPACES: [&'static str; 5] = ["601", "709", "sRGB", "2100PQ", "2100HLG"];

/// Color ranges of the video settings.
pub const COLOR_RANGES: [&'static str; 2] = ["Partial", "Full"];

/// Scale filters of the video settings.
pub const SCALE_FILTERS: [&'static str; 6] = [
    "disable",
    "point",
    "bilinear",
    "bicubic",
    "lanczos",
    "area",
];

pub const FORMATS_X264: [&'static str; 3] = ["NV12", "I420", "I444"];

pub const FORMATS_NV12: [&'static str; 1] = ["NV12"];

pub const FORMATS_10BIT: [&'static str; 2] = ["NV12", "P010"];

pub const FORMATS_8BIT: [&'static str; 2] = ["NV12", "I420"];

pub const FORMATS_ALL: [&'static str; 4] = ["NV12", "I420", "I444", "P010"];

/// The color formats that a family accepts for a codec. x264 takes no
/// high-precision format, QSV's H.264 takes NV12 alone, HEVC and AV1 take P010
/// on every GPU family, and NVENC takes them all.
pub open spec fn color_formats(family: EncoderFamily, codec: Seq<char>) -> Seq<Seq<char>> {
    match family {
        EncoderFamily::X264 => strs(FORMATS_X264@),
        EncoderFamily::Qsv => if codec == "h264"@ {
            strs(FORMATS_NV12@)
        } else {
            strs(FORMATS_10BIT@)
        },
        EncoderFamily::Amf | EncoderFamily::Vaapi => if codec == "hevc"@ || codec == "av1"@ {
            strs(FORMATS_10BIT@)
        } else {
            strs(FORMATS_8BIT@)
        },
        EncoderFamily::Nvenc => strs(FORMATS_ALL@),
    }
}

/// Color formats that a family accepts for a codec.
pub fn valid_color_formats(family: EncoderFamily, codec: &str) -> (r: &'static [&'static str])
    ensures
        strs(r@) == color_formats(family, codec@),
{
    match family {
        EncoderFamily::X264 => &FORMATS_X264,
        EncoderFamily::Qsv => {
            if same(codec, "h264") {
                &FORMATS_NV12
            } else {
                &FORMATS_10BIT
            }
        },
        EncoderFamily::Amf | EncoderFamily::Vaapi => {
            if same(codec, "hevc") || same(codec, "av1") {
                &FORMATS_10BIT
            } else {
                &FORMATS_8BIT
            }
        },
        EncoderFamily::Nvenc => &FORMATS_ALL,
    }
}

// ---------------------------------------------------------------------------
// Recipes
// ---------------------------------------------------------------------------
/// The settings written where a family has not been measured: constant bitrate
/// and nothing else, so that OBS applies its own defaults.
pub open spec fn auto_settings(bitrate_kbps: nat) -> Seq<(Seq<char>, JsonModel)> {
    seq![
        ("bitrate"@, JsonModel::Int(bitrate_kbps as int)),
        ("rate_control"@, JsonModel::Str("CBR"@)),
    ]
}

/// The measured settings of NVENC. GPU index 0 leaves the choice to OBS.
pub open spec fn nvenc_settings(bitrate_kbps: nat, gpu_index: nat, codec: Seq<char>) -> Seq<
    (Seq<char>, JsonModel),
> {
    seq![
        ("adaptive_quantization"@, JsonModel::Bool(true)),
        ("bf"@, JsonModel::Int(2)),
        ("bitrate"@, JsonModel::Int(bitrate_kbps as int)),
        (
            "device"@,
            JsonModel::Int(
                if gpu_index == 0 {
                    -1
                } else {
                    gpu_index as int
                },
            ),
        ),
        ("keyint_sec"@, JsonModel::Int(2)),
        ("lookahead"@, JsonModel::Bool(false)),
        ("max_bitrate"@, JsonModel::Int(bitrate_kbps as int)),
        ("multipass"@, JsonModel::Str("disabled"@)),
        ("preset"@, JsonModel::Str("p5"@)),
        (
            "profile"@,
            JsonModel::Str(
                if codec == "hevc"@ || codec == "av1"@ {
                    "main"@
                } else {
                    "high"@
                },
            ),
        ),
        ("rate_control"@, JsonModel::Str("CBR"@)),
        ("tune"@, JsonModel::Str("hq"@)),
    ]
}

/// The measured settings of x264.
pub open spec fn x264_settings(bitrate_kbps: nat) -> Seq<(Seq<char>, JsonModel)> {
    seq![
        ("bitrate"@, JsonModel::Int(bitrate_kbps as int)),
        ("keyint_sec"@, JsonModel::Int(2)),
        ("preset"@, JsonModel::Str("veryfast"@)),
        ("profile"@, JsonModel::Str("high"@)),
        ("rate_control"@, JsonModel::Str("CBR"@)),
    ]
}

/// The settings of the bitrate ladder for an encoder id: measured where the
/// family has been, automatic where it has not, none for an unknown id.
pub open spec fn ladder_settings(
    encoder_id: Seq<char>,
    bitrate_kbps: nat,
    gpu_index: nat,
    codec: Seq<char>,
) -> Option<Seq<(Seq<char>, JsonModel)>> {
    match encoder_family(encoder_id) {
        None => None,
        Some(EncoderFamily::Nvenc) => Some(nvenc_settings(bitrate_kbps, gpu_index, codec)),
        Some(EncoderFamily::X264) => Some(x264_settings(bitrate_kbps)),
        Some(_) => Some(auto_settings(bitrate_kbps)),
    }
}

fn kv_text(k: &str, v: &str) -> (r: (String, Json))
    ensures
        r.0@ == k@,
        r.1@ == JsonModel::Str(v@),
{
    (k.to_owned(), Json::Str(v.to_owned()))
}

fn kv_int(k: &str, v: u32) -> (r: (String, Json))
    ensures
        r.0@ == k@,
        r.1@ == JsonModel::Int(v as int),
{
    (k.to_owned(), Json::Unsigned(v as u64))
}

fn kv_bool(k: &str, v: bool) -> (r: (String, Json))
    ensures
        r.0@ == k@,
        r.1@ == JsonModel::Bool(v),
{
    (k.to_owned(), Json::Bool(v))
}

/// Recipe where a family has not been measured.
pub fn auto_recipe(bitrate_kbps: u32) -> (r: Vec<(String, Json)>)
    ensures
        json_entries(r@) == auto_settings(bitrate_kbps as nat),
        entries_writable(r@),
{
    let r = vec![kv_int("bitrate", bitrate_kbps), kv_text("rate_control", "CBR")];
    proof {
        assert(json_entries(r@) =~= auto_settings(bitrate_kbps as nat));
    }
    r
}

/// Measured recipe of NVENC.
pub fn measured_nvenc(bitrate_kbps: u32, gpu_index: u32, codec: &str) -> (r: Vec<(String, Json)>)
    ensures
        json_entries(r@) == nvenc_settings(bitrate_kbps as nat, gpu_index as nat, codec@),
        entries_writable(r@),
{
    let device: i64 = if gpu_index == 0 {
        -1
    } else {
        gpu_index as i64
    };
    let profile = if same(codec, "hevc") || same(codec, "av1") {
        "main"
    } else {
        "high"
    };
    let r = vec![
        kv_bool("adaptive_quantization", true),
        kv_int("bf", 2),
        kv_int("bitrate", bitrate_kbps),
        ("device".to_owned(), Json::Signed(device)),
        kv_int("keyint_sec", 2),
        kv_bool("lookahead", false),
        kv_int("max_bitrate", bitrate_kbps),
        kv_text("multipass", "disabled"),
        kv_text("preset", "p5"),
        kv_text("profile", profile),
        kv_text("rate_control", "CBR"),
        kv_text("tune", "hq"),
    ];
    proof {
        assert(json_entries(r@) =~= nvenc_settings(bitrate_kbps as nat, gpu_index as nat, codec@));
    }
    r
}

/// Measured recipe of x264.
pub fn measured_x264(bitrate_kbps: u32) -> (r: Vec<(String, Json)>)
    ensures
        json_entries(r@) == x264_settings(bitrate_kbps as nat),
        entries_writable(r@),
{
    let r = vec![
        kv_int("bitrate", bitrate_kbps),
        kv_int("keyint_sec", 2),
        kv_text("preset", "veryfast"),
        kv_text("profile", "high"),
        kv_text("rate_control", "CBR"),
    ];
    proof {
        assert(json_entries(r@) =~= x264_settings(bitrate_kbps as nat));
    }
    r
}

/// Ladder recipe of an encoder id.
pub fn ladder_recipe(encoder_id: &str, bitrate_kbps: u32, gpu_index: u32, codec: &str) -> (r:
    Option<Vec<(String, Json)>>)
    ensures
        match r {
            Some(settings) => ladder_settings(
                encoder_id@,
                bitrate_kbps as nat,
                gpu_index as nat,
                codec@,
            ) == Some(json_entries(settings@)),
            None => ladder_settings(encoder_id@, bitrate_kbps as nat, gpu_index as nat, codec@)
                is None,
        },
        r matches Some(settings) ==> entries_writable(settings@),
{
    match family_of(encoder_id) {
        None => None,
        Some(EncoderFamily::Nvenc) => Some(measured_nvenc(bitrate_kbps, gpu_index, codec)),
        Some(EncoderFamily::X264) => Some(measured_x264(bitrate_kbps)),
        Some(_) => Some(auto_recipe(bitrate_kbps)),
    }
}

// ---------------------------------------------------------------------------
// Checking settings
// ---------------------------------------------------------------------------
/// The color format is known and is not the 10-bit one.
pub open spec fn is_8bit(color_format: Option<Seq<char>>) -> bool {
    color_format is Some && color_format->0 != "P010"@
}

/// What is wrong with one setting, given the option of its key.
pub open spec fn setting_error(
    option: Option<ResolvedModel>,
    codec: Seq<char>,
    key: Seq<char>,
    value: JsonModel,
    color_format: Option<Seq<char>>,
) -> Option<Seq<char>> {
    match option {
        None => Some("unknown option '"@ + key + "' for this encoder"@),
        Some(o) => if !o.supported {
            Some("option '"@ + key + "' not valid for "@ + codec + " on this encoder"@)
        } else {
            match o.kind {
                SpecKind::Enum => match value.as_str() {
                    None => Some("option '"@ + key + "' must be text"@),
                    Some(s) => if !o.values.contains(s) {
                        Some("invalid value '"@ + s + "' for '"@ + key + "'"@)
                    } else if o.p010_values.contains(s) && is_8bit(color_format) {
                        Some("profile '"@ + s + "' needs P010 color format (10-bit)"@)
                    } else {
                        None
                    },
                },
                SpecKind::Int => match value.as_i64() {
                    None => Some("option '"@ + key + "' must be an integer"@),
                    Some(n) => if o.int_values.len() > 0 && !o.int_values.contains(n as i64) {
                        Some("invalid value "@ + decimal_int(n) + " for '"@ + key + "'"@)
                    } else if o.int_values.len() == 0 && (n < o.min || n > o.max) {
                        Some(
                            ("option '"@ + key + "' must be "@ + decimal_int(o.min) + "-"@) + (
                            decimal_int(o.max) + " (got "@ + decimal_int(n) + ")"@),
                        )
                    } else if o.p010_ints.contains(n as i64) && is_8bit(color_format) {
                        Some("profile "@ + decimal_int(n) + " needs P010 color format (10-bit)"@)
                    } else {
                        None
                    },
                },
                SpecKind::Bool => match value.as_bool() {
                    None => Some("option '"@ + key + "' must be true/false"@),
                    Some(_) => None,
                },
                SpecKind::Text => match value.as_str() {
                    None => Some("option '"@ + key + "' must be text"@),
                    Some(_) => None,
                },
            }
        },
    }
}

/// What is wrong with a list of settings: the first thing wrong with one of them.
pub open spec fn settings_error(
    options: Seq<ResolvedModel>,
    codec: Seq<char>,
    settings: Seq<(Seq<char>, JsonModel)>,
    color_format: Option<Seq<char>>,
) -> Option<Seq<char>>
    decreases settings.len(),
{
    if settings.len() == 0 {
        None
    } else {
        let (key, value) = settings[0];
        match setting_error(find_option(options, key), codec, key, value, color_format) {
            Some(e) => Some(e),
            None => settings_error(options, codec, settings.drop_first(), color_format),
        }
    }
}

/// The content of an optional text.
pub open spec fn opt_str(s: Option<&str>) -> Option<Seq<char>> {
    match s {
        Some(t) => Some(t@),
        None => None,
    }
}

fn eight_bit(color_format: Option<&str>) -> (r: bool)
    ensures
        r == is_8bit(opt_str(color_format)),
{
    match color_format {
        Some(c) => !same(c, "P010"),
        None => false,
    }
}

fn check_enum(o: &ResolvedOption, key: &str, value: &Json, color_format: Option<&str>) -> (r: Option<
    String,
>)
    requires
        o.supported,
        o.kind == SpecKind::Enum,
    ensures
        forall|codec: Seq<char>| #[trigger]
            setting_error(Some(o@), codec, key@, value@, opt_str(color_format)) == opt_text(r),
{
    match value.as_str() {
        None => Some(cat3("option '", key, "' must be text")),
        Some(s) => {
            if !has_text(o.values.as_slice(), s) {
                Some(cat5("invalid value '", s, "' for '", key, "'"))
            } else if has_text(o.p010_values.as_slice(), s) && eight_bit(color_format) {
                Some(cat3("profile '", s, "' needs P010 color format (10-bit)"))
            } else {
                None
            }
        },
    }
}

fn check_int(o: &ResolvedOption, key: &str, value: &Json, color_format: Option<&str>) -> (r: Option<
    String,
>)
    requires
        o.supported,
        o.kind == SpecKind::Int,
    ensures
        forall|codec: Seq<char>| #[trigger]
            setting_error(Some(o@), codec, key@, value@, opt_str(color_format)) == opt_text(r),
{
    match value.as_i64() {
        None => Some(cat3("option '", key, "' must be an integer")),
        Some(n) => {
            let shown = decimal_of_int(n);
            if o.int_values.len() > 0 && !has_int(o.int_values.as_slice(), n) {
                Some(cat5("invalid value ", shown.as_str(), " for '", key, "'"))
            } else if o.int_values.len() == 0 && (n < o.min || n > o.max) {
                let min = decimal_of_int(o.min);
                let max = decimal_of_int(o.max);
                let head = cat5("option '", key, "' must be ", min.as_str(), "-");
                let got = cat3(max.as_str(), " (got ", shown.as_str());
                let tail = cat(got.as_str(), ")");
                Some(cat(head.as_str(), tail.as_str()))
            } else if has_int(o.p010_ints.as_slice(), n) && eight_bit(color_format) {
                Some(cat3("profile ", shown.as_str(), " needs P010 color format (10-bit)"))
            } else {
                None
            }
        },
    }
}

/// What is wrong with one setting.
pub fn check_setting(
    options: &Vec<ResolvedOption>,
    codec: &str,
    key: &str,
    value: &Json,
    color_format: Option<&str>,
) -> (r: Option<String>)
    ensures
        opt_text(r) == setting_error(
            find_option(resolved_models(options@), key@),
            codec@,
            key@,
            value@,
            opt_str(color_format),
        ),
{
    match find_resolved(options, key) {
        None => Some(cat3("unknown option '", key, "' for this encoder")),
        Some(o) => {
            if !o.supported {
                return Some(cat5("option '", key, "' not valid for ", codec, " on this encoder"));
            }
            match o.kind {
                SpecKind::Enum => check_enum(o, key, value, color_format),
                SpecKind::Int => check_int(o, key, value, color_format),
                SpecKind::Bool => match value.as_bool() {
                    None => Some(cat3("option '", key, "' must be true/false")),
                    Some(_) => None,
                },
                SpecKind::Text => match value.as_str() {
                    None => Some(cat3("option '", key, "' must be text")),
                    Some(_) => None,
                },
            }
        },
    }
}

/// Check settings against the registry: unknown keys, options and values that
/// the codec does not have, and numbers out of range are refused, because OBS
/// would ignore the key or encode wrongly. Where `color_format` is given, 10-bit
/// profiles need P010. Settings that pass come back as they are.
pub fn validate_pair(
    family: EncoderFamily,
    codec: &str,
    settings: &Vec<(String, Json)>,
    color_format: Option<&str>,
) -> (r: Result<Vec<(String, Json)>, String>)
    ensures
        match r {
            Ok(out) => json_entries(out@) == json_entries(settings@) && settings_error(
                resolved_table(family, codec@),
                codec@,
                json_entries(settings@),
                opt_str(color_format),
            ) is None,
            Err(e) => settings_error(
                resolved_table(family, codec@),
                codec@,
                json_entries(settings@),
                opt_str(color_format),
            ) == Some(e@),
        },
        r matches Ok(out) ==> entries_writable(out@),
{
    let options = resolved_options(family, codec);
    let ghost table = resolved_table(family, codec@);
    let ghost all = json_entries(settings@);
    let mut out: Vec<(String, Json)> = Vec::new();
    let mut i: usize = 0;
    proof {
        assert(all.skip(0) =~= all);
    }
    while i < settings.len()
        invariant
            resolved_models(options@) == table,
            table == resolved_table(family, codec@),
            all == json_entries(settings@),
            i <= settings@.len(),
            json_entries(out@) =~= all.take(i as int),
            entries_writable(out@),
            settings_error(table, codec@, all, opt_str(color_format)) == settings_error(
                table,
                codec@,
                all.skip(i as int),
                opt_str(color_format),
            ),
        decreases settings@.len() - i,
    {
        let entry = &settings[i];
        proof {
            assert(all.skip(i as int)[0] == (entry.0@, entry.1@));
            assert(all.skip(i as int).drop_first() =~= all.skip(i + 1));
        }
        match check_setting(&options, codec, entry.0.as_str(), &entry.1, color_format) {
            Some(e) => {
                return Err(e);
            },
            None => {},
        }
        let ghost before = out@;
        let value = entry.1.copy();
        proof {
            lemma_scalar_writable(value);
        }
        out.push((entry.0.clone(), value));
        proof {
            assert(json_entries(out@) =~= json_entries(before).push(all[i as int]));
        }
        i = i + 1;
    }
    proof {
        assert(json_entries(out@) =~= all);
    }
    Ok(out)
}

/// Check settings without a color format.
pub fn validate(family: EncoderFamily, codec: &str, settings: &Vec<(String, Json)>) -> (r: Result<
    Vec<(String, Json)>,
    String,
>)
    ensures
        match r {
            Ok(out) => json_entries(out@) == json_entries(settings@) && settings_error(
                resolved_table(family, codec@),
                codec@,
                json_entries(settings@),
                None,
            ) is None,
            Err(e) => settings_error(
                resolved_table(family, codec@),
                codec@,
                json_entries(settings@),
                None,
            ) == Some(e@),
        },
{
    validate_pair(family, codec, settings, None)
}

} // verus!
