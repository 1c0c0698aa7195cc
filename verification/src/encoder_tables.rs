//! The option tables of the encoder families, key by key and value by value
//! as OBS 32.2.2 names them. OBS ignores unknown keys without a word, so
//! nothing outside these tables is ever written.
//!
//! Sources in obs-studio 32.2.2:
//! - NVENC: `plugins/obs-nvenc/nvenc-properties.c`
//! - x264: `plugins/obs-x264/obs-x264.c`
//! - QSV: `plugins/obs-qsv11/obs-qsv11.c` (v2 properties)
//! - AMF: `plugins/obs-ffmpeg/texture-amf.cpp`
//! - VAAPI: `plugins/obs-ffmpeg/obs-ffmpeg-vaapi.c` (`profile` and `level` are
//!   FFmpeg's integers, `qp` is 0-51)

use vstd::prelude::*;

verus! {

broadcast use vstd::string::group_string_axioms;

/// Encoder family behind one OBS encoder id.
#[derive(Debug, Clone, Copy, PartialEq, Eq, Structural)]
pub enum EncoderFamily {
    Nvenc,
    X264,
    Qsv,
    Amf,
    Vaapi,
}

/// Schema kind of one encoder option.
#[derive(Debug, Clone, Copy, PartialEq, Eq, Structural)]
pub enum SpecKind {
    /// Text from a fixed list (`values`).
    Enum,
    /// Integer: free range (`min..=max`, `step`) or fixed list (`int_values`).
    Int,
    Bool,
    /// Free text.
    Text,
}

/// Default value of an option.
#[derive(Debug, Clone, Copy, PartialEq, Eq)]
pub enum SpecDefault {
    Str(&'static str),
    Int(i64),
    Bool(bool),
}

/// What a default value stands for.
pub enum DefaultModel {
    Str(Seq<char>),
    Int(int),
    Bool(bool),
}

impl View for SpecDefault {
    type V = DefaultModel;

    open spec fn view(&self) -> DefaultModel {
        match *self {
            SpecDefault::Str(s) => DefaultModel::Str(s@),
            SpecDefault::Int(n) => DefaultModel::Int(n as int),
            SpecDefault::Bool(b) => DefaultModel::Bool(b),
        }
    }
}

/// What an optional default stands for.
pub open spec fn opt_default(d: Option<SpecDefault>) -> Option<DefaultModel> {
    match d {
        Some(d) => Some(d@),
        None => None,
    }
}

/// The contents of a list of fixed texts.
pub open spec fn strs(v: Seq<&'static str>) -> Seq<Seq<char>> {
    v.map_values(|s: &'static str| s@)
}

/// Visibility rule against the current draft: the sibling under the key of
/// `when` has one of its values, and the one of `and_when` too where present.
/// Sibling values compare as text (`true` and `false` for truth values).
#[derive(Debug, Clone, Copy)]
pub struct VisibleRule {
    pub when: Option<(&'static str, &'static [&'static str])>,
    pub and_when: Option<(&'static str, &'static [&'static str])>,
}

/// What one condition of a visibility rule stands for.
pub open spec fn condition(c: Option<(&'static str, &'static [&'static str])>) -> Option<
    (Seq<char>, Seq<Seq<char>>),
> {
    match c {
        Some((key, values)) => Some((key@, strs(values@))),
        None => None,
    }
}

/// What a visibility rule stands for.
pub struct VisibleModel {
    pub when: Option<(Seq<char>, Seq<Seq<char>>)>,
    pub and_when: Option<(Seq<char>, Seq<Seq<char>>)>,
}

impl View for VisibleRule {
    type V = VisibleModel;

    open spec fn view(&self) -> VisibleModel {
        VisibleModel { when: condition(self.when), and_when: condition(self.and_when) }
    }
}

/// No condition.
pub open spec fn always_visible() -> VisibleModel {
    VisibleModel { when: None, and_when: None }
}

/// One condition.
pub open spec fn visible_when(key: Seq<char>, values: Seq<Seq<char>>) -> VisibleModel {
    VisibleModel { when: Some((key, values)), and_when: None }
}

impl VisibleRule {
    /// The rule without conditions.
    pub fn always() -> (r: VisibleRule)
        ensures
            r@ == always_visible(),
    {
        VisibleRule { when: None, and_when: None }
    }

    /// The rule with one condition.
    pub fn when(key: &'static str, values: &'static [&'static str]) -> (r: VisibleRule)
        ensures
            r@ == visible_when(key@, strs(values@)),
    {
        VisibleRule { when: Some((key, values)), and_when: None }
    }
}

/// One encoder option exactly as OBS names it.
#[derive(Debug, Clone)]
pub struct OptionSpec {
    pub key: &'static str,
    pub kind: SpecKind,
    /// Texts to choose from (empty for other kinds).
    pub values: &'static [&'static str],
    /// Fixed integers (empty: the free range `min..=max`).
    pub int_values: &'static [i64],
    pub min: i64,
    pub max: i64,
    pub step: i64,
    /// OBS default; `None` where OBS sets none and nothing is written.
    pub default: Option<SpecDefault>,
    /// Key of the translated label.
    pub i18n: &'static str,
    pub visible: VisibleRule,
    /// Codecs that the option exists for (empty: all).
    pub codecs: &'static [&'static str],
    /// Texts to choose from by codec (a codec without an entry takes `values`).
    pub codec_values: Vec<(&'static str, &'static [&'static str])>,
    /// Range by codec (a codec without an entry takes `min..=max`).
    pub codec_range: Vec<(&'static str, i64, i64)>,
    /// Fixed integers by codec (a codec without an entry takes `int_values`).
    pub codec_int_values: Vec<(&'static str, &'static [i64])>,
    /// Default by codec (a codec without an entry takes `default`).
    pub codec_defaults: Vec<(&'static str, SpecDefault)>,
    /// Texts that need the P010 color format (10-bit profiles).
    pub p010_values: &'static [&'static str],
    /// Integers that need the P010 color format.
    pub p010_ints: &'static [i64],
}

/// What an encoder option stands for.
pub struct OptionModel {
    pub key: Seq<char>,
    pub kind: SpecKind,
    pub values: Seq<Seq<char>>,
    pub int_values: Seq<i64>,
    pub min: int,
    pub max: int,
    pub step: int,
    pub default: Option<DefaultModel>,
    pub i18n: Seq<char>,
    pub visible: VisibleModel,
    pub codecs: Seq<Seq<char>>,
    pub codec_values: Seq<(Seq<char>, Seq<Seq<char>>)>,
    pub codec_range: Seq<(Seq<char>, int, int)>,
    pub codec_int_values: Seq<(Seq<char>, Seq<i64>)>,
    pub codec_defaults: Seq<(Seq<char>, DefaultModel)>,
    pub p010_values: Seq<Seq<char>>,
    pub p010_ints: Seq<i64>,
}

/// What text lists by codec stand for.
pub open spec fn codec_lists(v: Seq<(&'static str, &'static [&'static str])>) -> Seq<
    (Seq<char>, Seq<Seq<char>>),
> {
    v.map_values(|e: (&'static str, &'static [&'static str])| (e.0@, strs(e.1@)))
}

/// What ranges by codec stand for.
pub open spec fn codec_ranges(v: Seq<(&'static str, i64, i64)>) -> Seq<(Seq<char>, int, int)> {
    v.map_values(|e: (&'static str, i64, i64)| (e.0@, e.1 as int, e.2 as int))
}

/// What integer lists by codec stand for.
pub open spec fn codec_int_lists(v: Seq<(&'static str, &'static [i64])>) -> Seq<
    (Seq<char>, Seq<i64>),
> {
    v.map_values(|e: (&'static str, &'static [i64])| (e.0@, e.1@))
}

/// What defaults by codec stand for.
pub open spec fn codec_default_list(v: Seq<(&'static str, SpecDefault)>) -> Seq<
    (Seq<char>, DefaultModel),
> {
    v.map_values(|e: (&'static str, SpecDefault)| (e.0@, e.1@))
}

impl View for OptionSpec {
    type V = OptionModel;

    open spec fn view(&self) -> OptionModel {
        OptionModel {
            key: self.key@,
            kind: self.kind,
            values: strs(self.values@),
            int_values: self.int_values@,
            min: self.min as int,
            max: self.max as int,
            step: self.step as int,
            default: opt_default(self.default),
            i18n: self.i18n@,
            visible: self.visible@,
            codecs: strs(self.codecs@),
            codec_values: codec_lists(self.codec_values@),
            codec_range: codec_ranges(self.codec_range@),
            codec_int_values: codec_int_lists(self.codec_int_values@),
            codec_defaults: codec_default_list(self.codec_defaults@),
            p010_values: strs(self.p010_values@),
            p010_ints: self.p010_ints@,
        }
    }
}

/// What a list of options stands for.
pub open spec fn option_models(v: Seq<OptionSpec>) -> Seq<OptionModel> {
    v.map_values(|o: OptionSpec| o@)
}

pub const NO_TEXTS: [&'static str; 0] = [];

pub const NO_INTS: [i64; 0] = [];

/// An option without value lists, default, conditions or codec rules.
pub open spec fn bare_option(key: Seq<char>, kind: SpecKind, i18n: Seq<char>) -> OptionModel {
    OptionModel {
        key,
        kind,
        values: seq![],
        int_values: seq![],
        min: 0,
        max: 0,
        step: 0,
        default: None,
        i18n,
        visible: always_visible(),
        codecs: seq![],
        codec_values: seq![],
        codec_range: seq![],
        codec_int_values: seq![],
        codec_defaults: seq![],
        p010_values: seq![],
        p010_ints: seq![],
    }
}

/// An option that takes a text out of a list.
pub open spec fn enum_option(
    key: Seq<char>,
    values: Seq<Seq<char>>,
    default: Seq<char>,
    i18n: Seq<char>,
    visible: VisibleModel,
) -> OptionModel {
    OptionModel {
        values,
        default: Some(DefaultModel::Str(default)),
        visible,
        ..bare_option(key, SpecKind::Enum, i18n)
    }
}

/// An option that takes an integer out of a range.
pub open spec fn int_option(
    key: Seq<char>,
    min: int,
    max: int,
    step: int,
    default: Option<DefaultModel>,
    i18n: Seq<char>,
    visible: VisibleModel,
) -> OptionModel {
    OptionModel { min, max, step, default, visible, ..bare_option(key, SpecKind::Int, i18n) }
}

/// An option that is on or off.
pub open spec fn bool_option(key: Seq<char>, default: bool, i18n: Seq<char>) -> OptionModel {
    OptionModel {
        max: 1,
        step: 1,
        default: Some(DefaultModel::Bool(default)),
        ..bare_option(key, SpecKind::Bool, i18n)
    }
}

/// An option that takes any text.
pub open spec fn text_option(key: Seq<char>, i18n: Seq<char>) -> OptionModel {
    bare_option(key, SpecKind::Text, i18n)
}

fn bare(key: &'static str, kind: SpecKind, i18n: &'static str) -> (r: OptionSpec)
    ensures
        r@ == bare_option(key@, kind, i18n@),
{
    let r = OptionSpec {
        key,
        kind,
        values: &NO_TEXTS,
        int_values: &NO_INTS,
        min: 0,
        max: 0,
        step: 0,
        default: None,
        i18n,
        visible: VisibleRule::always(),
        codecs: &NO_TEXTS,
        codec_values: Vec::new(),
        codec_range: Vec::new(),
        codec_int_values: Vec::new(),
        codec_defaults: Vec::new(),
        p010_values: &NO_TEXTS,
        p010_ints: &NO_INTS,
    };
    proof {
        let m = bare_option(key@, kind, i18n@);
        assert(r@.values =~= m.values);
        assert(r@.int_values =~= m.int_values);
        assert(r@.codecs =~= m.codecs);
        assert(r@.codec_values =~= m.codec_values);
        assert(r@.codec_range =~= m.codec_range);
        assert(r@.codec_int_values =~= m.codec_int_values);
        assert(r@.codec_defaults =~= m.codec_defaults);
        assert(r@.p010_values =~= m.p010_values);
        assert(r@.p010_ints =~= m.p010_ints);
    }
    r
}

fn en(
    key: &'static str,
    values: &'static [&'static str],
    default: &'static str,
    i18n: &'static str,
    visible: VisibleRule,
) -> (r: OptionSpec)
    ensures
        r@ == enum_option(key@, strs(values@), default@, i18n@, visible@),
{
    OptionSpec {
        values,
        default: Some(SpecDefault::Str(default)),
        visible,
        ..bare(key, SpecKind::Enum, i18n)
    }
}

fn int_in(
    key: &'static str,
    min: i64,
    max: i64,
    step: i64,
    default: Option<SpecDefault>,
    i18n: &'static str,
    visible: VisibleRule,
) -> (r: OptionSpec)
    ensures
        r@ == int_option(
            key@,
            min as int,
            max as int,
            step as int,
            opt_default(default),
            i18n@,
            visible@,
        ),
{
    OptionSpec { min, max, step, default, visible, ..bare(key, SpecKind::Int, i18n) }
}

fn boolean(key: &'static str, default: bool, i18n: &'static str) -> (r: OptionSpec)
    ensures
        r@ == bool_option(key@, default, i18n@),
{
    OptionSpec {
        max: 1,
        step: 1,
        default: Some(SpecDefault::Bool(default)),
        ..bare(key, SpecKind::Bool, i18n)
    }
}

fn text(key: &'static str, i18n: &'static str) -> (r: OptionSpec)
    ensures
        r@ == text_option(key@, i18n@),
{
    bare(key, SpecKind::Text, i18n)
}

fn text_slice(values: &'static [&'static str]) -> (r: &'static [&'static str])
    ensures
        r@ == values@,
{
    values
}

fn int_slice(values: &'static [i64]) -> (r: &'static [i64])
    ensures
        r@ == values@,
{
    values
}

// ---------------------------------------------------------------------------
// Value lists
// ---------------------------------------------------------------------------
pub const CBR_VBR: [&'static str; 2] = ["CBR", "VBR"];

pub const VBR_ONLY: [&'static str; 1] = ["VBR"];

pub const CQVBR_ONLY: [&'static str; 1] = ["CQVBR"];

pub const CQP_ONLY: [&'static str; 1] = ["CQP"];

pub const ICQ_ONLY: [&'static str; 1] = ["ICQ"];

pub const VBR_CQVBR: [&'static str; 2] = ["VBR", "CQVBR"];

pub const NOT_LOSSLESS: [&'static str; 4] = ["CBR", "CQP", "VBR", "CQVBR"];

pub const CBR_ABR_VBR: [&'static str; 3] = ["CBR", "ABR", "VBR"];

pub const VBR_CRF: [&'static str; 2] = ["VBR", "CRF"];

pub const TRUE_ONLY: [&'static str; 1] = ["true"];

pub const CQP_QVBR: [&'static str; 2] = ["CQP", "QVBR"];

pub const CBR_VBR_QVBR: [&'static str; 3] = ["CBR", "VBR", "QVBR"];

pub const AMF_BITRATE_MODES: [&'static str; 5] = ["CBR", "VBR", "VBR_LAT", "HQVBR", "HQCBR"];

pub const VBR_QVBR: [&'static str; 2] = ["VBR", "QVBR"];

pub const NVENC_RATE_CONTROL: [&'static str; 5] = ["CBR", "CQP", "VBR", "CQVBR", "lossless"];

pub const NVENC_PRESETS: [&'static str; 7] = ["p1", "p2", "p3", "p4", "p5", "p6", "p7"];

pub const NVENC_TUNES: [&'static str; 4] = ["uhq", "hq", "ll", "ull"];

pub const NVENC_MULTIPASS: [&'static str; 3] = ["disabled", "qres", "fullres"];

pub const NVENC_PROFILES: [&'static str; 5] = ["high", "high10", "main", "main10", "baseline"];

pub const NVENC_PROFILES_H264: [&'static str; 4] = ["high", "high10", "main", "baseline"];

pub const NVENC_PROFILES_HEVC: [&'static str; 2] = ["main10", "main"];

pub const MAIN_ONLY: [&'static str; 1] = ["main"];

pub const NVENC_P010_PROFILES: [&'static str; 2] = ["high10", "main10"];

pub const X264_RATE_CONTROL: [&'static str; 4] = ["CBR", "ABR", "VBR", "CRF"];

pub const X264_PRESETS: [&'static str; 10] = [
    "ultrafast",
    "superfast",
    "veryfast",
    "faster",
    "fast",
    "medium",
    "slow",
    "slower",
    "veryslow",
    "placebo",
];

pub const X264_PROFILES: [&'static str; 4] = ["", "baseline", "main", "high"];

pub const X264_TUNES: [&'static str; 9] = [
    "",
    "film",
    "animation",
    "grain",
    "stillimage",
    "psnr",
    "ssim",
    "fastdecode",
    "zerolatency",
];

pub const QSV_RATE_CONTROL: [&'static str; 4] = ["CBR", "VBR", "CQP", "ICQ"];

pub const QSV_TARGET_USAGES: [&'static str; 7] = ["TU1", "TU2", "TU3", "TU4", "TU5", "TU6", "TU7"];

pub const QSV_PROFILES: [&'static str; 4] = ["baseline", "main", "high", "main10"];

pub const QSV_PROFILES_H264: [&'static str; 3] = ["baseline", "main", "high"];

pub const QSV_PROFILES_HEVC: [&'static str; 2] = ["main", "main10"];

pub const MAIN10_ONLY: [&'static str; 1] = ["main10"];

pub const QSV_LATENCIES: [&'static str; 3] = ["normal", "ultra-low", "low"];

pub const AMF_RATE_CONTROL: [&'static str; 7] = [
    "CBR",
    "CQP",
    "VBR",
    "VBR_LAT",
    "QVBR",
    "HQVBR",
    "HQCBR",
];

pub const AMF_PRESETS: [&'static str; 4] = ["speed", "balanced", "quality", "highQuality"];

pub const AMF_PRESETS_AVC_HEVC: [&'static str; 3] = ["speed", "balanced", "quality"];

pub const AMF_PRESETS_AV1: [&'static str; 4] = ["highQuality", "quality", "balanced", "speed"];

pub const AMF_PROFILES: [&'static str; 3] = ["high", "main", "baseline"];

pub const H264_AV1: [&'static str; 2] = ["h264", "av1"];

pub const VAAPI_RATE_CONTROL: [&'static str; 4] = ["CBR", "VBR", "QVBR", "CQP"];

pub const VAAPI_PROFILE_H264: [i64; 3] = [578, 77, 100];

pub const VAAPI_PROFILE_HEVC: [i64; 2] = [1, 2];

pub const VAAPI_PROFILE_AV1: [i64; 1] = [0];

pub const VAAPI_LEVEL_H264: [i64; 8] = [30, 31, 40, 41, 42, 50, 51, 52];

pub const VAAPI_LEVEL_HEVC: [i64; 7] = [90, 93, 120, 123, 150, 153, 156];

pub const VAAPI_LEVEL_AV1: [i64; 8] = [4, 5, 8, 9, 12, 13, 14, 15];

pub const VAAPI_P010_PROFILES: [i64; 1] = [2];

/// The options of NVENC. `preset`, `adaptive_quantization` and `device` are the keys
/// since OBS 30; `preset2`, `psycho_aq` and `gpu` are ignored and never written.
/// `device` -1 leaves the choice to OBS.
pub open spec fn nvenc_table() -> Seq<OptionModel> {
    seq![
        enum_option(
            "rate_control"@,
            strs(NVENC_RATE_CONTROL@),
            "CBR"@,
            "obsopt.rate_control"@,
            always_visible(),
        ),
        int_option(
            "bitrate"@,
            50,
            4294967,
            50,
            Some(DefaultModel::Int(10000)),
            "obsopt.bitrate"@,
            visible_when("rate_control"@, strs(CBR_VBR@)),
        ),
        int_option(
            "max_bitrate"@,
            0,
            4294967,
            50,
            Some(DefaultModel::Int(10000)),
            "obsopt.max_bitrate"@,
            visible_when("rate_control"@, strs(VBR_CQVBR@)),
        ),
        OptionModel {
            codec_range: seq![("av1"@, 1int, 63int)],
            ..int_option(
                "target_quality"@,
                1,
                51,
                1,
                Some(DefaultModel::Int(20)),
                "obsopt.target_quality"@,
                visible_when("rate_control"@, strs(CQVBR_ONLY@)),
            )
        },
        OptionModel {
            codec_range: seq![("av1"@, 1int, 63int)],
            ..int_option(
                "cqp"@,
                1,
                51,
                1,
                Some(DefaultModel::Int(20)),
                "obsopt.cqp"@,
                visible_when("rate_control"@, strs(CQP_ONLY@)),
            )
        },
        int_option(
            "keyint_sec"@,
            0,
            10,
            1,
            Some(DefaultModel::Int(0)),
            "obsopt.keyint"@,
            always_visible(),
        ),
        enum_option(
            "preset"@,
            strs(NVENC_PRESETS@),
            "p5"@,
            "obsopt.preset"@,
            visible_when("rate_control"@, strs(NOT_LOSSLESS@)),
        ),
        enum_option(
            "tune"@,
            strs(NVENC_TUNES@),
            "hq"@,
            "obsopt.tune"@,
            visible_when("rate_control"@, strs(NOT_LOSSLESS@)),
        ),
        enum_option(
            "multipass"@,
            strs(NVENC_MULTIPASS@),
            "qres"@,
            "obsopt.multipass"@,
            always_visible(),
        ),
        OptionModel {
            codec_values: seq![
                ("h264"@, strs(NVENC_PROFILES_H264@)),
                ("hevc"@, strs(NVENC_PROFILES_HEVC@)),
                ("av1"@, strs(MAIN_ONLY@)),
            ],
            codec_defaults: seq![
                ("hevc"@, DefaultModel::Str("main"@)),
                ("av1"@, DefaultModel::Str("main"@)),
            ],
            p010_values: strs(NVENC_P010_PROFILES@),
            ..enum_option(
                "profile"@,
                strs(NVENC_PROFILES@),
                "high"@,
                "obsopt.profile"@,
                always_visible(),
            )
        },
        bool_option("lookahead"@, true, "obsopt.lookahead"@),
        bool_option("adaptive_quantization"@, true, "obsopt.adaptive_quantization"@),
        int_option(
            "device"@,
            -1,
            16,
            1,
            Some(DefaultModel::Int(-1)),
            "obsopt.gpu"@,
            always_visible(),
        ),
        int_option("bf"@, 0, 4, 1, Some(DefaultModel::Int(2)), "obsopt.bframes"@, always_visible()),
        text_option("opts"@, "obsopt.opts"@),
    ]
}

fn nvenc_target_quality() -> (r: OptionSpec)
    ensures
        r@ == nvenc_table()[3],
{
    let r = OptionSpec {
        codec_range: vec![("av1", 1i64, 63i64)],
        ..int_in(
            "target_quality",
            1,
            51,
            1,
            Some(SpecDefault::Int(20)),
            "obsopt.target_quality",
            VisibleRule::when("rate_control", &CQVBR_ONLY),
        )
    };
    proof {
        let m = nvenc_table()[3];
        assert(r@.codec_range =~= m.codec_range);
    }
    r
}

fn nvenc_cqp() -> (r: OptionSpec)
    ensures
        r@ == nvenc_table()[4],
{
    let r = OptionSpec {
        codec_range: vec![("av1", 1i64, 63i64)],
        ..int_in(
            "cqp",
            1,
            51,
            1,
            Some(SpecDefault::Int(20)),
            "obsopt.cqp",
            VisibleRule::when("rate_control", &CQP_ONLY),
        )
    };
    proof {
        let m = nvenc_table()[4];
        assert(r@.codec_range =~= m.codec_range);
    }
    r
}

fn nvenc_profile() -> (r: OptionSpec)
    ensures
        r@ == nvenc_table()[9],
{
    let r = OptionSpec {
        codec_values: vec![
            ("h264", text_slice(&NVENC_PROFILES_H264)),
            ("hevc", text_slice(&NVENC_PROFILES_HEVC)),
            ("av1", text_slice(&MAIN_ONLY)),
        ],
        codec_defaults: vec![("hevc", SpecDefault::Str("main")), ("av1", SpecDefault::Str("main"))],
        p010_values: &NVENC_P010_PROFILES,
        ..en("profile", &NVENC_PROFILES, "high", "obsopt.profile", VisibleRule::always())
    };
    proof {
        let m = nvenc_table()[9];
        assert(r@.codec_values =~= m.codec_values);
        assert(r@.codec_defaults =~= m.codec_defaults);
        assert(r@.p010_values =~= m.p010_values);
    }
    r
}

fn nvenc_opts() -> (r: Vec<OptionSpec>)
    ensures
        option_models(r@) == nvenc_table(),
{
    let r = vec![
        en(
            "rate_control",
            &NVENC_RATE_CONTROL,
            "CBR",
            "obsopt.rate_control",
            VisibleRule::always(),
        ),
        int_in(
            "bitrate",
            50,
            4294967,
            50,
            Some(SpecDefault::Int(10000)),
            "obsopt.bitrate",
            VisibleRule::when("rate_control", &CBR_VBR),
        ),
        int_in(
            "max_bitrate",
            0,
            4294967,
            50,
            Some(SpecDefault::Int(10000)),
            "obsopt.max_bitrate",
            VisibleRule::when("rate_control", &VBR_CQVBR),
        ),
        nvenc_target_quality(),
        nvenc_cqp(),
        int_in(
            "keyint_sec",
            0,
            10,
            1,
            Some(SpecDefault::Int(0)),
            "obsopt.keyint",
            VisibleRule::always(),
        ),
        en(
            "preset",
            &NVENC_PRESETS,
            "p5",
            "obsopt.preset",
            VisibleRule::when("rate_control", &NOT_LOSSLESS),
        ),
        en(
            "tune",
            &NVENC_TUNES,
            "hq",
            "obsopt.tune",
            VisibleRule::when("rate_control", &NOT_LOSSLESS),
        ),
        en("multipass", &NVENC_MULTIPASS, "qres", "obsopt.multipass", VisibleRule::always()),
        nvenc_profile(),
        boolean("lookahead", true, "obsopt.lookahead"),
        boolean("adaptive_quantization", true, "obsopt.adaptive_quantization"),
        int_in(
            "device",
            -1,
            16,
            1,
            Some(SpecDefault::Int(-1)),
            "obsopt.gpu",
            VisibleRule::always(),
        ),
        int_in("bf", 0, 4, 1, Some(SpecDefault::Int(2)), "obsopt.bframes", VisibleRule::always()),
        text("opts", "obsopt.opts"),
    ];
    proof {
        assert(option_models(r@) =~= nvenc_table());
    }
    r
}

/// The options of x264. An empty `profile` or `tune` is none; `bf` is written only where set.
pub open spec fn x264_table() -> Seq<OptionModel> {
    seq![
        enum_option(
            "rate_control"@,
            strs(X264_RATE_CONTROL@),
            "CBR"@,
            "obsopt.rate_control"@,
            always_visible(),
        ),
        int_option(
            "bitrate"@,
            50,
            10000000,
            50,
            Some(DefaultModel::Int(6000)),
            "obsopt.bitrate"@,
            visible_when("rate_control"@, strs(CBR_ABR_VBR@)),
        ),
        bool_option("use_bufsize"@, false, "obsopt.use_bufsize"@),
        int_option("buffer_size"@, 0, 10000000, 1, Some(DefaultModel::Int(6000)), "obsopt.buffer_size"@, VisibleModel {
            when: Some(("rate_control"@, strs(CBR_ABR_VBR@))),
            and_when: Some(("use_bufsize"@, strs(TRUE_ONLY@))),
        }),
        int_option(
            "crf"@,
            0,
            51,
            1,
            Some(DefaultModel::Int(23)),
            "obsopt.crf"@,
            visible_when("rate_control"@, strs(VBR_CRF@)),
        ),
        int_option(
            "keyint_sec"@,
            0,
            20,
            1,
            Some(DefaultModel::Int(0)),
            "obsopt.keyint"@,
            always_visible(),
        ),
        enum_option(
            "preset"@,
            strs(X264_PRESETS@),
            "veryfast"@,
            "obsopt.preset"@,
            always_visible(),
        ),
        enum_option("profile"@, strs(X264_PROFILES@), ""@, "obsopt.profile"@, always_visible()),
        enum_option("tune"@, strs(X264_TUNES@), ""@, "obsopt.tune"@, always_visible()),
        int_option("bf"@, 0, 16, 1, None, "obsopt.bframes"@, always_visible()),
        text_option("x264opts"@, "obsopt.opts"@),
        bool_option("repeat_headers"@, false, "obsopt.repeat_headers"@),
    ]
}

fn x264_opts() -> (r: Vec<OptionSpec>)
    ensures
        option_models(r@) == x264_table(),
{
    let r = vec![
        en("rate_control", &X264_RATE_CONTROL, "CBR", "obsopt.rate_control", VisibleRule::always()),
        int_in(
            "bitrate",
            50,
            10000000,
            50,
            Some(SpecDefault::Int(6000)),
            "obsopt.bitrate",
            VisibleRule::when("rate_control", &CBR_ABR_VBR),
        ),
        boolean("use_bufsize", false, "obsopt.use_bufsize"),
        int_in("buffer_size", 0, 10000000, 1, Some(SpecDefault::Int(6000)), "obsopt.buffer_size", VisibleRule {
                when: Some(("rate_control", &CBR_ABR_VBR)),
                and_when: Some(("use_bufsize", &TRUE_ONLY)),
            }),
        int_in(
            "crf",
            0,
            51,
            1,
            Some(SpecDefault::Int(23)),
            "obsopt.crf",
            VisibleRule::when("rate_control", &VBR_CRF),
        ),
        int_in(
            "keyint_sec",
            0,
            20,
            1,
            Some(SpecDefault::Int(0)),
            "obsopt.keyint",
            VisibleRule::always(),
        ),
        en("preset", &X264_PRESETS, "veryfast", "obsopt.preset", VisibleRule::always()),
        en("profile", &X264_PROFILES, "", "obsopt.profile", VisibleRule::always()),
        en("tune", &X264_TUNES, "", "obsopt.tune", VisibleRule::always()),
        int_in("bf", 0, 16, 1, None, "obsopt.bframes", VisibleRule::always()),
        text("x264opts", "obsopt.opts"),
        boolean("repeat_headers", false, "obsopt.repeat_headers"),
    ];
    proof {
        assert(option_models(r@) =~= x264_table());
    }
    r
}

/// The options of QSV. OBS moved `preset` to `target_usage` and `async_depth` to `latency`.
pub open spec fn qsv_table() -> Seq<OptionModel> {
    seq![
        enum_option(
            "rate_control"@,
            strs(QSV_RATE_CONTROL@),
            "CBR"@,
            "obsopt.rate_control"@,
            always_visible(),
        ),
        int_option(
            "bitrate"@,
            50,
            10000000,
            50,
            Some(DefaultModel::Int(5000)),
            "obsopt.bitrate"@,
            visible_when("rate_control"@, strs(CBR_VBR@)),
        ),
        int_option(
            "max_bitrate"@,
            50,
            10000000,
            50,
            Some(DefaultModel::Int(6000)),
            "obsopt.max_bitrate"@,
            visible_when("rate_control"@, strs(VBR_ONLY@)),
        ),
        OptionModel {
            codec_range: seq![("av1"@, 1int, 63int)],
            ..int_option(
                "cqp"@,
                1,
                51,
                1,
                Some(DefaultModel::Int(23)),
                "obsopt.cqp"@,
                visible_when("rate_control"@, strs(CQP_ONLY@)),
            )
        },
        int_option(
            "icq_quality"@,
            1,
            51,
            1,
            Some(DefaultModel::Int(23)),
            "obsopt.icq"@,
            visible_when("rate_control"@, strs(ICQ_ONLY@)),
        ),
        enum_option(
            "target_usage"@,
            strs(QSV_TARGET_USAGES@),
            "TU4"@,
            "obsopt.target_usage"@,
            always_visible(),
        ),
        OptionModel {
            codec_values: seq![
                ("h264"@, strs(QSV_PROFILES_H264@)),
                ("hevc"@, strs(QSV_PROFILES_HEVC@)),
                ("av1"@, strs(MAIN_ONLY@)),
            ],
            codec_defaults: seq![
                ("hevc"@, DefaultModel::Str("main"@)),
                ("av1"@, DefaultModel::Str("main"@)),
            ],
            p010_values: strs(MAIN10_ONLY@),
            ..enum_option(
                "profile"@,
                strs(QSV_PROFILES@),
                "high"@,
                "obsopt.profile"@,
                always_visible(),
            )
        },
        int_option(
            "keyint_sec"@,
            0,
            20,
            1,
            Some(DefaultModel::Int(0)),
            "obsopt.keyint"@,
            always_visible(),
        ),
        enum_option(
            "latency"@,
            strs(QSV_LATENCIES@),
            "normal"@,
            "obsopt.latency"@,
            always_visible(),
        ),
        int_option(
            "bframes"@,
            0,
            3,
            1,
            Some(DefaultModel::Int(3)),
            "obsopt.bframes"@,
            always_visible(),
        ),
        bool_option("repeat_headers"@, false, "obsopt.repeat_headers"@),
    ]
}

fn qsv_cqp() -> (r: OptionSpec)
    ensures
        r@ == qsv_table()[3],
{
    let r = OptionSpec {
        codec_range: vec![("av1", 1i64, 63i64)],
        ..int_in(
            "cqp",
            1,
            51,
            1,
            Some(SpecDefault::Int(23)),
            "obsopt.cqp",
            VisibleRule::when("rate_control", &CQP_ONLY),
        )
    };
    proof {
        let m = qsv_table()[3];
        assert(r@.codec_range =~= m.codec_range);
    }
    r
}

fn qsv_profile() -> (r: OptionSpec)
    ensures
        r@ == qsv_table()[6],
{
    let r = OptionSpec {
        codec_values: vec![
            ("h264", text_slice(&QSV_PROFILES_H264)),
            ("hevc", text_slice(&QSV_PROFILES_HEVC)),
            ("av1", text_slice(&MAIN_ONLY)),
        ],
        codec_defaults: vec![("hevc", SpecDefault::Str("main")), ("av1", SpecDefault::Str("main"))],
        p010_values: &MAIN10_ONLY,
        ..en("profile", &QSV_PROFILES, "high", "obsopt.profile", VisibleRule::always())
    };
    proof {
        let m = qsv_table()[6];
        assert(r@.codec_values =~= m.codec_values);
        assert(r@.codec_defaults =~= m.codec_defaults);
        assert(r@.p010_values =~= m.p010_values);
    }
    r
}

fn qsv_opts() -> (r: Vec<OptionSpec>)
    ensures
        option_models(r@) == qsv_table(),
{
    let r = vec![
        en("rate_control", &QSV_RATE_CONTROL, "CBR", "obsopt.rate_control", VisibleRule::always()),
        int_in(
            "bitrate",
            50,
            10000000,
            50,
            Some(SpecDefault::Int(5000)),
            "obsopt.bitrate",
            VisibleRule::when("rate_control", &CBR_VBR),
        ),
        int_in(
            "max_bitrate",
            50,
            10000000,
            50,
            Some(SpecDefault::Int(6000)),
            "obsopt.max_bitrate",
            VisibleRule::when("rate_control", &VBR_ONLY),
        ),
        qsv_cqp(),
        int_in(
            "icq_quality",
            1,
            51,
            1,
            Some(SpecDefault::Int(23)),
            "obsopt.icq",
            VisibleRule::when("rate_control", &ICQ_ONLY),
        ),
        en("target_usage", &QSV_TARGET_USAGES, "TU4", "obsopt.target_usage", VisibleRule::always()),
        qsv_profile(),
        int_in(
            "keyint_sec",
            0,
            20,
            1,
            Some(SpecDefault::Int(0)),
            "obsopt.keyint",
            VisibleRule::always(),
        ),
        en("latency", &QSV_LATENCIES, "normal", "obsopt.latency", VisibleRule::always()),
        int_in(
            "bframes",
            0,
            3,
            1,
            Some(SpecDefault::Int(3)),
            "obsopt.bframes",
            VisibleRule::always(),
        ),
        boolean("repeat_headers", false, "obsopt.repeat_headers"),
    ];
    proof {
        assert(option_models(r@) =~= qsv_table());
    }
    r
}

/// The options of AMF. OBS fixes `vbaq` and `enforce_hrd` itself; `bf` and `profile`
/// do not exist for HEVC.
pub open spec fn amf_table() -> Seq<OptionModel> {
    seq![
        enum_option(
            "rate_control"@,
            strs(AMF_RATE_CONTROL@),
            "CBR"@,
            "obsopt.rate_control"@,
            always_visible(),
        ),
        int_option(
            "bitrate"@,
            50,
            100000,
            50,
            Some(DefaultModel::Int(20000)),
            "obsopt.bitrate"@,
            visible_when("rate_control"@, strs(AMF_BITRATE_MODES@)),
        ),
        OptionModel {
            codec_range: seq![("av1"@, 0int, 63int)],
            ..int_option(
                "cqp"@,
                0,
                51,
                1,
                Some(DefaultModel::Int(20)),
                "obsopt.cqp"@,
                visible_when("rate_control"@, strs(CQP_QVBR@)),
            )
        },
        int_option(
            "keyint_sec"@,
            0,
            10,
            1,
            Some(DefaultModel::Int(0)),
            "obsopt.keyint"@,
            always_visible(),
        ),
        OptionModel {
            codec_values: seq![
                ("h264"@, strs(AMF_PRESETS_AVC_HEVC@)),
                ("hevc"@, strs(AMF_PRESETS_AVC_HEVC@)),
                ("av1"@, strs(AMF_PRESETS_AV1@)),
            ],
            codec_defaults: seq![("av1"@, DefaultModel::Str("highQuality"@))],
            ..enum_option(
                "preset"@,
                strs(AMF_PRESETS@),
                "quality"@,
                "obsopt.amf_preset"@,
                always_visible(),
            )
        },
        OptionModel {
            codecs: strs(H264_AV1@),
            codec_values: seq![("h264"@, strs(AMF_PROFILES@)), ("av1"@, strs(MAIN_ONLY@))],
            codec_defaults: seq![("av1"@, DefaultModel::Str("main"@))],
            ..enum_option(
                "profile"@,
                strs(AMF_PROFILES@),
                "high"@,
                "obsopt.profile"@,
                always_visible(),
            )
        },
        OptionModel {
            codecs: strs(H264_AV1@),
            ..int_option(
                "bf"@,
                0,
                5,
                1,
                Some(DefaultModel::Int(2)),
                "obsopt.bframes"@,
                always_visible(),
            )
        },
        bool_option("pre_analysis"@, false, "obsopt.preanalysis"@),
        text_option("ffmpeg_opts"@, "obsopt.opts"@),
    ]
}

fn amf_cqp() -> (r: OptionSpec)
    ensures
        r@ == amf_table()[2],
{
    let r = OptionSpec {
        codec_range: vec![("av1", 0i64, 63i64)],
        ..int_in(
            "cqp",
            0,
            51,
            1,
            Some(SpecDefault::Int(20)),
            "obsopt.cqp",
            VisibleRule::when("rate_control", &CQP_QVBR),
        )
    };
    proof {
        let m = amf_table()[2];
        assert(r@.codec_range =~= m.codec_range);
    }
    r
}

fn amf_preset() -> (r: OptionSpec)
    ensures
        r@ == amf_table()[4],
{
    let r = OptionSpec {
        codec_values: vec![
            ("h264", text_slice(&AMF_PRESETS_AVC_HEVC)),
            ("hevc", text_slice(&AMF_PRESETS_AVC_HEVC)),
            ("av1", text_slice(&AMF_PRESETS_AV1)),
        ],
        codec_defaults: vec![("av1", SpecDefault::Str("highQuality"))],
        ..en("preset", &AMF_PRESETS, "quality", "obsopt.amf_preset", VisibleRule::always())
    };
    proof {
        let m = amf_table()[4];
        assert(r@.codec_values =~= m.codec_values);
        assert(r@.codec_defaults =~= m.codec_defaults);
    }
    r
}

fn amf_profile() -> (r: OptionSpec)
    ensures
        r@ == amf_table()[5],
{
    let r = OptionSpec {
        codecs: &H264_AV1,
        codec_values: vec![("h264", text_slice(&AMF_PROFILES)), ("av1", text_slice(&MAIN_ONLY))],
        codec_defaults: vec![("av1", SpecDefault::Str("main"))],
        ..en("profile", &AMF_PROFILES, "high", "obsopt.profile", VisibleRule::always())
    };
    proof {
        let m = amf_table()[5];
        assert(r@.codecs =~= m.codecs);
        assert(r@.codec_values =~= m.codec_values);
        assert(r@.codec_defaults =~= m.codec_defaults);
    }
    r
}

fn amf_bf() -> (r: OptionSpec)
    ensures
        r@ == amf_table()[6],
{
    let r = OptionSpec {
        codecs: &H264_AV1,
        ..int_in("bf", 0, 5, 1, Some(SpecDefault::Int(2)), "obsopt.bframes", VisibleRule::always())
    };
    proof {
        let m = amf_table()[6];
        assert(r@.codecs =~= m.codecs);
    }
    r
}

fn amf_opts() -> (r: Vec<OptionSpec>)
    ensures
        option_models(r@) == amf_table(),
{
    let r = vec![
        en("rate_control", &AMF_RATE_CONTROL, "CBR", "obsopt.rate_control", VisibleRule::always()),
        int_in(
            "bitrate",
            50,
            100000,
            50,
            Some(SpecDefault::Int(20000)),
            "obsopt.bitrate",
            VisibleRule::when("rate_control", &AMF_BITRATE_MODES),
        ),
        amf_cqp(),
        int_in(
            "keyint_sec",
            0,
            10,
            1,
            Some(SpecDefault::Int(0)),
            "obsopt.keyint",
            VisibleRule::always(),
        ),
        amf_preset(),
        amf_profile(),
        amf_bf(),
        boolean("pre_analysis", false, "obsopt.preanalysis"),
        text("ffmpeg_opts", "obsopt.opts"),
    ];
    proof {
        assert(option_models(r@) =~= amf_table());
    }
    r
}

/// The options of VAAPI, with FFmpeg's integers for profiles and levels.
pub open spec fn vaapi_table() -> Seq<OptionModel> {
    seq![
        text_option("vaapi_device"@, "obsopt.vaapi_device"@),
        enum_option(
            "rate_control"@,
            strs(VAAPI_RATE_CONTROL@),
            "CBR"@,
            "obsopt.rate_control"@,
            always_visible(),
        ),
        OptionModel {
            codec_int_values: seq![
                ("h264"@, VAAPI_PROFILE_H264@),
                ("hevc"@, VAAPI_PROFILE_HEVC@),
                ("av1"@, VAAPI_PROFILE_AV1@),
            ],
            p010_ints: VAAPI_P010_PROFILES@,
            ..int_option("profile"@, -1, 1000, 1, None, "obsopt.profile"@, always_visible())
        },
        OptionModel {
            codec_int_values: seq![
                ("h264"@, VAAPI_LEVEL_H264@),
                ("hevc"@, VAAPI_LEVEL_HEVC@),
                ("av1"@, VAAPI_LEVEL_AV1@),
            ],
            ..int_option(
                "level"@,
                -99,
                156,
                1,
                Some(DefaultModel::Int(-99)),
                "obsopt.level"@,
                always_visible(),
            )
        },
        int_option(
            "bitrate"@,
            0,
            300000,
            50,
            Some(DefaultModel::Int(6000)),
            "obsopt.bitrate"@,
            visible_when("rate_control"@, strs(CBR_VBR_QVBR@)),
        ),
        int_option(
            "maxrate"@,
            0,
            300000,
            50,
            Some(DefaultModel::Int(0)),
            "obsopt.maxrate"@,
            visible_when("rate_control"@, strs(VBR_QVBR@)),
        ),
        int_option(
            "qp"@,
            0,
            51,
            1,
            Some(DefaultModel::Int(20)),
            "obsopt.qp"@,
            visible_when("rate_control"@, strs(CQP_QVBR@)),
        ),
        int_option(
            "keyint_sec"@,
            0,
            20,
            1,
            Some(DefaultModel::Int(0)),
            "obsopt.keyint"@,
            always_visible(),
        ),
        int_option("bf"@, 0, 4, 1, Some(DefaultModel::Int(0)), "obsopt.bframes"@, always_visible()),
        text_option("ffmpeg_opts"@, "obsopt.opts"@),
    ]
}

fn vaapi_profile() -> (r: OptionSpec)
    ensures
        r@ == vaapi_table()[2],
{
    let r = OptionSpec {
        codec_int_values: vec![
            ("h264", int_slice(&VAAPI_PROFILE_H264)),
            ("hevc", int_slice(&VAAPI_PROFILE_HEVC)),
            ("av1", int_slice(&VAAPI_PROFILE_AV1)),
        ],
        p010_ints: &VAAPI_P010_PROFILES,
        ..int_in("profile", -1, 1000, 1, None, "obsopt.profile", VisibleRule::always())
    };
    proof {
        let m = vaapi_table()[2];
        assert(r@.codec_int_values =~= m.codec_int_values);
        assert(r@.p010_ints =~= m.p010_ints);
    }
    r
}

fn vaapi_level() -> (r: OptionSpec)
    ensures
        r@ == vaapi_table()[3],
{
    let r = OptionSpec {
        codec_int_values: vec![
            ("h264", int_slice(&VAAPI_LEVEL_H264)),
            ("hevc", int_slice(&VAAPI_LEVEL_HEVC)),
            ("av1", int_slice(&VAAPI_LEVEL_AV1)),
        ],
        ..int_in(
            "level",
            -99,
            156,
            1,
            Some(SpecDefault::Int(-99)),
            "obsopt.level",
            VisibleRule::always(),
        )
    };
    proof {
        let m = vaapi_table()[3];
        assert(r@.codec_int_values =~= m.codec_int_values);
    }
    r
}

fn vaapi_opts() -> (r: Vec<OptionSpec>)
    ensures
        option_models(r@) == vaapi_table(),
{
    let r = vec![
        text("vaapi_device", "obsopt.vaapi_device"),
        en(
            "rate_control",
            &VAAPI_RATE_CONTROL,
            "CBR",
            "obsopt.rate_control",
            VisibleRule::always(),
        ),
        vaapi_profile(),
        vaapi_level(),
        int_in(
            "bitrate",
            0,
            300000,
            50,
            Some(SpecDefault::Int(6000)),
            "obsopt.bitrate",
            VisibleRule::when("rate_control", &CBR_VBR_QVBR),
        ),
        int_in(
            "maxrate",
            0,
            300000,
            50,
            Some(SpecDefault::Int(0)),
            "obsopt.maxrate",
            VisibleRule::when("rate_control", &VBR_QVBR),
        ),
        int_in(
            "qp",
            0,
            51,
            1,
            Some(SpecDefault::Int(20)),
            "obsopt.qp",
            VisibleRule::when("rate_control", &CQP_QVBR),
        ),
        int_in(
            "keyint_sec",
            0,
            20,
            1,
            Some(SpecDefault::Int(0)),
            "obsopt.keyint",
            VisibleRule::always(),
        ),
        int_in("bf", 0, 4, 1, Some(SpecDefault::Int(0)), "obsopt.bframes", VisibleRule::always()),
        text("ffmpeg_opts", "obsopt.opts"),
    ];
    proof {
        assert(option_models(r@) =~= vaapi_table());
    }
    r
}

/// The option table of a family.
pub open spec fn option_table(family: EncoderFamily) -> Seq<OptionModel> {
    match family {
        EncoderFamily::Nvenc => nvenc_table(),
        EncoderFamily::X264 => x264_table(),
        EncoderFamily::Qsv => qsv_table(),
        EncoderFamily::Amf => amf_table(),
        EncoderFamily::Vaapi => vaapi_table(),
    }
}

/// Every option of a family.
pub fn options_for(family: EncoderFamily) -> (r: Vec<OptionSpec>)
    ensures
        option_models(r@) == option_table(family),
{
    match family {
        EncoderFamily::Nvenc => nvenc_opts(),
        EncoderFamily::X264 => x264_opts(),
        EncoderFamily::Qsv => qsv_opts(),
        EncoderFamily::Amf => amf_opts(),
        EncoderFamily::Vaapi => vaapi_opts(),
    }
}

} // verus!
