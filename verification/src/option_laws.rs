//! What the settings page shows and offers, and what a start settles on.

use vstd::arithmetic::power2::{lemma2_to64, lemma_pow2_adds, lemma_pow2_pos, pow2};
use vstd::prelude::*;

use crate::api::{CustomEncoderModel, CustomVideoModel};
use crate::capture::{
    config_of, no_overrides, plan_of, plan_with_of, CaptureEnv, OverridesModel, PlanModel,
};
use crate::config_laws::{lemma_ladder_text, lemma_switch_texts};
use crate::encoder_custom::{
    canon_of, custom_encoder_of, custom_encoder_read, custom_video_of, custom_video_read, video_doc, video_entries, video_fields, FPS_TYPES,
};
use crate::encoder_options::{
    color_formats, find_option, known_encoder, resolve_option, resolved_table, setting_error,
    settings_error, vendor_families, EntryModel, ResolvedModel, COLOR_RANGES, COLOR_SPACES,
    FORMATS_10BIT, FORMATS_8BIT, FORMATS_ALL, FORMATS_NV12, FORMATS_X264, SCALE_FILTERS,
};
use crate::encoder_tables::{
    option_table, strs, DefaultModel, EncoderFamily, OptionModel, SpecKind, VisibleModel,
};
use crate::frame_rate::{in_least_units, is_rate_off, stored_exponent, stored_fraction};
use crate::hardware_test::{
    clip_error, expected_height, fallback_of, probe_error, request_error, test_error, test_length,
    ProbeModel, TestRecording, TestTarget,
};
use crate::json::{ascending_entries, json_parse, JsonModel, JsonRead};
use crate::linux::video::Monitor;
use crate::options::{
    codec_choice, form_option, greatest_height, is_offerable, known_codecs, literal_video,
    offered_encoder, offers_row, schema_of, selection_of, shown_choice, shown_when, HeightOpt,
    LadderRow, VIDEO_FIELDS,
};
use crate::text::{ascii_lower, decimal, lemma_parse_decimal, lemma_trim_decimal, trim, uppercase};

verus! {

broadcast use vstd::string::group_string_axioms;

// ---------------------------------------------------------------------------
// The plan of a start
// ---------------------------------------------------------------------------
/// One of the three codecs.
pub open spec fn names_codec(c: Seq<char>) -> bool {
    c == "h264"@ || c == "hevc"@ || c == "av1"@
}

/// One of the two kinds of encoder.
pub open spec fn names_kind(e: Seq<char>) -> bool {
    e == "gpu"@ || e == "cpu"@
}

/// What is stored under a key, unless it is blank.
pub open spec fn filled(settings: Map<Seq<char>, Seq<char>>, key: Seq<char>) -> Option<Seq<char>> {
    if settings.contains_key(key) && trim(settings[key]).len() > 0 {
        Some(settings[key])
    } else {
        None
    }
}

/// Without custom selections, the codec and the kind of encoder are those that
/// the start asks for, else those that are stored, else h264 on the GPU; the
/// stored codec x264 means the processor. The picture is that of the monitor,
/// and as high as is asked for, else as is stored, where that is below it.
pub proof fn law_plan_follows_overrides_and_settings(
    settings: Map<Seq<char>, Seq<char>>,
    o: OverridesModel,
    monitor: Option<&Monitor>,
    encoder: Option<JsonRead>,
    video: Option<JsonRead>,
)
    requires
        filled(settings, "video_mode"@) != Some("custom"@),
        o.custom_encoder is None,
        o.custom_video is None,
    ensures
        plan_with_of(settings, o, monitor, encoder, video) matches Ok(p) && {
            let codec = filled(settings, "video_codec"@);
            let kind = filled(settings, "video_encoder"@);
            let base: nat = match monitor {
                Some(m) => m.height as nat,
                None => 1080,
            };
            &&& o.codec is Some && names_codec(o.codec->0) ==> p.codec == o.codec->0
            &&& !(o.codec is Some && names_codec(o.codec->0)) ==> p.codec == if codec is Some
                && names_codec(codec->0) {
                codec->0
            } else {
                "h264"@
            }
            &&& o.encoder is Some && names_kind(o.encoder->0) ==> p.encoder == o.encoder->0
            &&& !(o.encoder is Some && names_kind(o.encoder->0)) ==> p.encoder == if codec == Some(
                "x264"@,
            ) {
                "cpu"@
            } else if kind is Some && names_kind(kind->0) {
                kind->0
            } else {
                "gpu"@
            }
            &&& p.custom_encoder is None && p.custom_video is None
            &&& p.base_height == base
            &&& p.base_width == match monitor {
                Some(m) => m.width as nat,
                None => 1920,
            }
            &&& monitor matches Some(m) ==> p.monitor == m.name@
            &&& o.height matches Some(h) ==> p.out_height == if h < base {
                h as nat
            } else {
                0
            }
            &&& p.ladder_height == if p.out_height > 0 {
                p.out_height as int
            } else {
                base as int
            }
        },
{
    lemma_plan_texts();
}

proof fn lemma_plan_texts()
    ensures
        "ladder"@ != "custom"@,
        "x264"@ != "h264"@,
        "cpu"@ != "gpu"@,
{
    reveal_strlit("ladder");
    reveal_strlit("custom");
    reveal_strlit("x264");
    reveal_strlit("h264");
    reveal_strlit("cpu");
    reveal_strlit("gpu");
    assert("ladder"@[0] == 'l' && "custom"@[0] == 'c' && "x264"@[0] == 'x' && "h264"@[0] == 'h'
        && "cpu"@[0] == 'c' && "gpu"@[0] == 'g');
}

/// A height that is stored is the height of the picture where it is below that
/// of the monitor, for every number.
pub proof fn law_stored_height_is_used(
    settings: Map<Seq<char>, Seq<char>>,
    o: OverridesModel,
    monitor: Option<&Monitor>,
    encoder: Option<JsonRead>,
    video: Option<JsonRead>,
    n: nat,
)
    requires
        n <= 0xffff_ffff,
        o.height is None,
        settings.contains_key("out_height"@),
        settings["out_height"@] == decimal(n),
    ensures
        plan_with_of(settings, o, monitor, encoder, video) matches Ok(p) ==> p.out_height == if n
            < p.base_height {
            n
        } else {
            0
        },
{
    lemma_parse_decimal(n, u32::MAX as nat);
    lemma_trim_decimal(n);
}

/// A custom encoder that a start asks for sets the codec of the plan.
pub proof fn law_custom_encoder_sets_the_codec(
    settings: Map<Seq<char>, Seq<char>>,
    o: OverridesModel,
    monitor: Option<&Monitor>,
    encoder: Option<JsonRead>,
    video: Option<JsonRead>,
)
    requires
        o.custom_encoder is Some,
    ensures
        plan_with_of(settings, o, monitor, encoder, video) matches Ok(p) ==> {
            &&& p.custom_encoder == o.custom_encoder
            &&& known_encoder(o.custom_encoder->0.encoder) matches Some(e) && p.codec == e.codec
        },
        known_encoder(o.custom_encoder->0.encoder) is None ==> plan_with_of(
            settings,
            o,
            monitor,
            encoder,
            video,
        ) is Err,
{
}

// ---------------------------------------------------------------------------
// The settings page
// ---------------------------------------------------------------------------
/// The page shows what the next start uses: its codec, kind of encoder, frame
/// rate and height, and whether a screen choice is kept.
pub proof fn law_page_shows_what_a_start_uses(
    settings: Map<Seq<char>, Seq<char>>,
    monitor: Option<&Monitor>,
    encoder: Option<JsonRead>,
    video: Option<JsonRead>,
    ladder_kbps: nat,
    env: CaptureEnv,
)
    requires
        !settings.contains_key("video_mode"@),
    ensures
        ({
            let shown = shown_choice(settings);
            plan_with_of(settings, no_overrides(), monitor, encoder, video) matches Ok(p) && {
                let c = config_of(p, settings, no_overrides(), ladder_kbps, env);
                &&& shown.codec == c.codec
                &&& shown.encoder == c.encoder
                &&& shown.fps == c.fps
                &&& shown.portal_ready == (c.portal_restore_token.len() > 0)
                &&& c.out_height == if shown.height < c.base_height {
                    shown.height
                } else {
                    0
                }
            }
        }),
        filled(settings, "monitor"@) matches Some(m) ==> shown_choice(settings).monitor == m,
{
    lemma_plan_texts();
    lemma_ladder_text();
    lemma_switch_texts();
    reveal_strlit("h264");
    reveal_strlit("hevc");
    reveal_strlit("av1");
    reveal_strlit("x264");
    reveal_strlit("");
    assert("h264"@[1] == '2' && "hevc"@[1] == 'e' && "av1"@.len() == 3 && "x264"@[0] == 'x'
        && "x264"@.len() == 4 && "h264"@.len() == 4 && "hevc"@.len() == 4 && "hevc"@[0] == 'h'
        && "h264"@[0] == 'h');
}

/// The codecs that are offered are those that the machine names and that are
/// known, each once; h264 where there is none.
pub proof fn law_offered_codecs(offered: Seq<Seq<char>>)
    ensures
        ({
            let choice = codec_choice(offered);
            let known = |id: Seq<char>|
                names_codec(id) || id == "x264"@;
            &&& choice.len() > 0
            &&& choice.no_duplicates()
            &&& forall|id: Seq<char>| #[trigger]
                choice.contains(id) && id != "h264"@ ==> known(id) && offered.contains(id)
            &&& forall|i: int|
                0 <= i < offered.len() && known(#[trigger] offered[i]) ==> choice.contains(
                    offered[i],
                )
        }),
{
    lemma_known_codecs(offered);
    if known_codecs(offered).len() > 0 {
        assert forall|i: int|
            0 <= i < offered.len() && is_offerable(#[trigger] offered[i]) implies known_codecs(
            offered,
        ).contains(offered[i]) by {}
    } else {
        assert forall|i: int| 0 <= i < offered.len() implies !is_offerable(#[trigger] offered[i]) by {
            if is_offerable(offered[i]) {
                assert(known_codecs(offered).contains(offered[i]));
            }
        }
    }
}

proof fn lemma_known_codecs(offered: Seq<Seq<char>>)
    ensures
        known_codecs(offered).no_duplicates(),
        forall|id: Seq<char>| #[trigger]
            known_codecs(offered).contains(id) ==> is_offerable(id) && offered.contains(id),
        forall|i: int|
            0 <= i < offered.len() && is_offerable(#[trigger] offered[i]) ==> known_codecs(
                offered,
            ).contains(offered[i]),
    decreases offered.len(),
{
    if offered.len() > 0 {
        let init = offered.drop_last();
        lemma_known_codecs(init);
        let before = known_codecs(init);
        let all = known_codecs(offered);
        let last = offered.last();
        assert(offered[offered.len() - 1] == last);
        assert forall|id: Seq<char>| #[trigger] all.contains(id) implies is_offerable(id)
            && offered.contains(id) by {
            let k = choose|k: int| 0 <= k < all.len() && all[k] == id;
            if k < before.len() {
                assert(before[k] == id);
                assert(before.contains(id));
                let m = choose|m: int| 0 <= m < init.len() && init[m] == id;
                assert(offered[m] == id);
            } else {
                assert(id == last);
                assert(offered.contains(last));
            }
        }
        assert forall|i: int| 0 <= i < offered.len() && is_offerable(
            #[trigger] offered[i],
        ) implies all.contains(offered[i]) by {
            if i < init.len() {
                assert(init[i] == offered[i]);
                assert(before.contains(offered[i]));
                let k = choose|k: int| 0 <= k < before.len() && before[k] == offered[i];
                assert(all[k] == offered[i]);
            } else if !before.contains(last) {
                assert(all[all.len() - 1] == last);
            }
        }
    }
}

/// An encoder can be chosen where it is of the machine's vendor and its codec is
/// offered; x264 can on every machine.
pub proof fn law_encoders_can_be_chosen_on_their_vendor(
    e: EntryModel,
    vendor: Seq<char>,
    codecs: Seq<Seq<char>>,
)
    ensures
        ({
            let offer = offered_encoder(e, vendor, codecs);
            let own = match e.family {
                EncoderFamily::Nvenc => vendor == "nvidia"@,
                EncoderFamily::Qsv => vendor == "intel"@,
                EncoderFamily::Amf => vendor == "amd"@,
                EncoderFamily::Vaapi => vendor == "amd"@,
                EncoderFamily::X264 => true,
            };
            &&& offer.available <==> own && (codecs.contains(e.codec) || e.id == "obs_x264"@)
            &&& offer.id == e.id
            &&& offer.codec == e.codec
            &&& offer.validated <==> e.family == EncoderFamily::Nvenc || e.family
                == EncoderFamily::X264
        }),
{
    reveal_strlit("nvidia");
    reveal_strlit("intel");
    reveal_strlit("amd");
    assert("nvidia"@.len() == 6 && "intel"@.len() == 5 && "amd"@.len() == 3);
    let fs = vendor_families(vendor);
    if vendor == "nvidia"@ {
        assert(fs[0] == EncoderFamily::Nvenc && fs[1] == EncoderFamily::X264);
    } else if vendor == "amd"@ {
        assert(fs[0] == EncoderFamily::Amf && fs[1] == EncoderFamily::Vaapi && fs[2]
            == EncoderFamily::X264);
    } else if vendor == "intel"@ {
        assert(fs[0] == EncoderFamily::Qsv && fs[1] == EncoderFamily::X264);
    } else {
        assert(fs[0] == EncoderFamily::X264);
    }
}

/// The tallest of the monitors.
pub proof fn law_greatest_height(monitors: Seq<Monitor>)
    ensures
        forall|i: int|
            0 <= i < monitors.len() ==> (#[trigger] monitors[i]).height <= greatest_height(monitors),
        monitors.len() > 0 ==> exists|i: int|
            0 <= i < monitors.len() && (#[trigger] monitors[i]).height == greatest_height(monitors),
    decreases monitors.len(),
{
    if monitors.len() > 0 {
        let init = monitors.drop_last();
        law_greatest_height(init);
        let last = monitors.len() - 1;
        assert(monitors[last] == monitors.last());
        assert forall|i: int| 0 <= i < monitors.len() implies (#[trigger] monitors[i]).height
            <= greatest_height(monitors) by {
            if i < last {
                assert(init[i] == monitors[i]);
            }
        }
        if monitors.last().height as nat <= greatest_height(init) {
            if init.len() > 0 {
                let i = choose|i: int|
                    0 <= i < init.len() && (#[trigger] init[i]).height == greatest_height(init);
                assert(monitors[i].height == greatest_height(monitors));
            } else {
                assert(monitors[last].height == greatest_height(monitors));
            }
        }
    }
}

// ---------------------------------------------------------------------------
// Encoder settings
// ---------------------------------------------------------------------------
/// A value fits an option: it is one of those that can be chosen, or within the
/// limits, and one of ten bits has a format of ten bits.
pub open spec fn fits(o: ResolvedModel, value: JsonModel, color: Option<Seq<char>>) -> bool {
    &&& o.supported
    &&& match (o.kind, value) {
        (SpecKind::Enum, JsonModel::Str(s)) => o.values.contains(s) && (o.p010_values.contains(s)
            ==> color is None || color == Some("P010"@)),
        (SpecKind::Int, JsonModel::Int(n)) => {
            &&& i64::MIN <= n <= i64::MAX
            &&& if o.int_values.len() > 0 {
                o.int_values.contains(n as i64)
            } else {
                o.min <= n <= o.max
            }
            &&& o.p010_ints.contains(n as i64) ==> color is None || color == Some("P010"@)
        },
        (SpecKind::Bool, JsonModel::Bool(_)) => true,
        (SpecKind::Text, JsonModel::Str(_)) => true,
        _ => false,
    }
}

/// Settings pass exactly where each names an option and fits it.
pub proof fn law_settings_pass_where_each_fits(
    options: Seq<ResolvedModel>,
    codec: Seq<char>,
    settings: Seq<(Seq<char>, JsonModel)>,
    color: Option<Seq<char>>,
)
    ensures
        settings_error(options, codec, settings, color) is None <==> forall|i: int|
            0 <= i < settings.len() ==> (find_option(options, (#[trigger] settings[i]).0) matches Some(
                o,
            ) && fits(o, settings[i].1, color)),
    decreases settings.len(),
{
    if settings.len() > 0 {
        let rest = settings.drop_first();
        law_settings_pass_where_each_fits(options, codec, rest, color);
        let (key, value) = settings[0];
        assert((setting_error(find_option(options, key), codec, key, value, color) is None) == (
        find_option(options, key) matches Some(o) && fits(o, value, color)));
        assert forall|i: int| 1 <= i < settings.len() implies #[trigger] settings[i] == rest[i - 1] by {}
        if settings_error(options, codec, settings, color) is None {
            assert forall|i: int| 0 <= i < settings.len() implies (find_option(
                options,
                (#[trigger] settings[i]).0,
            ) matches Some(o) && fits(o, settings[i].1, color)) by {
                if i > 0 {
                    assert(rest[i - 1] == settings[i]);
                }
            }
        } else if forall|i: int|
            0 <= i < settings.len() ==> (find_option(options, (#[trigger] settings[i]).0) matches Some(
                o,
            ) && fits(o, settings[i].1, color)) {
            assert forall|i: int| 0 <= i < rest.len() implies (find_option(
                options,
                (#[trigger] rest[i]).0,
            ) matches Some(o) && fits(o, rest[i].1, color)) by {
                assert(settings[i + 1] == rest[i]);
            }
            assert(settings[0] == settings[0]);
        }
    }
}

/// An option is found by its key, and is the first of that key.
pub proof fn law_option_is_found_by_its_key(options: Seq<ResolvedModel>, key: Seq<char>)
    ensures
        match find_option(options, key) {
            Some(o) => exists|i: int|
                0 <= i < options.len() && #[trigger] options[i] == o && o.key == key && forall|j: int|
                    0 <= j < i ==> (#[trigger] options[j]).key != key,
            None => forall|j: int| 0 <= j < options.len() ==> (#[trigger] options[j]).key != key,
        },
    decreases options.len(),
{
    if options.len() > 0 {
        let rest = options.drop_first();
        law_option_is_found_by_its_key(rest, key);
        if options[0].key == key {
            assert(options[0] == options[0]);
        } else {
            match find_option(rest, key) {
                Some(o) => {
                    let i = choose|i: int|
                        0 <= i < rest.len() && #[trigger] rest[i] == o && o.key == key && forall|j: int|
                            0 <= j < i ==> (#[trigger] rest[j]).key != key;
                    assert(options[i + 1] == o);
                    assert forall|j: int| 0 <= j < i + 1 implies (#[trigger] options[j]).key != key by {
                        if j > 0 {
                            assert(rest[j - 1] == options[j]);
                        }
                    }
                },
                None => {
                    assert forall|j: int| 0 <= j < options.len() implies (#[trigger] options[j]).key
                        != key by {
                        if j > 0 {
                            assert(rest[j - 1] == options[j]);
                        }
                    }
                },
            }
        }
    }
}

/// An option is offered for the codecs that it lists, or for all where it lists
/// none; without values of its own a codec has the general ones.
pub proof fn law_option_follows_the_codec(o: OptionModel, codec: Seq<char>)
    ensures
        ({
            let r = resolve_option(o, codec);
            &&& r.supported <==> o.codecs.len() == 0 || o.codecs.contains(codec)
            &&& o.codec_values.len() == 0 ==> r.values == o.values
            &&& o.codec_int_values.len() == 0 ==> r.int_values == o.int_values
            &&& o.codec_range.len() == 0 ==> r.min == o.min && r.max == o.max
            &&& o.codec_defaults.len() == 0 ==> r.default == o.default
            &&& o.codec_values.len() > 0 && o.codec_values[0].0 == codec ==> r.values
                == o.codec_values[0].1
            &&& o.codec_int_values.len() > 0 && o.codec_int_values[0].0 == codec ==> r.int_values
                == o.codec_int_values[0].1
            &&& o.codec_defaults.len() > 0 && o.codec_defaults[0].0 == codec ==> r.default == Some(
                o.codec_defaults[0].1,
            )
            &&& o.codec_range.len() > 0 && o.codec_range.last().0 == codec ==> r.min
                == o.codec_range.last().1 && r.max == o.codec_range.last().2
            &&& r.key == o.key && r.kind == o.kind && r.step == o.step && r.i18n == o.i18n
            &&& r.visible == o.visible
            &&& r.p010_values == o.p010_values && r.p010_ints == o.p010_ints
        }),
{
}

/// Every encoder takes the ordinary format. Ten bits are for NVENC, and for
/// hevc and av1 on the others but x264; full colour is for NVENC and x264.
pub proof fn law_color_formats(family: EncoderFamily, codec: Seq<char>)
    requires
        names_codec(codec),
    ensures
        ({
            let formats = color_formats(family, codec);
            let deep = codec == "hevc"@ || codec == "av1"@;
            &&& formats.contains("NV12"@)
            &&& formats.contains("P010"@) <==> family == EncoderFamily::Nvenc || (family
                != EncoderFamily::X264 && deep)
            &&& formats.contains("I444"@) <==> family == EncoderFamily::Nvenc || family
                == EncoderFamily::X264
            &&& formats.contains("I420"@) <==> family == EncoderFamily::Nvenc || family
                == EncoderFamily::X264 || ((family == EncoderFamily::Amf || family
                == EncoderFamily::Vaapi) && !deep)
        }),
{
    reveal_strlit("NV12");
    reveal_strlit("P010");
    reveal_strlit("I444");
    reveal_strlit("I420");
    reveal_strlit("h264");
    reveal_strlit("hevc");
    reveal_strlit("av1");
    assert("NV12"@[0] == 'N' && "P010"@[0] == 'P' && "I444"@[0] == 'I' && "I420"@[0] == 'I'
        && "I444"@[2] == '4' && "I420"@[2] == '2');
    assert("h264"@[1] == '2' && "hevc"@[1] == 'e' && "av1"@.len() == 3);
    let x = strs(FORMATS_X264@);
    assert(x.len() == 3 && x[0] == "NV12"@ && x[1] == "I420"@ && x[2] == "I444"@);
    let n = strs(FORMATS_NV12@);
    assert(n.len() == 1 && n[0] == "NV12"@);
    let t = strs(FORMATS_10BIT@);
    assert(t.len() == 2 && t[0] == "NV12"@ && t[1] == "P010"@);
    let e = strs(FORMATS_8BIT@);
    assert(e.len() == 2 && e[0] == "NV12"@ && e[1] == "I420"@);
    let a = strs(FORMATS_ALL@);
    assert(a.len() == 4 && a[0] == "NV12"@ && a[1] == "I420"@ && a[2] == "I444"@ && a[3]
        == "P010"@);
}

// ---------------------------------------------------------------------------
// Hardware test
// ---------------------------------------------------------------------------
/// A test clip passes where it is not tiny, and at least half and little more
/// than one and a half times as long as was asked for.
pub proof fn law_test_clip_passes(duration_ms: int, size_bytes: nat, seconds: nat)
    ensures
        clip_error(duration_ms, size_bytes, seconds) is None <==> size_bytes >= 65_536
            && duration_ms > 0 && duration_ms >= seconds * 500 && duration_ms <= seconds * 1500
            + 2000,
{
}

/// A recorded stream passes where codec, height and frame rate are those that
/// were asked for.
pub proof fn law_test_stream_passes(p: ProbeModel, codec: Seq<char>, height: nat, fps: nat)
    ensures
        probe_error(p, codec, height, fps) is None ==> p.codec_name == codec && p.height == height,
        p.codec_name != codec ==> probe_error(p, codec, height, fps) is Some,
        p.height != height ==> probe_error(p, codec, height, fps) is Some,
        p.codec_name == codec && p.height == height ==> (probe_error(p, codec, height, fps)
            is None <==> !crate::frame_rate::is_rate_off(p.fps_bits, fps)),
{
}

/// What is tried after a failure: 720 lines at 60 frames where more was asked
/// for, else the same height at thirty frames, else nothing.
pub proof fn law_test_fallback(height: nat, fps: nat)
    ensures
        height > 720 ==> fallback_of(height, fps) == (Some(720nat), Some(60nat)),
        height <= 720 && fps > 30 ==> fallback_of(height, fps) == (Some(height), Some(30nat)),
        height <= 720 && fps <= 30 ==> fallback_of(height, fps) == (None::<nat>, None::<nat>),
{
}

/// A test takes ten seconds, or what is asked for within five and thirty.
pub proof fn law_test_length(seconds: Option<u32>)
    ensures
        seconds is None ==> test_length(seconds) == 10,
        seconds matches Some(s) ==> {
            &&& 5 <= s <= 30 ==> test_length(seconds) == s
            &&& s < 5 ==> test_length(seconds) == 5
            &&& s > 30 ==> test_length(seconds) == 30
        },
{
}

/// The height that a test expects is the custom one, else the one that is asked
/// for, else the stored one, else that of the monitor, else 1080.
pub proof fn law_test_expects_the_height_that_is_recorded(
    o: OverridesModel,
    settings: Map<Seq<char>, Seq<char>>,
    monitor_height: Option<u32>,
    n: nat,
)
    requires
        0 < n <= 0xffff_ffff,
    ensures
        ({
            let h = expected_height(o, settings, monitor_height);
            let stored = settings.contains_key("out_height"@) && settings["out_height"@] == decimal(
                n,
            );
            &&& o.custom_video matches Some(v) ==> h == v.out_height
            &&& o.custom_video is None && o.height is Some ==> h == o.height->0
            &&& o.custom_video is None && o.height is None && stored ==> h == n
            &&& o.custom_video is None && o.height is None && !settings.contains_key("out_height"@)
                ==> h == match monitor_height {
                Some(m) => m as int,
                None => 1080,
            }
        }),
{
    lemma_parse_decimal(n, u32::MAX as nat);
    lemma_trim_decimal(n);
    crate::config_laws::lemma_numerals();
}

/// A test passes where the clip and its stream do, and fails for the reason that
/// the recording failed.
pub proof fn law_test_passes(t: TestTarget, run: Result<TestRecording, String>)
    ensures
        run matches Err(e) ==> test_error(t, run) == Some(e@),
        run matches Ok(rec) ==> (test_error(t, run) is None <==> clip_error(
            rec.duration_ms as int,
            rec.size_bytes as nat,
            t.seconds as nat,
        ) is None && rec.probe is Some && probe_error(
            rec.probe->0@,
            t.codec@,
            t.height as nat,
            t.fps as nat,
        ) is None),
{
}

/// A test can be asked for with an encoder of its own, whose settings pass and
/// whose video passes with them, but not with video alone.
pub proof fn law_test_requests(
    encoder: Option<CustomEncoderModel>,
    video: Option<CustomVideoModel>,
)
    ensures
        encoder is None ==> (request_error(encoder, video) is None <==> video is None),
        encoder matches Some(c) ==> (request_error(encoder, video) is None ==> {
            &&& known_encoder(c.encoder) matches Some(e) && settings_error(
                resolved_table(e.family, e.codec),
                e.codec,
                c.settings,
                None,
            ) is None && (video matches Some(v) ==> custom_video_of(
                e.family,
                e.codec,
                video_doc(v),
            ) is Ok)
        }),
        encoder matches Some(c) && known_encoder(c.encoder) is None ==> request_error(
            encoder,
            video,
        ) is Some,
{
}

// ---------------------------------------------------------------------------
// Forms
// ---------------------------------------------------------------------------
/// A row of the ladder is offered with its height, and with the bitrate, the
/// recommended range and the memory of each of its cells.
pub proof fn law_rows_of_the_ladder(h: HeightOpt, row: LadderRow, i: int)
    requires
        offers_row(h, row),
        0 <= i < row.cells@.len(),
    ensures
        h.height == row.height,
        h.label@ == decimal(row.height as nat) + "p"@,
        h.bitrates@.len() == row.cells@.len(),
        h.bitrates@[i] == row.cells@[i].kbps,
        h.recommended@[i] == row.cells@[i].recommended,
        h.ring_mb_60s@[i] == row.cells@[i].ring_mb_60s,
{
}

/// The form of an option shows it as it is: its kind, what can be chosen, its
/// limits and its default.
pub proof fn law_form_shows_the_option(r: ResolvedModel)
    ensures
        ({
            let f = form_option(r);
            &&& f.key == r.key
            &&& f.values == r.values
            &&& f.int_values == r.int_values
            &&& f.min == r.min && f.max == r.max && f.step == r.step
            &&& f.i18n == r.i18n
            &&& f.supported == r.supported
            &&& f.p010_values == r.p010_values
            &&& f.p010_ints == r.p010_ints
            &&& r.kind == SpecKind::Enum ==> f.kind == "enum"@
            &&& r.kind == SpecKind::Int ==> f.kind == "int"@
            &&& r.kind == SpecKind::Bool ==> f.kind == "bool"@
            &&& r.kind == SpecKind::Text ==> f.kind == "text"@
            &&& match r.default {
                None => f.default is None,
                Some(DefaultModel::Str(s)) => f.default == Some(JsonModel::Str(s)),
                Some(DefaultModel::Int(n)) => f.default == Some(JsonModel::Int(n)),
                Some(DefaultModel::Bool(b)) => f.default == Some(JsonModel::Bool(b)),
            }
        }),
{
}

/// An option is shown where its conditions hold, and always where it has none.
pub proof fn law_conditions_of_an_option(v: VisibleModel)
    ensures
        v.when is None ==> shown_when(v) is None,
        v.when matches Some((key, values)) ==> {
            &&& shown_when(v) matches Some(w) && w.key == key && w.values == values && match v.and_when {
                Some((k, vs)) => w.and_key == Some(k) && w.and_values == vs,
                None => w.and_key is None && w.and_values.len() == 0,
            }
        },
{
}

/// The page of an encoder has all its options, in their order, for its codec.
pub proof fn law_page_of_an_encoder(e: EntryModel, i: int)
    requires
        0 <= i < option_table(e.family).len(),
    ensures
        ({
            let page = schema_of(e);
            &&& page.encoder == e.id
            &&& page.codec == e.codec
            &&& page.options.len() == option_table(e.family).len()
            &&& page.options[i].key == option_table(e.family)[i].key
            &&& page.options[i] == form_option(resolve_option(option_table(e.family)[i], e.codec))
            &&& e.family == EncoderFamily::Nvenc ==> page.family == "nvenc"@
            &&& e.family == EncoderFamily::X264 ==> page.family == "x264"@
            &&& e.family == EncoderFamily::Qsv ==> page.family == "qsv"@
            &&& e.family == EncoderFamily::Amf ==> page.family == "amf"@
            &&& e.family == EncoderFamily::Vaapi ==> page.family == "vaapi"@
        }),
{
}

/// What custom video is stored as is what is shown of it: every field is read
/// back from its own place.
pub proof fn law_stored_video_is_shown(v: CustomVideoModel)
    requires
        0 <= v.out_width <= u32::MAX,
        0 <= v.out_height <= u32::MAX,
        0 <= v.fps_common <= u32::MAX,
        0 <= v.fps_int <= u32::MAX,
        0 <= v.fps_num <= u32::MAX,
        0 <= v.fps_den <= u32::MAX,
    ensures
        literal_video(
            Seq::new(11, |i: int| Some(JsonRead::Document(video_entries(v)[i].1))),
        ) == Some(v),
        forall|i: int|
            0 <= i < 11 ==> (#[trigger] strs(VIDEO_FIELDS@)[i]) == video_entries(v)[i].0,
{
    let names = strs(VIDEO_FIELDS@);
    assert(names[0] == "out_width"@ && names[1] == "out_height"@ && names[2] == "scale_type"@);
    assert(names[3] == "fps_type"@ && names[4] == "fps_common"@ && names[5] == "fps_int"@);
    assert(names[6] == "fps_num"@ && names[7] == "fps_den"@ && names[8] == "color_format"@);
    assert(names[9] == "color_space"@ && names[10] == "color_range"@);
}

/// A selection is shown where its encoder is known and everything passes, and it
/// is shown as it is.
pub proof fn law_selection_is_shown_where_it_passes(
    c: CustomEncoderModel,
    video: Option<CustomVideoModel>,
)
    ensures
        selection_of(c, video) matches Some(s) ==> s.encoder == c.encoder && s.settings
            == c.settings && s.video == video && known_encoder(c.encoder) is Some,
        known_encoder(c.encoder) matches Some(e) ==> (selection_of(c, video) is Some
            <==> settings_error(
            resolved_table(e.family, e.codec),
            e.codec,
            c.settings,
            match video {
                Some(v) => Some(v.color_format),
                None => None,
            },
        ) is None && (video matches Some(v) ==> custom_video_of(
            e.family,
            e.codec,
            video_doc(v),
        ) is Ok)),
{
}

// ---------------------------------------------------------------------------
// Custom video
// ---------------------------------------------------------------------------
/// Custom video that passes has the sizes of its document without odd rows and
/// columns, its colours and its filter but for the case of letters, and its
/// frame rate.
pub proof fn law_custom_video_takes_over_its_document(
    family: EncoderFamily,
    codec: Seq<char>,
    doc: JsonModel,
)
    ensures
        custom_video_of(family, codec, doc) matches Ok(v) ==> {
            &&& doc.get("out_width"@) matches Some(JsonModel::Int(w)) && (w <= u32::MAX ==> 2 <= w
                <= 8192 && v.out_width == w - w % 2)
            &&& doc.get("out_height"@) matches Some(JsonModel::Int(h)) && (h <= u32::MAX ==> 2 <= h
                <= 8192 && v.out_height == h - h % 2)
            &&& doc.get("scale_type"@) matches Some(JsonModel::Str(s)) && ascii_lower(s)
                == ascii_lower(v.scale_type)
            &&& doc.get("fps_type"@) matches Some(JsonModel::Str(s)) && ascii_lower(s)
                == ascii_lower(v.fps_type)
            &&& doc.get("color_space"@) matches Some(JsonModel::Str(s)) && ascii_lower(s)
                == ascii_lower(v.color_space)
            &&& doc.get("color_range"@) matches Some(JsonModel::Str(s)) && ascii_lower(s)
                == ascii_lower(v.color_range)
            &&& doc.get("color_format"@) matches Some(JsonModel::Str(s)) && v.color_format
                == uppercase(s)
            &&& color_formats(family, codec).contains(v.color_format)
            &&& v.fps_type == "common"@ ==> (doc.get("fps_common"@) matches Some(JsonModel::Int(n))
                && (n <= u32::MAX ==> v.fps_common == n))
            &&& v.fps_type == "integer"@ ==> (doc.get("fps_int"@) matches Some(JsonModel::Int(n))
                && (n <= u32::MAX ==> v.fps_int == n && 1 <= n <= 360))
            &&& v.fps_type == "fractional"@ ==> (doc.get("fps_num"@) matches Some(
                JsonModel::Int(n),
            ) && (n <= u32::MAX ==> v.fps_num == n && 1 <= n <= 1_000_000)) && (doc.get("fps_den"@) matches Some(
                JsonModel::Int(d),
            ) && (d <= u32::MAX ==> v.fps_den == d && 1 <= d <= 1_000_000))
        },
{
    reveal_strlit("common");
    reveal_strlit("integer");
    reveal_strlit("fractional");
    assert("common"@.len() == 6 && "integer"@.len() == 7 && "fractional"@.len() == 10);
    if custom_video_of(family, codec, doc) is Ok {
        let f = video_fields(doc)->Ok_0;
        lemma_canon(strs(SCALE_FILTERS@), f.scale_type);
        lemma_canon(strs(FPS_TYPES@), f.fps_type);
        lemma_canon(strs(COLOR_SPACES@), f.color_space);
        lemma_canon(strs(COLOR_RANGES@), f.color_range);
        assert(uppercase(f.color_format) == uppercase(f.color_format));
    }
}

proof fn lemma_canon(list: Seq<Seq<char>>, v: Seq<char>)
    ensures
        canon_of(list, v) matches Some(c) ==> ascii_lower(c) == ascii_lower(v) && list.contains(c),
    decreases list.len(),
{
    if list.len() > 0 {
        lemma_canon(list.drop_first(), v);
        if ascii_lower(list[0]) == ascii_lower(v) {
            assert(list.contains(list[0]));
        } else if canon_of(list.drop_first(), v) is Some {
            let c = canon_of(list.drop_first(), v)->0;
            let i = choose|i: int| 0 <= i < list.drop_first().len() && list.drop_first()[i] == c;
            assert(list[i + 1] == c);
        }
    }
}

/// A custom encoder that passes is the one that its document names, known, with
/// the settings of the document.
pub proof fn law_custom_encoder_takes_over_its_document(doc: JsonModel)
    ensures
        custom_encoder_of(doc) matches Ok(c) ==> {
            &&& doc.get("encoder"@) == Some(JsonModel::Str(c.encoder))
            &&& known_encoder(c.encoder) is Some
            &&& doc.get("settings"@) matches Some(JsonModel::Object(m)) && c.settings
                == ascending_entries(m)
        },
        !(doc.get("encoder"@) matches Some(JsonModel::Str(_))) ==> custom_encoder_of(doc) is Err,
        !(doc.get("settings"@) matches Some(JsonModel::Object(_))) ==> custom_encoder_of(doc) is Err,
{
}

/// A rate that is a whole number is off where it differs from the expected one
/// by more than two: the double of such a number has its digits shifted up to
/// the full width.
pub proof fn law_whole_rates(bits: u64, k: nat, fraction: nat, m: nat, expected: nat)
    requires
        k <= 52,
        fraction < 0x10_0000_0000_0000,
        bits == (1023 + k) * 0x10_0000_0000_0000 + fraction,
        0x10_0000_0000_0000 + fraction == m * pow2((52 - k) as nat),
    ensures
        is_rate_off(bits, expected) <==> m > expected + 2 || expected > m + 2,
{
    let one = pow2(1074);
    let part = pow2(1022);
    assert(stored_exponent(bits) == 1023 + k) by (nonlinear_arith)
        requires
            bits == (1023 + k) * 0x10_0000_0000_0000 + fraction,
            fraction < 0x10_0000_0000_0000,
            k <= 52,
            stored_exponent(bits) == bits as int / 0x10_0000_0000_0000 % 0x800,
    ;
    assert(stored_fraction(bits) == fraction) by (nonlinear_arith)
        requires
            bits == (1023 + k) * 0x10_0000_0000_0000 + fraction,
            fraction < 0x10_0000_0000_0000,
            stored_fraction(bits) == bits as int % 0x10_0000_0000_0000,
    ;
    assert(bits < 0x8000_0000_0000_0000) by (nonlinear_arith)
        requires
            bits == (1023 + k) * 0x10_0000_0000_0000 + fraction,
            fraction < 0x10_0000_0000_0000,
            k <= 52,
    ;
    lemma_pow2_adds((52 - k) as nat, (1022 + k) as nat);
    lemma_pow2_adds(52, 1022);
    lemma_pow2_pos(1022);
    lemma_pow2_pos(52);
    lemma2_to64();
    assert(in_least_units(bits) == m * one) by (nonlinear_arith)
        requires
            in_least_units(bits) == (m * pow2((52 - k) as nat)) * pow2((1022 + k) as nat),
            pow2((52 - k) as nat) * pow2((1022 + k) as nat) == one,
    ;
    assert(pow2(52) == 0x10_0000_0000_0000) by {
        lemma_pow2_adds(32, 20);
    }
    assert(part < one) by (nonlinear_arith)
        requires
            one == 0x10_0000_0000_0000 * part,
            part > 0,
    ;
    let d = m - expected;
    assert(m * one - expected * one == d * one) by (nonlinear_arith)
        requires
            d == m - expected,
    ;
    if m > expected + 2 {
        assert(d * one >= 3 * one) by (nonlinear_arith)
            requires
                d >= 3,
                one > 0,
        ;
    } else if expected > m + 2 {
        assert(d * one <= -3 * one) by (nonlinear_arith)
            requires
                d <= -3,
                one > 0,
        ;
    } else {
        assert(-2 * one <= d * one <= 2 * one) by (nonlinear_arith)
            requires
                -2 <= d <= 2,
                one > 0,
        ;
    }
}

/// A rate that is no number is off from nothing, and an infinite one from all.
pub proof fn law_odd_rates(bits: u64, expected: nat)
    requires
        stored_exponent(bits) == 2047,
    ensures
        is_rate_off(bits, expected) <==> stored_fraction(bits) == 0,
{
}

// ---------------------------------------------------------------------------
// Custom selections of a start
// ---------------------------------------------------------------------------
/// In custom mode a start uses the encoder and the video that are stored, with
/// the codec of that encoder; what does not pass stops it.
pub proof fn law_stored_selection_is_used(
    settings: Map<Seq<char>, Seq<char>>,
    o: OverridesModel,
    monitor: Option<&Monitor>,
    encoder: JsonRead,
    video: Option<JsonRead>,
)
    requires
        filled(settings, "video_mode"@) == Some("custom"@),
        o.custom_encoder is None,
        o.custom_video is None,
    ensures
        ({
            let plan = plan_with_of(settings, o, monitor, Some(encoder), video);
            &&& custom_encoder_read(encoder) is Err ==> plan is Err
            &&& plan matches Ok(p) ==> {
                &&& custom_encoder_read(encoder) matches Ok(c) && p.custom_encoder == Some(c) && (
                known_encoder(c.encoder) matches Some(e) ==> p.codec == e.codec && match video {
                    None => p.custom_video is None,
                    Some(read) => custom_video_read(e.family, e.codec, read) matches Ok(v)
                        && p.custom_video == Some(v) && (p.out_height == 0 ==> p.ladder_height
                        == v.out_height),
                })
            }
            &&& plan_with_of(settings, o, monitor, None, video) matches Ok(p) && p.custom_encoder
                is None && p.custom_video is None
        }),
{
}

/// The frame rate of custom video is the one that is configured and recorded,
/// unless a start asks for another.
pub proof fn law_custom_frame_rate_is_configured(
    plan: PlanModel,
    settings: Map<Seq<char>, Seq<char>>,
    o: OverridesModel,
    ladder_kbps: nat,
    env: CaptureEnv,
)
    requires
        plan.custom_video is Some,
    ensures
        ({
            let c = config_of(plan, settings, o, ladder_kbps, env);
            &&& o.fps is None ==> c.fps == crate::profile::video_tab(c, plan.custom_video).fps
            &&& o.fps matches Some(f) ==> c.fps == f
        }),
{
}

/// What is read of a stored payload.
pub open spec fn read_of(stored: Option<Seq<char>>) -> Option<JsonRead> {
    match stored {
        Some(text) => Some(json_parse(text)),
        None => None,
    }
}

/// A plan reads the encoder and the video from the settings of those names.
pub proof fn law_plan_reads_both_payloads(
    settings: Map<Seq<char>, Seq<char>>,
    o: OverridesModel,
    monitor: Option<&Monitor>,
)
    ensures
        plan_of(settings, o, monitor) == plan_with_of(
            settings,
            o,
            monitor,
            read_of(filled(settings, "custom_encoder_json"@)),
            read_of(filled(settings, "custom_video_json"@)),
        ),
{
    reveal_strlit("");
    assert(trim(""@) =~= ""@);
}

} // verus!
