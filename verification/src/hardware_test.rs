//! The optional test of the hardware: a short recording with candidate values,
//! which is measured against what was asked for.

use vstd::prelude::*;

use crate::api::{opt_encoder, opt_video, CustomEncoder, CustomEncoderModel, CustomVideo, CustomVideoModel};
use crate::capture::{no_overrides, OverridesModel, StartOverrides};
use crate::encoder_custom::{check_custom_video, custom_video_of, video_doc};
use crate::encoder_options::{
    known_encoder, lookup_encoder, resolved_table, settings_error, validate, validate_pair,
};
use crate::frame_rate::{is_rate_off, rate_is_off};
use crate::json::{json_entries, Json, JsonModel};
use crate::profile::clamped;
use crate::settings::{number_setting, setting_u32, TextMap};
use crate::text::{
    cat3, cat5, decimal, decimal_int, decimal_of, decimal_of_int, opt_text, same,
};

verus! {

broadcast use vstd::string::group_string_axioms;

// ---------------------------------------------------------------------------
// Request
// ---------------------------------------------------------------------------
/// The length of a test: 10 seconds, or what is asked for within 5 and 30.
pub open spec fn test_length(seconds: Option<u32>) -> int {
    match seconds {
        Some(s) => clamped(s as int, 5, 30),
        None => 10,
    }
}

/// Length of a test in seconds.
pub fn test_seconds(seconds: Option<u32>) -> (r: u32)
    ensures
        r == test_length(seconds),
{
    match seconds {
        Some(s) => crate::profile::clamp_u32(s, 5, 30),
        None => 10,
    }
}

/// What is wrong with the custom selections that are to be tested.
pub open spec fn request_error(
    encoder: Option<CustomEncoderModel>,
    video: Option<CustomVideoModel>,
) -> Option<Seq<char>> {
    match encoder {
        None => if video is Some {
            Some("custom video needs a custom encoder"@)
        } else {
            None
        },
        Some(c) => match known_encoder(c.encoder) {
            None => Some("unknown encoder '"@ + c.encoder + "'"@),
            Some(entry) => match settings_error(
                resolved_table(entry.family, entry.codec),
                entry.codec,
                c.settings,
                None,
            ) {
                Some(e) => Some(e),
                None => match video {
                    None => None,
                    Some(v) => match custom_video_of(entry.family, entry.codec, video_doc(v)) {
                        Err(e) => Some(e),
                        Ok(v) => settings_error(
                            resolved_table(entry.family, entry.codec),
                            entry.codec,
                            c.settings,
                            Some(v.color_format),
                        ),
                    },
                },
            },
        },
    }
}

fn check_request(encoder: &Option<CustomEncoder>, video: &Option<CustomVideo>) -> (r: Option<String>)
    ensures
        opt_text(r) == request_error(opt_encoder(*encoder), opt_video(*video)),
{
    match encoder {
        None => {
            if video.is_some() {
                Some("custom video needs a custom encoder".to_owned())
            } else {
                None
            }
        },
        Some(c) => {
            let entry = match lookup_encoder(c.encoder.as_str()) {
                Some(e) => e,
                None => {
                    return Some(cat3("unknown encoder '", c.encoder.as_str(), "'"));
                },
            };
            match validate(entry.family, entry.codec, &c.settings) {
                Ok(_) => {},
                Err(e) => {
                    return Some(e);
                },
            }
            match video {
                None => None,
                Some(v) => match check_custom_video(entry.family, entry.codec, v) {
                    Err(e) => Some(e),
                    Ok(checked) => match validate_pair(
                        entry.family,
                        entry.codec,
                        &c.settings,
                        Some(checked.color_format.as_str()),
                    ) {
                        Ok(_) => None,
                        Err(e) => Some(e),
                    },
                },
            }
        },
    }
}

/// The entries of optional settings.
pub open spec fn opt_entries(settings: Option<Vec<(String, Json)>>) -> Seq<(Seq<char>, JsonModel)> {
    match settings {
        Some(s) => json_entries(s@),
        None => Seq::empty(),
    }
}

/// The overrides of a test, or what is wrong with the custom selections. The
/// settings of the encoder only count with its id.
pub fn test_overrides(
    height: Option<u32>,
    fps: Option<u32>,
    seconds: Option<u32>,
    encoder_id: Option<String>,
    encoder_settings: Option<Vec<(String, Json)>>,
    custom_video: Option<CustomVideo>,
) -> (r: Result<StartOverrides, String>)
    ensures
        ({
            let encoder: Option<CustomEncoderModel> = match encoder_id {
                Some(id) => Some(
                    CustomEncoderModel {
                        encoder: id@,
                        settings: opt_entries(encoder_settings),
                    },
                ),
                None => None,
            };
            match r {
                Ok(o) => request_error(encoder, opt_video(custom_video)) is None && o@ == (
                OverridesModel {
                    height,
                    fps,
                    duration_seconds: Some(test_length(seconds) as u32),
                    custom_encoder: encoder,
                    custom_video: opt_video(custom_video),
                    ..no_overrides()
                }),
                Err(e) => request_error(encoder, opt_video(custom_video)) == Some(e@),
            }
        }),
{
    let ghost settings_model = opt_entries(encoder_settings);
    let encoder: Option<CustomEncoder> = match encoder_id {
        Some(id) => {
            let settings: Vec<(String, Json)> = match encoder_settings {
                Some(s) => s,
                None => Vec::new(),
            };
            proof {
                assert(json_entries(settings@) =~= settings_model);
            }
            Some(CustomEncoder { encoder: id, settings })
        },
        None => None,
    };
    match check_request(&encoder, &custom_video) {
        Some(e) => Err(e),
        None => Ok(
            StartOverrides {
                height,
                fps,
                codec: None,
                encoder: None,
                bitrate_kbps: None,
                duration_seconds: Some(test_seconds(seconds)),
                custom_encoder: encoder,
                custom_video,
                game: None,
            },
        ),
    }
}

/// The height that a test must deliver: that of the custom video, the override,
/// the stored one, or that of the monitor.
pub open spec fn expected_height(
    o: OverridesModel,
    settings: Map<Seq<char>, Seq<char>>,
    monitor_height: Option<u32>,
) -> int {
    let stored = number_setting(settings, "out_height"@, "0"@, 0);
    if o.custom_video is Some {
        o.custom_video->0.out_height
    } else if o.height is Some {
        o.height->0 as int
    } else if stored > 0 {
        stored as int
    } else if monitor_height is Some {
        monitor_height->0 as int
    } else {
        1080
    }
}

/// Height that a test must deliver.
pub fn expected_test_height(o: &StartOverrides, settings: &TextMap, monitor_height: Option<u32>) -> (r:
    u32)
    ensures
        r == expected_height(o@, settings@, monitor_height),
{
    match &o.custom_video {
        Some(v) => {
            return v.out_height;
        },
        None => {},
    }
    match o.height {
        Some(h) => {
            return h;
        },
        None => {},
    }
    let stored: u32 = setting_u32(settings, "out_height", "0", 0);
    if stored > 0 {
        return stored;
    }
    match monitor_height {
        Some(h) => h,
        None => 1080,
    }
}

// ---------------------------------------------------------------------------
// Measuring
// ---------------------------------------------------------------------------
/// What is wrong with a test clip: too few bytes, no length, or a length far
/// from the requested one.
pub open spec fn clip_error(duration_ms: int, size_bytes: nat, seconds: nat) -> Option<Seq<char>> {
    let want = seconds as int * 1000;
    if size_bytes < 64 * 1024 {
        Some("clip is suspiciously small ("@ + decimal(size_bytes) + " bytes)"@)
    } else if duration_ms <= 0 {
        Some("clip duration could not be measured"@)
    } else if duration_ms < want / 2 {
        Some(
            "recorded "@ + decimal_int(duration_ms) + " ms of the requested "@ + decimal_int(want)
                + " ms"@,
        )
    } else if duration_ms > want * 3 / 2 + 2000 {
        Some(
            "recorded "@ + decimal_int(duration_ms) + " ms, far more than requested ("@
                + decimal_int(want) + " ms)"@,
        )
    } else {
        None
    }
}

/// Checks a test clip.
pub fn validate_test_clip(measured_duration_ms: i64, size_bytes: u64, requested_seconds: u32) -> (r:
    Result<(), String>)
    ensures
        match r {
            Ok(_) => clip_error(
                measured_duration_ms as int,
                size_bytes as nat,
                requested_seconds as nat,
            ) is None,
            Err(e) => clip_error(
                measured_duration_ms as int,
                size_bytes as nat,
                requested_seconds as nat,
            ) == Some(e@),
        },
{
    if size_bytes < 64 * 1024 {
        let n = decimal_of(size_bytes);
        return Err(cat3("clip is suspiciously small (", n.as_str(), " bytes)"));
    }
    let want: i64 = requested_seconds as i64 * 1000;
    if measured_duration_ms <= 0 {
        return Err("clip duration could not be measured".to_owned());
    }
    let got = decimal_of_int(measured_duration_ms);
    let asked = decimal_of_int(want);
    if measured_duration_ms < want / 2 {
        return Err(
            cat5("recorded ", got.as_str(), " ms of the requested ", asked.as_str(), " ms"),
        );
    }
    if measured_duration_ms > want * 3 / 2 + 2000 {
        return Err(
            cat5("recorded ", got.as_str(), " ms, far more than requested (", asked.as_str(), " ms)"),
        );
    }
    Ok(())
}

/// The more careful values to suggest after a failed test.
pub open spec fn fallback_of(height: nat, fps: nat) -> (Option<nat>, Option<nat>) {
    if height > 720 {
        (Some(720), Some(60))
    } else if fps > 30 {
        (Some(height), Some(30))
    } else {
        (None, None)
    }
}

/// More careful values to suggest after a failed test.
pub fn test_fallback(height: u32, fps: u32) -> (r: (Option<u32>, Option<u32>))
    ensures
        match fallback_of(height as nat, fps as nat) {
            (Some(h), Some(f)) => r == (Some(h as u32), Some(f as u32)),
            _ => r == (None::<u32>, None::<u32>),
        },
        r.0 is Some <==> height > 720 || fps > 30,
{
    if height > 720 {
        (Some(720), Some(60))
    } else if fps > 30 {
        (Some(height), Some(30))
    } else {
        (None, None)
    }
}

/// The video stream of a recorded file. The frame rate was measured in double
/// precision: its bits, and its text with one decimal.
#[derive(Debug, Clone)]
pub struct VideoProbe {
    pub codec_name: String,
    pub profile: String,
    pub width: u32,
    pub height: u32,
    pub fps_bits: u64,
    pub fps_text: String,
}

/// What a video stream stands for.
pub struct ProbeModel {
    pub codec_name: Seq<char>,
    pub profile: Seq<char>,
    pub width: nat,
    pub height: nat,
    pub fps_bits: u64,
    pub fps_text: Seq<char>,
}

impl View for VideoProbe {
    type V = ProbeModel;

    open spec fn view(&self) -> ProbeModel {
        ProbeModel {
            codec_name: self.codec_name@,
            profile: self.profile@,
            width: self.width as nat,
            height: self.height as nat,
            fps_bits: self.fps_bits,
            fps_text: self.fps_text@,
        }
    }
}

/// What is wrong with a recorded stream: another codec or height than asked
/// for, or a frame rate that is off by more than 2.
pub open spec fn probe_error(p: ProbeModel, codec: Seq<char>, height: nat, fps: nat) -> Option<
    Seq<char>,
> {
    if p.codec_name != codec {
        Some("encoded codec is '"@ + p.codec_name + "', expected '"@ + codec + "'"@)
    } else if p.height != height {
        Some("encoded "@ + decimal(p.height) + "p, expected "@ + decimal(height) + "p"@)
    } else if is_rate_off(p.fps_bits, fps) {
        Some("encoded "@ + p.fps_text + " fps, expected "@ + decimal(fps) + " fps"@)
    } else {
        None
    }
}

/// Checks the recorded stream against what was asked for.
pub fn check_probe(probe: &VideoProbe, codec: &str, expect_height: u32, expect_fps: u32) -> (r: Result<
    (),
    String,
>)
    ensures
        match r {
            Ok(_) => probe_error(probe@, codec@, expect_height as nat, expect_fps as nat) is None,
            Err(e) => probe_error(probe@, codec@, expect_height as nat, expect_fps as nat) == Some(
                e@,
            ),
        },
{
    if !same(probe.codec_name.as_str(), codec) {
        return Err(
            cat5("encoded codec is '", probe.codec_name.as_str(), "', expected '", codec, "'"),
        );
    }
    if probe.height != expect_height {
        let got = decimal_of(probe.height as u64);
        let want = decimal_of(expect_height as u64);
        return Err(cat5("encoded ", got.as_str(), "p, expected ", want.as_str(), "p"));
    }
    if rate_is_off(probe.fps_bits, expect_fps) {
        let want = decimal_of(expect_fps as u64);
        return Err(cat5("encoded ", probe.fps_text.as_str(), " fps, expected ", want.as_str(), " fps"));
    }
    Ok(())
}

// ---------------------------------------------------------------------------
// Result
// ---------------------------------------------------------------------------
/// What a test has shown.
#[derive(Debug, Clone)]
pub struct HardwareTestResult {
    pub ok: bool,
    pub height: u32,
    pub fps: u32,
    pub codec: String,
    pub encoder: String,
    pub bitrate_kbps: u32,
    pub requested_seconds: u32,
    pub startup_ms: u64,
    pub measured_duration_ms: u64,
    pub size_bytes: u64,
    /// More careful values, where the test failed.
    pub fallback_height: Option<u32>,
    pub fallback_fps: Option<u32>,
    /// The stream that was recorded.
    pub probe: Option<VideoProbe>,
    pub error: Option<String>,
}

/// What was asked of a test.
pub struct TestTarget {
    pub height: u32,
    pub fps: u32,
    pub codec: String,
    pub encoder: String,
    pub bitrate_kbps: u32,
    pub seconds: u32,
}

/// What a test has recorded.
pub struct TestRecording {
    pub duration_ms: i64,
    pub size_bytes: u64,
    pub probe: Option<VideoProbe>,
}

/// What an optional stream stands for.
pub open spec fn opt_probe(p: Option<VideoProbe>) -> Option<ProbeModel> {
    match p {
        Some(p) => Some(p@),
        None => None,
    }
}

/// What is wrong with a test: the error that ended it, the clip, or the stream.
pub open spec fn test_error(t: TestTarget, run: Result<TestRecording, String>) -> Option<Seq<char>> {
    match run {
        Err(e) => Some(e@),
        Ok(rec) => match clip_error(rec.duration_ms as int, rec.size_bytes as nat, t.seconds as nat) {
            Some(e) => Some(e),
            None => match rec.probe {
                None => Some("could not read the video stream of the test clip"@),
                Some(p) => probe_error(p@, t.codec@, t.height as nat, t.fps as nat),
            },
        },
    }
}

/// What a test has shown: what was asked for, what was measured, and where
/// something is wrong, that and the more careful values to suggest. The start
/// counts as soon as it succeeded. The stream is only kept of a clip that passed the checks before it.
pub fn finish_test(t: TestTarget, startup_ms: u64, run: Result<TestRecording, String>) -> (r:
    HardwareTestResult)
    ensures
        r.height == t.height,
        r.fps == t.fps,
        r.codec@ == t.codec@,
        r.encoder@ == t.encoder@,
        r.bitrate_kbps == t.bitrate_kbps,
        r.requested_seconds == t.seconds,
        r.startup_ms == startup_ms,
        opt_text(r.error) == test_error(t, run),
        r.ok == (test_error(t, run) is None),
        r.ok ==> r.fallback_height is None && r.fallback_fps is None,
        !r.ok ==> match fallback_of(t.height as nat, t.fps as nat) {
            (Some(h), Some(f)) => r.fallback_height == Some(h as u32) && r.fallback_fps == Some(
                f as u32,
            ),
            _ => r.fallback_height is None && r.fallback_fps is None,
        },
        match run {
            Ok(rec) => {
                &&& r.size_bytes == rec.size_bytes
                &&& r.measured_duration_ms == if rec.duration_ms < 0 {
                    0u64
                } else {
                    rec.duration_ms as u64
                }
                &&& opt_probe(r.probe) == if clip_error(
                    rec.duration_ms as int,
                    rec.size_bytes as nat,
                    t.seconds as nat,
                ) is None {
                    opt_probe(rec.probe)
                } else {
                    None
                }
            },
            Err(_) => r.size_bytes == 0 && r.measured_duration_ms == 0
                && r.probe is None,
        },
{
    let mut size_bytes: u64 = 0;
    let mut measured: u64 = 0;
    let mut probe: Option<VideoProbe> = None;
    let error: Option<String> = match run {
        Err(e) => Some(e),
        Ok(rec) => {
            size_bytes = rec.size_bytes;
            measured = if rec.duration_ms < 0 {
                0
            } else {
                rec.duration_ms as u64
            };
            match validate_test_clip(rec.duration_ms, rec.size_bytes, t.seconds) {
                Err(e) => Some(e),
                Ok(_) => match rec.probe {
                    None => Some("could not read the video stream of the test clip".to_owned()),
                    Some(p) => {
                        let e = match check_probe(&p, t.codec.as_str(), t.height, t.fps) {
                            Ok(_) => None,
                            Err(e) => Some(e),
                        };
                        probe = Some(p);
                        e
                    },
                },
            }
        },
    };
    let ok = error.is_none();
    let (fallback_height, fallback_fps) = if ok {
        (None, None)
    } else {
        test_fallback(t.height, t.fps)
    };
    HardwareTestResult {
        ok,
        height: t.height,
        fps: t.fps,
        codec: t.codec,
        encoder: t.encoder,
        bitrate_kbps: t.bitrate_kbps,
        requested_seconds: t.seconds,
        startup_ms,
        measured_duration_ms: measured,
        size_bytes,
        fallback_height,
        fallback_fps,
        probe,
        error,
    }
}

/// A suggestion asks for less than what failed, and following suggestions ends.
pub proof fn law_fallback_steps_down(height: nat, fps: nat)
    ensures
        fallback_of(height, fps) matches (Some(h), Some(f)) ==> {
            &&& h <= height
            &&& h < height || f < fps
            &&& h <= 720
        },
        fallback_of(720, 60) == (Some(720nat), Some(30nat)),
        fallback_of(720, 30) == (None::<nat>, None::<nat>),
{
}

} // verus!
