//! The OBS profile that a capture configuration comes down to.

use vstd::prelude::*;

use crate::api::{opt_video, CaptureConfig, ConfigModel, CustomVideo, CustomVideoModel};
use crate::encoder_custom::{
    check_custom_video, custom_effective_fps, custom_video_of, effective_fps, video_doc,
};
use crate::encoder_options::{
    encoder_family, entry_list, family_of, find_entry, find_in, ladder_recipe, ladder_settings,
    opt_str, resolved_table, settings_error, validate_pair, EncoderEntry, EntryModel,
};
use crate::encoder_tables::EncoderFamily;
use crate::json::{
    copy_entries, entries_writable, entry_of, entry_value, json_entries, Json, JsonModel,
};
use crate::text::{cat3, cat5, decimal, decimal_of, same, trim, trimmed};

verus! {

broadcast use vstd::string::group_string_axioms;

/// What the platform answers for one capture configuration: the encoders of
/// its OBS build, the encoder that its ladder picks for the configured vendor,
/// codec and preference, and its capture sources.
pub struct PlatformAnswers {
    pub catalog: Vec<EncoderEntry>,
    pub ladder_encoder: Option<&'static str>,
    pub video_source_id: &'static str,
    pub video_settings: Vec<(String, Json)>,
    pub game_audio_id: &'static str,
    pub mic_audio_id: &'static str,
}

/// What a platform's answers stand for.
pub struct PlatformModel {
    pub catalog: Seq<EntryModel>,
    pub ladder_encoder: Option<Seq<char>>,
    pub video_source_id: Seq<char>,
    pub video_settings: Seq<(Seq<char>, JsonModel)>,
    pub game_audio_id: Seq<char>,
    pub mic_audio_id: Seq<char>,
}

impl View for PlatformAnswers {
    type V = PlatformModel;

    open spec fn view(&self) -> PlatformModel {
        PlatformModel {
            catalog: entry_list(self.catalog@),
            ladder_encoder: opt_str(self.ladder_encoder),
            video_source_id: self.video_source_id@,
            video_settings: json_entries(self.video_settings@),
            game_audio_id: self.game_audio_id@,
            mic_audio_id: self.mic_audio_id@,
        }
    }
}

/// The OBS profile of one start.
pub struct ObsProfile {
    pub encoder_id: String,
    /// `h264`, `hevc` or `av1`.
    pub codec: String,
    /// The settings written for the encoder.
    pub encoder_settings: Vec<(String, Json)>,
    pub scale_type: String,
    /// 0: common values, 1: integer, 2: fractional.
    pub fps_type: u8,
    pub fps_common: String,
    pub fps_int: u32,
    pub fps_num: u32,
    pub fps_den: u32,
    pub color_format: String,
    pub color_space: String,
    pub color_range: String,
    pub gpu_index: u32,
    pub fps: u32,
    pub base_width: u32,
    pub base_height: u32,
    pub out_width: u32,
    pub out_height: u32,
    /// The output follows the size of the source.
    pub out_source: bool,
    pub bitrate_kbps: u32,
    pub replay_seconds: u32,
    pub replay_mb: u32,
    pub output_dir: String,
    pub container: String,
    pub desktop_device: String,
    pub mic_device: String,
    pub gain_game: u32,
    pub gain_mic: u32,
    pub mute_game: bool,
    pub mute_mic: bool,
    pub single_track: bool,
    pub video_source_id: String,
    pub game_audio_id: String,
    pub mic_audio_id: String,
    pub video_settings: Vec<(String, Json)>,
    pub websocket_port: u16,
    pub websocket_password: String,
}

/// The video part of a profile.
pub struct VideoTab {
    pub out_width: int,
    pub out_height: int,
    pub scale_type: Seq<char>,
    pub fps_type: int,
    pub fps_common: Seq<char>,
    pub fps_int: int,
    pub fps_num: int,
    pub fps_den: int,
    pub color_format: Seq<char>,
    pub color_space: Seq<char>,
    pub color_range: Seq<char>,
    pub fps: int,
}

/// What a profile stands for.
pub struct ProfileModel {
    pub encoder_id: Seq<char>,
    pub codec: Seq<char>,
    pub encoder_settings: Seq<(Seq<char>, JsonModel)>,
    pub video: VideoTab,
    pub gpu_index: nat,
    pub base_width: int,
    pub base_height: int,
    pub out_source: bool,
    pub bitrate_kbps: int,
    pub replay_seconds: int,
    pub replay_mb: int,
    pub output_dir: Seq<char>,
    pub container: Seq<char>,
    pub desktop_device: Seq<char>,
    pub mic_device: Seq<char>,
    pub gain_game: int,
    pub gain_mic: int,
    pub mute_game: bool,
    pub mute_mic: bool,
    pub single_track: bool,
    pub video_source_id: Seq<char>,
    pub game_audio_id: Seq<char>,
    pub mic_audio_id: Seq<char>,
    pub video_settings: Seq<(Seq<char>, JsonModel)>,
    pub websocket_port: nat,
    pub websocket_password: Seq<char>,
}

impl View for ObsProfile {
    type V = ProfileModel;

    open spec fn view(&self) -> ProfileModel {
        ProfileModel {
            encoder_id: self.encoder_id@,
            codec: self.codec@,
            encoder_settings: json_entries(self.encoder_settings@),
            video: VideoTab {
                out_width: self.out_width as int,
                out_height: self.out_height as int,
                scale_type: self.scale_type@,
                fps_type: self.fps_type as int,
                fps_common: self.fps_common@,
                fps_int: self.fps_int as int,
                fps_num: self.fps_num as int,
                fps_den: self.fps_den as int,
                color_format: self.color_format@,
                color_space: self.color_space@,
                color_range: self.color_range@,
                fps: self.fps as int,
            },
            gpu_index: self.gpu_index as nat,
            base_width: self.base_width as int,
            base_height: self.base_height as int,
            out_source: self.out_source,
            bitrate_kbps: self.bitrate_kbps as int,
            replay_seconds: self.replay_seconds as int,
            replay_mb: self.replay_mb as int,
            output_dir: self.output_dir@,
            container: self.container@,
            desktop_device: self.desktop_device@,
            mic_device: self.mic_device@,
            gain_game: self.gain_game as int,
            gain_mic: self.gain_mic as int,
            mute_game: self.mute_game,
            mute_mic: self.mute_mic,
            single_track: self.single_track,
            video_source_id: self.video_source_id@,
            game_audio_id: self.game_audio_id@,
            mic_audio_id: self.mic_audio_id@,
            video_settings: json_entries(self.video_settings@),
            websocket_port: self.websocket_port as nat,
            websocket_password: self.websocket_password@,
        }
    }
}

// ---------------------------------------------------------------------------
// Arithmetic
// ---------------------------------------------------------------------------
/// `v` brought into `low..=high`.
pub open spec fn clamped(v: int, low: int, high: int) -> int {
    if v < low {
        low
    } else if v > high {
        high
    } else {
        v
    }
}

/// `v` brought into `low..=high`.
pub fn clamp_u32(v: u32, low: u32, high: u32) -> (r: u32)
    requires
        low <= high,
    ensures
        r == clamped(v as int, low as int, high as int),
{
    if v < low {
        low
    } else if v > high {
        high
    } else {
        v
    }
}

/// The largest even number up to `v`, at least 2.
pub open spec fn even_of(v: int) -> int {
    let m = if v < 2 {
        2
    } else {
        v
    };
    m - m % 2
}

/// The largest even number up to `v`, at least 2.
pub fn even(v: u32) -> (r: u32)
    ensures
        r == even_of(v as int),
{
    let m: u32 = if v < 2 {
        2
    } else {
        v
    };
    m - m % 2
}

/// `n / d` rounded to the nearest whole number, halves to the even one.
pub open spec fn half_even(n: int, d: int) -> int {
    let q = n / d;
    let r = n % d;
    if 2 * r < d {
        q
    } else if 2 * r > d {
        q + 1
    } else {
        q + q % 2
    }
}

/// What the last of the 53 binary digits weighs that double precision keeps of
/// a whole number.
pub open spec fn last_digit(n: nat) -> nat
    decreases n,
{
    if n < 0x20_0000_0000_0000 {
        1
    } else {
        2 * last_digit(n / 2)
    }
}

/// A whole number in double precision.
pub open spec fn as_double(n: nat) -> int {
    half_even(n as int, last_digit(n) as int) * last_digit(n)
}

/// The power of two that brings `n / d` to 53 binary digits before the point,
/// where it has fewer.
pub open spec fn scale_up(n: nat, d: nat) -> nat
    decreases
        (if n < d * 0x10_0000_0000_0000 {
            d * 0x10_0000_0000_0000 - n
        } else {
            0
        }),
{
    if n == 0 || n >= d * 0x10_0000_0000_0000 {
        1
    } else {
        2 * scale_up(2 * n, d)
    }
}

/// `n / d` in double precision, rounded to a whole number, halves up. Quotients
/// that double precision cannot tell from their neighbors stay whole.
pub open spec fn double_quotient(n: nat, d: nat) -> int {
    let s = scale_up(n, d);
    let m = half_even((n * s) as int, d as int);
    (2 * m + s) / (2 * s as int)
}

/// The even width that keeps the aspect of the base at the output height, cut
/// to 32 bits' range. A base without extent counts as 1920 wide. Product and
/// quotient are those of double precision.
pub open spec fn width_for(base_w: int, base_h: int, out_h: int) -> int {
    if base_h == 0 || base_w == 0 {
        1920
    } else {
        let product = as_double((base_w * out_h) as nat);
        even_of(
            clamped(double_quotient(product as nat, base_h as nat), 0, u32::MAX as int),
        )
    }
}

fn halved_even(n: u128, d: u128) -> (r: u128)
    requires
        0 < d <= 0x1_0000_0000_0000_0000,
        n <= 0x40_0000_0000_0000_0000_0000,
    ensures
        r == half_even(n as int, d as int),
        r <= n + 1,
{
    let q: u128 = n / d;
    let rest: u128 = n % d;
    proof {
        assert(n / d <= n) by (nonlinear_arith)
            requires
                d > 0,
                n >= 0,
        ;
    }
    if 2 * rest < d {
        q
    } else if 2 * rest > d {
        q + 1
    } else {
        q + q % 2
    }
}

/// Rounding is off by no more than one half.
pub proof fn lemma_half_even(n: int, d: int)
    requires
        n >= 0,
        d > 0,
    ensures
        half_even(n, d) >= 0,
        -d <= 2 * (half_even(n, d) * d) - 2 * n <= d,
{
    let q = n / d;
    let r = n % d;
    vstd::arithmetic::div_mod::lemma_fundamental_div_mod(n, d);
    vstd::arithmetic::div_mod::lemma_div_pos_is_pos(n, d);
    assert(d * q == q * d) by (nonlinear_arith);
    assert((q + 1) * d == q * d + d) by (nonlinear_arith);
}

/// The last digit that is kept weighs no more than its share of 53.
pub proof fn lemma_last_digit(n: nat)
    ensures
        last_digit(n) == 1 || last_digit(n) * 0x10_0000_0000_0000 <= n,
        1 <= last_digit(n) <= n + 1,
    decreases n,
{
    if n >= 0x20_0000_0000_0000 {
        lemma_last_digit(n / 2);
    }
}

fn doubled(n: u128) -> (r: u128)
    requires
        n <= 0x1_0000_0000_0000_0000,
    ensures
        r == as_double(n as nat),
        r <= 0x2_0000_0000_0000_0001,
{
    let mut unit: u128 = 1;
    let mut rest: u128 = n;
    while rest >= 0x20_0000_0000_0000
        invariant
            n <= 0x1_0000_0000_0000_0000,
            rest <= n,
            1 <= unit,
            unit * rest <= n,
            last_digit(n as nat) == unit * last_digit(rest as nat),
        decreases rest,
    {
        let ghost before = (unit as int, rest as int);
        proof {
            assert(unit <= n) by (nonlinear_arith)
                requires
                    unit * rest <= n,
                    rest >= 1,
                    unit >= 1,
            ;
            assert(2 * unit * (rest / 2) <= unit * rest) by (nonlinear_arith)
                requires
                    2 * (rest / 2) <= rest,
                    unit >= 1,
            ;
            let half = last_digit((rest / 2) as nat) as int;
            assert(unit * (2 * half) == (2 * unit) * half) by (nonlinear_arith);
        }
        rest = rest / 2;
        unit = 2 * unit;
    }
    proof {
        lemma_last_digit(n as nat);
        assert(unit * 1 == unit) by (nonlinear_arith);
        lemma_half_even(n as int, unit as int);
    }
    let kept: u128 = halved_even(n, unit);
    proof {
        assert(0 <= kept * unit);
    }
    kept * unit
}

fn double_ratio(n: u128, d: u128) -> (r: u128)
    requires
        0 < d <= 0xffff_ffff,
        n <= 0x2_0000_0000_0000_0001,
    ensures
        r == double_quotient(n as nat, d as nat),
{
    let mut s: u128 = 1;
    let mut m: u128 = n;
    let limit: u128 = d * 0x10_0000_0000_0000;
    while m != 0 && m < limit
        invariant
            0 < d <= 0xffff_ffff,
            n <= 0x2_0000_0000_0000_0001,
            limit == d * 0x10_0000_0000_0000,
            m == n * s,
            1 <= s,
            s <= 0x20_0000_0000_0000_0000_0000,
            m <= 0x20_0000_0000_0000_0000_0000,
            s == 1 || s <= m,
            scale_up(n as nat, d as nat) == s * scale_up(m as nat, d as nat),
        decreases
            (if m < limit {
                limit - m
            } else {
                0
            }),
    {
        proof {
            assert(n >= 1) by (nonlinear_arith)
                requires
                    m == n * s,
                    m != 0,
                    n >= 0,
            ;
            assert(s <= n * s) by (nonlinear_arith)
                requires
                    n >= 1,
                    s >= 1,
            ;
            assert(n * (2 * s) == 2 * (n * s)) by (nonlinear_arith);
            let next = scale_up((2 * m) as nat, d as nat) as int;
            assert(s * (2 * next) == (2 * s) * next) by (nonlinear_arith);
        }
        m = 2 * m;
        s = 2 * s;
    }
    proof {
        assert(s * 1 == s) by (nonlinear_arith);
    }
    let kept: u128 = halved_even(m, d);
    (2 * kept + s) / (2 * s)
}

/// Width for the requested output height, in the aspect of the base.
pub fn scaled_width(base_w: u32, base_h: u32, out_h: u32) -> (r: u32)
    ensures
        r == width_for(base_w as int, base_h as int, out_h as int),
{
    if base_h == 0 || base_w == 0 {
        return 1920;
    }
    proof {
        assert(0 <= base_w * out_h <= 0xffff_ffff * 0xffff_ffff) by (nonlinear_arith)
            requires
                0 <= base_w <= 0xffff_ffff,
                0 <= out_h <= 0xffff_ffff,
        ;
    }
    let product: u128 = doubled(base_w as u128 * out_h as u128);
    let q: u128 = double_ratio(product, base_h as u128);
    let w: u32 = if q > 0xffff_ffff {
        0xffff_ffff
    } else {
        q as u32
    };
    even(w)
}

/// The megabytes of a replay of `seconds` at a bitrate: what the stream takes,
/// half as much again and 64 more, within 128 and 16384.
pub open spec fn ring_size(bitrate_kbps: int, seconds: int) -> int {
    let raw = bitrate_kbps * seconds / 8 / 1024;
    clamped(raw + raw / 2 + 64, 128, 16384)
}

/// Replay buffer size in megabytes for a bitrate, with headroom.
pub fn replay_mb(bitrate_kbps: u32, seconds: u32) -> (r: u32)
    ensures
        r == ring_size(bitrate_kbps as int, seconds as int),
{
    proof {
        assert(0 <= bitrate_kbps * seconds <= 0xffff_ffff * 0xffff_ffff) by (nonlinear_arith)
            requires
                0 <= bitrate_kbps <= 0xffff_ffff,
                0 <= seconds <= 0xffff_ffff,
        ;
    }
    let raw: u64 = bitrate_kbps as u64 * seconds as u64 / 8 / 1024;
    let with_margin: u64 = raw + raw / 2 + 64;
    if with_margin < 128 {
        128
    } else if with_margin > 16384 {
        16384
    } else {
        with_margin as u32
    }
}

// ---------------------------------------------------------------------------
// Devices
// ---------------------------------------------------------------------------
/// The device id that OBS takes for a stored one: blank and the stored name of
/// the default device of the given direction are `default`.
pub open spec fn device_id(stored: Seq<char>, render: bool) -> Seq<char> {
    let t = trim(stored);
    if t.len() == 0 || t == "default"@ || (render && t == "default_output"@) || (!render && t
        == "default_input"@) {
        "default"@
    } else {
        t
    }
}

/// Device id that OBS takes for a stored one.
pub fn normalize_device_id(stored: &str, render: bool) -> (r: String)
    ensures
        r@ == device_id(stored@, render),
{
    let t = trimmed(stored);
    if t.as_str().is_empty() || same(t.as_str(), "default") || (render && same(
        t.as_str(),
        "default_output",
    )) || (!render && same(t.as_str(), "default_input")) {
        "default".to_owned()
    } else {
        t
    }
}

// ---------------------------------------------------------------------------
// Profile
// ---------------------------------------------------------------------------
/// The encoder id and codec of a profile.
pub struct EncoderPick {
    pub id: Seq<char>,
    pub codec: Seq<char>,
}

/// The encoder of a configuration: the custom one, which the platform's build
/// must have, or the one that the platform's ladder picks.
pub open spec fn encoder_pick(cfg: ConfigModel, platform: PlatformModel) -> Result<
    EncoderPick,
    Seq<char>,
> {
    match cfg.custom_encoder {
        Some(custom) => match find_entry(platform.catalog, custom.encoder) {
            Some(entry) => Ok(EncoderPick { id: entry.id, codec: entry.codec }),
            None => Err("encoder '"@ + custom.encoder + "' not in this OBS build"@),
        },
        None => if cfg.codec == "h264"@ || cfg.codec == "hevc"@ || cfg.codec == "av1"@ {
            match platform.ladder_encoder {
                Some(id) => Ok(EncoderPick { id, codec: cfg.codec }),
                None => Err(
                    ("no OBS encoder for codec '"@ + cfg.codec + "' / '"@ + cfg.encoder + "' on '"@)
                        + cfg.vendor + "'"@,
                ),
            }
        } else {
            Err("unsupported codec '"@ + cfg.codec + "'"@)
        },
    }
}

/// The custom video settings of a configuration, checked.
pub open spec fn checked_video(cfg: ConfigModel, family: EncoderFamily, codec: Seq<char>) -> Result<
    Option<CustomVideoModel>,
    Seq<char>,
> {
    match cfg.custom_video {
        None => Ok(None),
        Some(v) => match custom_video_of(family, codec, video_doc(v)) {
            Ok(v) => Ok(Some(v)),
            Err(e) => Err(e),
        },
    }
}

/// The color format of optional video settings.
pub open spec fn color_of(video: Option<CustomVideoModel>) -> Option<Seq<char>> {
    match video {
        Some(v) => Some(v.color_format),
        None => None,
    }
}

/// The encoder settings of a configuration: the custom ones, checked against
/// the video settings, or the ladder's.
pub open spec fn checked_settings(
    cfg: ConfigModel,
    family: EncoderFamily,
    pick: EncoderPick,
    video: Option<CustomVideoModel>,
) -> Result<Seq<(Seq<char>, JsonModel)>, Seq<char>> {
    match cfg.custom_encoder {
        Some(custom) => match settings_error(
            resolved_table(family, pick.codec),
            pick.codec,
            custom.settings,
            color_of(video),
        ) {
            Some(e) => Err(e),
            None => Ok(custom.settings),
        },
        None => match ladder_settings(
            pick.id,
            clamped(cfg.bitrate_kbps as int, 1_000, 200_000) as nat,
            cfg.gpu_index,
            pick.codec,
        ) {
            Some(settings) => Ok(settings),
            None => Err("no recipe for encoder '"@ + pick.id + "'"@),
        },
    }
}

/// The bitrate that sizes the replay: the one among the settings, or else the
/// configured one.
pub open spec fn replay_bitrate(cfg: ConfigModel, settings: Seq<(Seq<char>, JsonModel)>) -> int {
    let chosen = match entry_of(settings, "bitrate"@) {
        Some(v) => v.as_u64(),
        None => None,
    };
    match chosen {
        Some(b) => clamped(b % 0x1_0000_0000, 1_000, 200_000),
        None => clamped(cfg.bitrate_kbps as int, 1_000, 200_000),
    }
}

/// Output follows the source: no custom video, and no height below the base.
pub open spec fn follows_source(cfg: ConfigModel) -> bool {
    cfg.custom_video is None && (cfg.out_height == 0 || cfg.out_height >= even_of(
        cfg.base_height as int,
    ))
}

/// The video part of a profile: the checked custom settings, or the ladder's.
pub open spec fn video_tab(cfg: ConfigModel, video: Option<CustomVideoModel>) -> VideoTab {
    let base_w = even_of(cfg.base_width as int);
    let base_h = even_of(cfg.base_height as int);
    match video {
        Some(v) => VideoTab {
            out_width: v.out_width,
            out_height: v.out_height,
            scale_type: v.scale_type,
            fps_type: if v.fps_type == "integer"@ {
                1
            } else if v.fps_type == "fractional"@ {
                2
            } else {
                0
            },
            fps_common: decimal(v.fps_common as nat),
            fps_int: v.fps_int,
            fps_num: v.fps_num,
            fps_den: v.fps_den,
            color_format: v.color_format,
            color_space: v.color_space,
            color_range: v.color_range,
            fps: effective_fps(v),
        },
        None => {
            let scaled = !(cfg.out_height == 0 || cfg.out_height >= base_h);
            let h = if scaled {
                even_of(cfg.out_height as int)
            } else {
                base_h
            };
            let fps = clamped(cfg.fps as int, 1, 360);
            VideoTab {
                out_width: if scaled {
                    width_for(base_w, base_h, h)
                } else {
                    base_w
                },
                out_height: h,
                scale_type: "bicubic"@,
                fps_type: 0,
                fps_common: decimal(fps as nat),
                fps_int: 60,
                fps_num: 60,
                fps_den: 1,
                color_format: "NV12"@,
                color_space: "709"@,
                color_range: "Partial"@,
                fps,
            }
        },
    }
}

/// The capture source's settings with a restore token, where one is kept.
pub open spec fn with_token(settings: Seq<(Seq<char>, JsonModel)>, token: Seq<char>) -> Seq<
    (Seq<char>, JsonModel),
> {
    if trim(token).len() > 0 {
        settings.push(("RestoreToken"@, JsonModel::Str(token)))
    } else {
        settings
    }
}

/// The profile of a configuration on a platform, or the first thing that
/// stands in its way.
pub open spec fn profile_of(cfg: ConfigModel, platform: PlatformModel) -> Result<
    ProfileModel,
    Seq<char>,
> {
    match encoder_pick(cfg, platform) {
        Err(e) => Err(e),
        Ok(pick) => match encoder_family(pick.id) {
            None => Err("unknown encoder '"@ + pick.id + "'"@),
            Some(family) => match checked_video(cfg, family, pick.codec) {
                Err(e) => Err(e),
                Ok(video) => match checked_settings(cfg, family, pick, video) {
                    Err(e) => Err(e),
                    Ok(settings) => {
                        let bitrate = replay_bitrate(cfg, settings);
                        let seconds = clamped(cfg.duration_seconds as int, 1, 3600);
                        Ok(
                            ProfileModel {
                                encoder_id: pick.id,
                                codec: pick.codec,
                                encoder_settings: settings,
                                video: video_tab(cfg, video),
                                gpu_index: cfg.gpu_index,
                                base_width: even_of(cfg.base_width as int),
                                base_height: even_of(cfg.base_height as int),
                                out_source: follows_source(cfg),
                                bitrate_kbps: bitrate,
                                replay_seconds: seconds,
                                replay_mb: ring_size(bitrate, seconds),
                                output_dir: cfg.output_dir,
                                container: if cfg.container == "mkv"@ {
                                    "mkv"@
                                } else {
                                    "mp4"@
                                },
                                desktop_device: device_id(cfg.desktop_device, true),
                                mic_device: device_id(cfg.mic_device, false),
                                gain_game: clamped(cfg.gain_game as int, 0, 200),
                                gain_mic: clamped(cfg.gain_mic as int, 0, 200),
                                mute_game: cfg.mute_game,
                                mute_mic: cfg.mute_mic,
                                single_track: cfg.audio_single_track,
                                video_source_id: platform.video_source_id,
                                game_audio_id: platform.game_audio_id,
                                mic_audio_id: platform.mic_audio_id,
                                video_settings: with_token(
                                    platform.video_settings,
                                    cfg.portal_restore_token,
                                ),
                                websocket_port: cfg.websocket_port,
                                websocket_password: cfg.websocket_password,
                            },
                        )
                    },
                },
            },
        },
    }
}

/// Audio tracks as the bit mask that OBS takes: mix alone, or all three.
pub open spec fn recorded_tracks(single_track: bool) -> nat {
    if single_track {
        1
    } else {
        7
    }
}

/// Number of audio tracks.
pub open spec fn linked_tracks(single_track: bool) -> nat {
    if single_track {
        1
    } else {
        3
    }
}

/// What the outcome of building a profile stands for.
pub open spec fn profile_outcome(r: Result<ObsProfile, String>) -> Result<ProfileModel, Seq<char>> {
    match r {
        Ok(p) => Ok(p@),
        Err(e) => Err(e@),
    }
}

/// Picks the encoder id and codec.
fn pick_encoder(cfg: &CaptureConfig, platform: &PlatformAnswers) -> (r: Result<
    (String, String),
    String,
>)
    ensures
        match r {
            Ok(p) => encoder_pick(cfg@, platform@) == Ok::<EncoderPick, Seq<char>>(
                EncoderPick { id: p.0@, codec: p.1@ },
            ),
            Err(e) => encoder_pick(cfg@, platform@) == Err::<EncoderPick, Seq<char>>(e@),
        },
{
    match &cfg.custom_encoder {
        Some(custom) => match find_in(&platform.catalog, custom.encoder.as_str()) {
            Some(entry) => Ok((entry.id.to_owned(), entry.codec.to_owned())),
            None => Err(
                cat3("encoder '", custom.encoder.as_str(), "' not in this OBS build"),
            ),
        },
        None => {
            let codec = cfg.codec.as_str();
            if !(same(codec, "h264") || same(codec, "hevc") || same(codec, "av1")) {
                return Err(cat3("unsupported codec '", codec, "'"));
            }
            match platform.ladder_encoder {
                Some(id) => Ok((id.to_owned(), cfg.codec.clone())),
                None => {
                    let head = cat5(
                        "no OBS encoder for codec '",
                        codec,
                        "' / '",
                        cfg.encoder.as_str(),
                        "' on '",
                    );
                    Err(cat3(head.as_str(), cfg.vendor.as_str(), "'"))
                },
            }
        },
    }
}

/// Builds the video part from checked custom settings or the ladder.
struct VideoPart {
    out_width: u32,
    out_height: u32,
    scale_type: String,
    fps_type: u8,
    fps_common: String,
    fps_int: u32,
    fps_num: u32,
    fps_den: u32,
    color_format: String,
    color_space: String,
    color_range: String,
    fps: u32,
}

impl VideoPart {
    spec fn tab(&self) -> VideoTab {
        VideoTab {
            out_width: self.out_width as int,
            out_height: self.out_height as int,
            scale_type: self.scale_type@,
            fps_type: self.fps_type as int,
            fps_common: self.fps_common@,
            fps_int: self.fps_int as int,
            fps_num: self.fps_num as int,
            fps_den: self.fps_den as int,
            color_format: self.color_format@,
            color_space: self.color_space@,
            color_range: self.color_range@,
            fps: self.fps as int,
        }
    }
}

fn video_part(cfg: &CaptureConfig, base_w: u32, base_h: u32, video: Option<CustomVideo>) -> (r:
    VideoPart)
    requires
        base_w == even_of(cfg.base_width as int),
        base_h == even_of(cfg.base_height as int),
    ensures
        r.tab() == video_tab(cfg@, opt_video(video)),
{
    match video {
        Some(v) => {
            let fps: u32 = custom_effective_fps(&v);
            let fps_type: u8 = if same(v.fps_type.as_str(), "integer") {
                1
            } else if same(v.fps_type.as_str(), "fractional") {
                2
            } else {
                0
            };
            VideoPart {
                out_width: v.out_width,
                out_height: v.out_height,
                scale_type: v.scale_type,
                fps_type,
                fps_common: decimal_of(v.fps_common as u64),
                fps_int: v.fps_int,
                fps_num: v.fps_num,
                fps_den: v.fps_den,
                color_format: v.color_format,
                color_space: v.color_space,
                color_range: v.color_range,
                fps,
            }
        },
        None => {
            let scaled = !(cfg.out_height == 0 || cfg.out_height >= base_h);
            let out_height: u32 = if scaled {
                even(cfg.out_height)
            } else {
                base_h
            };
            let out_width: u32 = if scaled {
                scaled_width(base_w, base_h, out_height)
            } else {
                base_w
            };
            let fps: u32 = clamp_u32(cfg.fps, 1, 360);
            VideoPart {
                out_width,
                out_height,
                scale_type: "bicubic".to_owned(),
                fps_type: 0,
                fps_common: decimal_of(fps as u64),
                fps_int: 60,
                fps_num: 60,
                fps_den: 1,
                color_format: "NV12".to_owned(),
                color_space: "709".to_owned(),
                color_range: "Partial".to_owned(),
                fps,
            }
        },
    }
}

/// Builds the encoder settings.
fn pick_settings(
    cfg: &CaptureConfig,
    family: EncoderFamily,
    id: &str,
    codec: &str,
    video: &Option<CustomVideo>,
) -> (r: Result<Vec<(String, Json)>, String>)
    ensures
        match r {
            Ok(s) => checked_settings(
                cfg@,
                family,
                EncoderPick { id: id@, codec: codec@ },
                opt_video(*video),
            ) == Ok::<Seq<(Seq<char>, JsonModel)>, Seq<char>>(json_entries(s@)),
            Err(e) => checked_settings(
                cfg@,
                family,
                EncoderPick { id: id@, codec: codec@ },
                opt_video(*video),
            ) == Err::<Seq<(Seq<char>, JsonModel)>, Seq<char>>(e@),
        },
        r matches Ok(s) ==> entries_writable(s@),
{
    match &cfg.custom_encoder {
        Some(custom) => {
            let color = match video {
                Some(v) => Some(v.color_format.as_str()),
                None => None,
            };
            validate_pair(family, codec, &custom.settings, color)
        },
        None => {
            let bitrate: u32 = clamp_u32(cfg.bitrate_kbps, 1_000, 200_000);
            match ladder_recipe(id, bitrate, cfg.gpu_index, codec) {
                Some(s) => Ok(s),
                None => Err(cat3("no recipe for encoder '", id, "'")),
            }
        },
    }
}

/// Finds the bitrate that sizes the replay.
fn pick_bitrate(cfg: &CaptureConfig, settings: &Vec<(String, Json)>) -> (r: u32)
    ensures
        r == replay_bitrate(cfg@, json_entries(settings@)),
{
    let chosen: Option<u64> = match entry_value(settings, "bitrate") {
        Some(v) => v.as_u64(),
        None => None,
    };
    match chosen {
        Some(b) => clamp_u32((b % 0x1_0000_0000) as u32, 1_000, 200_000),
        None => clamp_u32(cfg.bitrate_kbps, 1_000, 200_000),
    }
}

impl ObsProfile {
    /// The profile of a configuration, given the platform's answers for it.
    pub fn from_config(cfg: &CaptureConfig, platform: &PlatformAnswers) -> (r: Result<Self, String>)
        ensures
            profile_outcome(r) == profile_of(cfg@, platform@),
            r matches Ok(p) ==> entries_writable(p.encoder_settings@),
            r matches Ok(p) ==> (entries_writable(platform.video_settings@) ==> entries_writable(
                p.video_settings@,
            )),
    {
        let base_w: u32 = even(cfg.base_width);
        let base_h: u32 = even(cfg.base_height);
        let (encoder_id, codec) = match pick_encoder(cfg, platform) {
            Ok(p) => p,
            Err(e) => {
                return Err(e);
            },
        };
        let family = match family_of(encoder_id.as_str()) {
            Some(f) => f,
            None => {
                return Err(cat3("unknown encoder '", encoder_id.as_str(), "'"));
            },
        };
        let video: Option<CustomVideo> = match &cfg.custom_video {
            Some(v) => match check_custom_video(family, codec.as_str(), v) {
                Ok(v) => Some(v),
                Err(e) => {
                    return Err(e);
                },
            },
            None => None,
        };
        let encoder_settings = match pick_settings(
            cfg,
            family,
            encoder_id.as_str(),
            codec.as_str(),
            &video,
        ) {
            Ok(s) => s,
            Err(e) => {
                return Err(e);
            },
        };
        let bitrate: u32 = pick_bitrate(cfg, &encoder_settings);
        let seconds: u32 = clamp_u32(cfg.duration_seconds, 1, 3600);
        let out_source = cfg.custom_video.is_none() && (cfg.out_height == 0 || cfg.out_height
            >= base_h);
        let part = video_part(cfg, base_w, base_h, video);
        let mut video_settings = copy_entries(&platform.video_settings);
        if !trimmed(cfg.portal_restore_token.as_str()).as_str().is_empty() {
            let ghost before = video_settings@;
            video_settings.push(
                ("RestoreToken".to_owned(), Json::Str(cfg.portal_restore_token.clone())),
            );
            proof {
                assert(json_entries(video_settings@) =~= json_entries(before).push(
                    ("RestoreToken"@, JsonModel::Str(cfg.portal_restore_token@)),
                ));
            }
        }
        let container = if same(cfg.container.as_str(), "mkv") {
            "mkv"
        } else {
            "mp4"
        };
        Ok(
            ObsProfile {
                encoder_id,
                codec,
                encoder_settings,
                scale_type: part.scale_type,
                fps_type: part.fps_type,
                fps_common: part.fps_common,
                fps_int: part.fps_int,
                fps_num: part.fps_num,
                fps_den: part.fps_den,
                color_format: part.color_format,
                color_space: part.color_space,
                color_range: part.color_range,
                gpu_index: cfg.gpu_index,
                fps: part.fps,
                base_width: base_w,
                base_height: base_h,
                out_width: part.out_width,
                out_height: part.out_height,
                out_source,
                bitrate_kbps: bitrate,
                replay_seconds: seconds,
                replay_mb: replay_mb(bitrate, seconds),
                output_dir: cfg.output_dir.clone(),
                container: container.to_owned(),
                desktop_device: normalize_device_id(cfg.desktop_device.as_str(), true),
                mic_device: normalize_device_id(cfg.mic_device.as_str(), false),
                gain_game: clamp_u32(cfg.gain_game, 0, 200),
                gain_mic: clamp_u32(cfg.gain_mic, 0, 200),
                mute_game: cfg.mute_game,
                mute_mic: cfg.mute_mic,
                single_track: cfg.audio_single_track,
                video_source_id: platform.video_source_id.to_owned(),
                game_audio_id: platform.game_audio_id.to_owned(),
                mic_audio_id: platform.mic_audio_id.to_owned(),
                video_settings,
                websocket_port: cfg.websocket_port,
                websocket_password: cfg.websocket_password.clone(),
            },
        )
    }

    /// The same profile.
    pub fn copy(&self) -> (r: ObsProfile)
        ensures
            r@ == self@,
            entries_writable(self.video_settings@) ==> entries_writable(r.video_settings@),
            entries_writable(self.encoder_settings@) ==> entries_writable(r.encoder_settings@),
    {
        ObsProfile {
            encoder_id: self.encoder_id.clone(),
            codec: self.codec.clone(),
            encoder_settings: copy_entries(&self.encoder_settings),
            scale_type: self.scale_type.clone(),
            fps_type: self.fps_type,
            fps_common: self.fps_common.clone(),
            fps_int: self.fps_int,
            fps_num: self.fps_num,
            fps_den: self.fps_den,
            color_format: self.color_format.clone(),
            color_space: self.color_space.clone(),
            color_range: self.color_range.clone(),
            gpu_index: self.gpu_index,
            fps: self.fps,
            base_width: self.base_width,
            base_height: self.base_height,
            out_width: self.out_width,
            out_height: self.out_height,
            out_source: self.out_source,
            bitrate_kbps: self.bitrate_kbps,
            replay_seconds: self.replay_seconds,
            replay_mb: self.replay_mb,
            output_dir: self.output_dir.clone(),
            container: self.container.clone(),
            desktop_device: self.desktop_device.clone(),
            mic_device: self.mic_device.clone(),
            gain_game: self.gain_game,
            gain_mic: self.gain_mic,
            mute_game: self.mute_game,
            mute_mic: self.mute_mic,
            single_track: self.single_track,
            video_source_id: self.video_source_id.clone(),
            game_audio_id: self.game_audio_id.clone(),
            mic_audio_id: self.mic_audio_id.clone(),
            video_settings: copy_entries(&self.video_settings),
            websocket_port: self.websocket_port,
            websocket_password: self.websocket_password.clone(),
        }
    }

    /// Audio tracks as the bit mask that OBS takes: mix alone, or all three.
    pub fn rec_tracks(&self) -> (r: u32)
        ensures
            r == recorded_tracks(self.single_track),
    {
        if self.single_track {
            1
        } else {
            7
        }
    }

    /// Number of audio tracks.
    pub fn tracks_linked(&self) -> (r: usize)
        ensures
            r == linked_tracks(self.single_track),
    {
        if self.single_track {
            1
        } else {
            3
        }
    }
}

} // verus!
