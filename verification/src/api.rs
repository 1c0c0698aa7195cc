//! The capture contract between the settings, the engine and the platform.

use vstd::prelude::*;

use crate::json::{json_entries, Json, JsonModel};
use crate::text::opt_text;

verus! {

/// Custom encoder selection: an exact OBS encoder id of the pinned catalogs
/// and the settings chosen for it.
pub struct CustomEncoder {
    pub encoder: String,
    pub settings: Vec<(String, Json)>,
}

/// What a custom encoder selection stands for.
pub struct CustomEncoderModel {
    pub encoder: Seq<char>,
    pub settings: Seq<(Seq<char>, JsonModel)>,
}

impl View for CustomEncoder {
    type V = CustomEncoderModel;

    open spec fn view(&self) -> CustomEncoderModel {
        CustomEncoderModel { encoder: self.encoder@, settings: json_entries(self.settings@) }
    }
}

/// Custom video settings. `fps_type` is `common`, `integer` or `fractional`.
#[derive(Debug, Clone)]
pub struct CustomVideo {
    pub out_width: u32,
    pub out_height: u32,
    pub scale_type: String,
    pub fps_type: String,
    pub fps_common: u32,
    pub fps_int: u32,
    pub fps_num: u32,
    pub fps_den: u32,
    pub color_format: String,
    pub color_space: String,
    pub color_range: String,
}

/// What custom video settings stand for.
pub struct CustomVideoModel {
    pub out_width: int,
    pub out_height: int,
    pub scale_type: Seq<char>,
    pub fps_type: Seq<char>,
    pub fps_common: int,
    pub fps_int: int,
    pub fps_num: int,
    pub fps_den: int,
    pub color_format: Seq<char>,
    pub color_space: Seq<char>,
    pub color_range: Seq<char>,
}

impl View for CustomVideo {
    type V = CustomVideoModel;

    open spec fn view(&self) -> CustomVideoModel {
        CustomVideoModel {
            out_width: self.out_width as int,
            out_height: self.out_height as int,
            scale_type: self.scale_type@,
            fps_type: self.fps_type@,
            fps_common: self.fps_common as int,
            fps_int: self.fps_int as int,
            fps_num: self.fps_num as int,
            fps_den: self.fps_den as int,
            color_format: self.color_format@,
            color_space: self.color_space@,
            color_range: self.color_range@,
        }
    }
}

/// What an optional custom encoder stands for.
pub open spec fn opt_encoder(e: Option<CustomEncoder>) -> Option<CustomEncoderModel> {
    match e {
        Some(e) => Some(e@),
        None => None,
    }
}

/// What optional custom video settings stand for.
pub open spec fn opt_video(v: Option<CustomVideo>) -> Option<CustomVideoModel> {
    match v {
        Some(v) => Some(v@),
        None => None,
    }
}

impl CustomVideo {
    /// The same settings.
    pub fn copy(&self) -> (r: CustomVideo)
        ensures
            r@ == self@,
    {
        CustomVideo {
            out_width: self.out_width,
            out_height: self.out_height,
            scale_type: self.scale_type.clone(),
            fps_type: self.fps_type.clone(),
            fps_common: self.fps_common,
            fps_int: self.fps_int,
            fps_num: self.fps_num,
            fps_den: self.fps_den,
            color_format: self.color_format.clone(),
            color_space: self.color_space.clone(),
            color_range: self.color_range.clone(),
        }
    }
}

/// Everything the engine needs to know to start the replay buffer.
pub struct CaptureConfig {
    pub duration_seconds: u32,
    pub fps: u32,
    pub output_dir: String,
    /// `h264`, `hevc` or `av1`.
    pub codec: String,
    /// `gpu` (hardware) or `cpu` (software x264).
    pub encoder: String,
    /// GPU index for hardware encoders (0: OBS chooses).
    pub gpu_index: u32,
    /// Bitrate of the replay buffer.
    pub bitrate_kbps: u32,
    /// Delivered height (0: that of the source).
    pub out_height: u32,
    /// Monitor selector. Empty: primary or portal.
    pub monitor: String,
    /// Window capture target. Empty: monitor capture.
    pub window: String,
    /// X11 match of a window that is captured without a portal dialog.
    pub window_match: Option<String>,
    /// Game and desktop audio device.
    pub desktop_device: String,
    /// Microphone device.
    pub mic_device: String,
    /// Gain of the game track in percent, 0-200.
    pub gain_game: u32,
    /// Gain of the microphone track in percent, 0-200.
    pub gain_mic: u32,
    pub mute_game: bool,
    pub mute_mic: bool,
    /// Record only the mix track.
    pub audio_single_track: bool,
    /// `mp4` or `mkv`.
    pub container: String,
    /// `nvidia`, `amd`, `intel` or `unknown`.
    pub vendor: String,
    /// Resolution of the capture source.
    pub base_width: u32,
    pub base_height: u32,
    /// Portal token that restores the screen session without a dialog.
    pub portal_restore_token: String,
    /// Custom encoder (`None`: the ladder's recipe).
    pub custom_encoder: Option<CustomEncoder>,
    /// Custom video settings (`None`: the ladder's).
    pub custom_video: Option<CustomVideo>,
    /// The OBS binary, where already found.
    pub obs_bin: Option<String>,
    pub websocket_port: u16,
    pub websocket_password: String,
}

/// What a capture configuration stands for.
pub struct ConfigModel {
    pub duration_seconds: nat,
    pub fps: nat,
    pub output_dir: Seq<char>,
    pub codec: Seq<char>,
    pub encoder: Seq<char>,
    pub gpu_index: nat,
    pub bitrate_kbps: nat,
    pub out_height: nat,
    pub monitor: Seq<char>,
    pub window: Seq<char>,
    pub window_match: Option<Seq<char>>,
    pub desktop_device: Seq<char>,
    pub mic_device: Seq<char>,
    pub gain_game: nat,
    pub gain_mic: nat,
    pub mute_game: bool,
    pub mute_mic: bool,
    pub audio_single_track: bool,
    pub container: Seq<char>,
    pub vendor: Seq<char>,
    pub base_width: nat,
    pub base_height: nat,
    pub portal_restore_token: Seq<char>,
    pub custom_encoder: Option<CustomEncoderModel>,
    pub custom_video: Option<CustomVideoModel>,
    pub obs_bin: Option<Seq<char>>,
    pub websocket_port: nat,
    pub websocket_password: Seq<char>,
}

impl View for CaptureConfig {
    type V = ConfigModel;

    open spec fn view(&self) -> ConfigModel {
        ConfigModel {
            duration_seconds: self.duration_seconds as nat,
            fps: self.fps as nat,
            output_dir: self.output_dir@,
            codec: self.codec@,
            encoder: self.encoder@,
            gpu_index: self.gpu_index as nat,
            bitrate_kbps: self.bitrate_kbps as nat,
            out_height: self.out_height as nat,
            monitor: self.monitor@,
            window: self.window@,
            window_match: opt_text(self.window_match),
            desktop_device: self.desktop_device@,
            mic_device: self.mic_device@,
            gain_game: self.gain_game as nat,
            gain_mic: self.gain_mic as nat,
            mute_game: self.mute_game,
            mute_mic: self.mute_mic,
            audio_single_track: self.audio_single_track,
            container: self.container@,
            vendor: self.vendor@,
            base_width: self.base_width as nat,
            base_height: self.base_height as nat,
            portal_restore_token: self.portal_restore_token@,
            custom_encoder: opt_encoder(self.custom_encoder),
            custom_video: opt_video(self.custom_video),
            obs_bin: opt_text(self.obs_bin),
            websocket_port: self.websocket_port as nat,
            websocket_password: self.websocket_password@,
        }
    }
}

/// One capture device of the system.
#[derive(Debug, Clone)]
pub struct AudioDevice {
    pub id: String,
    pub description: String,
    /// `mic` or `desktop`.
    pub kind: String,
}

/// What a capture device stands for.
pub struct DeviceModel {
    pub id: Seq<char>,
    pub description: Seq<char>,
    pub kind: Seq<char>,
}

impl View for AudioDevice {
    type V = DeviceModel;

    open spec fn view(&self) -> DeviceModel {
        DeviceModel { id: self.id@, description: self.description@, kind: self.kind@ }
    }
}

/// What a list of capture devices stands for.
pub open spec fn device_models(v: Seq<AudioDevice>) -> Seq<DeviceModel> {
    v.map_values(|d: AudioDevice| d@)
}

} // verus!
