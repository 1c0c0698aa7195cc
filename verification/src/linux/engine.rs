//! The embedded OBS on Linux.
//!
//! OBS is launched with `XDG_CONFIG_HOME` below MoonClip's data directory, so
//! that it writes its whole tree there and the user's own OBS is neither read
//! nor written. The capture source is the portal's screen or window capture.

use vstd::prelude::*;
use vstd::slice::slice_to_vec;
use vstd::utf8::encode_utf8;

use crate::api::{CaptureConfig, ConfigModel};
use crate::encoder_options::{
    catalog_linux, entry_list, linux_catalog, opt_str, EncoderEntry,
};
use crate::json::{entries_writable, json_entries, Json};
use crate::paths::{below, bytes_of, join_below, parent, parent_path, path_key, same_path};
use crate::profile::{PlatformAnswers, PlatformModel};
use crate::render::FORBIDDEN_SOURCE_ID;
use crate::text::{
    ascii_upper, ascii_uppered, cat3, chars_of, contains, decimal, decimal_of, from_utf8_lossy, has,
    is_digit, last_index, lossy_text, parse_u32, parse_unsigned, rfind_char, same, text_of, texts, trim, trimmed, words,
    words_of,
};

verus! {

broadcast use vstd::string::group_string_axioms;

/// A prepared OBS: the path of the binary and of the directory that holds our
/// configuration, further arguments, and whether it is a portable copy.
#[derive(Debug, Clone)]
pub struct ObsRuntime {
    pub bin: Vec<u8>,
    pub config_root: Vec<u8>,
    pub extra_args: Vec<String>,
    pub portable: bool,
}

/// The Linux platform.
pub struct LinuxPlatform;

/// Encoders of this platform's OBS build.
pub fn encoder_catalog() -> (r: Vec<EncoderEntry>)
    ensures
        entry_list(r@) == linux_catalog(),
{
    catalog_linux()
}

// ---------------------------------------------------------------------------
// Directories
// ---------------------------------------------------------------------------
/// `dirs::data_local_dir`: the bytes of the path. What it gives depends on the
/// user's environment, so nothing is stated of it.
#[verifier::external_body]
pub(crate) fn data_local_dir() -> (r: Option<Vec<u8>>) {
    dirs::data_local_dir().map(|d| d.into_os_string().into_encoded_bytes())
}

/// The root of the private OBS configuration below a data directory.
pub open spec fn config_root_below(data_dir: Seq<u8>) -> Seq<u8> {
    below(below(below(data_dir, "MoonClip"@), "obs"@), "config"@)
}

/// The root of the private OBS configuration, given the data directory.
pub fn config_root_in(data_dir: Option<&[u8]>) -> (r: Result<Vec<u8>, String>)
    ensures
        match r {
            Ok(root) => data_dir is Some && root@ == config_root_below(data_dir->0@),
            Err(e) => data_dir is None && e@ == "cannot resolve XDG data dir"@,
        },
{
    match data_dir {
        Some(d) => {
            let app = join_below(d, "MoonClip");
            let obs = join_below(app.as_slice(), "obs");
            Ok(join_below(obs.as_slice(), "config"))
        },
        None => Err("cannot resolve XDG data dir".to_owned()),
    }
}

/// The root of the private OBS configuration of this user.
pub fn config_root() -> (r: Result<Vec<u8>, String>)
    ensures
        match r {
            Ok(root) => exists|d: Seq<u8>| root@ == #[trigger] config_root_below(d),
            Err(e) => e@ == "cannot resolve XDG data dir"@,
        },
{
    match data_local_dir() {
        Some(d) => config_root_in(Some(d.as_slice())),
        None => config_root_in(None),
    }
}

/// The directory of cached game icons below a data directory.
pub open spec fn icons_dir_below(data_dir: Seq<u8>) -> Seq<u8> {
    below(below(data_dir, "MoonClip"@), "icons"@)
}

/// The directory of cached game icons, given the data directory.
pub fn game_icons_dir_in(data_dir: Option<&[u8]>) -> (r: Option<Vec<u8>>)
    ensures
        match r {
            Some(dir) => data_dir is Some && dir@ == icons_dir_below(data_dir->0@),
            None => data_dir is None,
        },
{
    match data_dir {
        Some(d) => {
            let app = join_below(d, "MoonClip");
            Some(join_below(app.as_slice(), "icons"))
        },
        None => None,
    }
}

/// The directory of cached game icons of this user.
pub fn game_icons_dir() -> (r: Option<Vec<u8>>)
    ensures
        r matches Some(dir) ==> exists|d: Seq<u8>| dir@ == #[trigger] icons_dir_below(d),
{
    match data_local_dir() {
        Some(d) => game_icons_dir_in(Some(d.as_slice())),
        None => None,
    }
}

/// `dirs::video_dir`: the bytes of the path. What it gives depends on the user's
/// environment, so nothing is stated of it.
#[verifier::external_body]
fn video_dir() -> (r: Option<Vec<u8>>) {
    dirs::video_dir().map(|d| d.into_os_string().into_encoded_bytes())
}

/// The default directory for clips: `MoonClip` among the user's videos, or else here.
pub open spec fn clips_dir_below(videos: Option<Seq<u8>>) -> Seq<u8> {
    match videos {
        Some(v) => below(v, "MoonClip"@),
        None => encode_utf8("MoonClip"@),
    }
}

/// The default directory for clips, given the directory of videos.
pub fn clips_dir_in(videos: Option<&[u8]>) -> (r: Vec<u8>)
    ensures
        r@ == clips_dir_below(match videos {
            Some(v) => Some(v@),
            None => None,
        }),
{
    match videos {
        Some(v) => join_below(v, "MoonClip"),
        None => bytes_of("MoonClip"),
    }
}

/// The default directory for clips of this user.
pub fn default_clips_dir() -> (r: Vec<u8>)
    ensures
        exists|v: Option<Seq<u8>>| r@ == #[trigger] clips_dir_below(v),
{
    match video_dir() {
        Some(v) => clips_dir_in(Some(v.as_slice())),
        None => clips_dir_in(None),
    }
}

/// The default never moved on Linux, so there is no earlier directory.
pub fn legacy_default_clips_dir() -> (r: Option<Vec<u8>>)
    ensures
        r is None,
{
    None
}

/// Name of the engine that clips come from.
pub fn backend_name() -> (r: &'static str)
    ensures
        r@ == "obs"@,
{
    "obs"
}

/// Relative path of the engine's binary among the bundled ones.
pub const OBS_REL: &'static str = "engine/bin/moonclip-engine";

// ---------------------------------------------------------------------------
// Capture
// ---------------------------------------------------------------------------
/// The encoder that the ladder takes for a vendor, codec and preference. AMD
/// goes through VAAPI, which has one encoder per codec.
pub open spec fn ladder_encoder(vendor: Seq<char>, codec: Seq<char>, encoder: Seq<char>) -> Option<
    Seq<char>,
> {
    if encoder == "cpu"@ {
        Some("obs_x264"@)
    } else if vendor == "nvidia"@ && codec == "h264"@ {
        Some("obs_nvenc_h264_tex"@)
    } else if vendor == "nvidia"@ && codec == "hevc"@ {
        Some("obs_nvenc_hevc_tex"@)
    } else if vendor == "nvidia"@ && codec == "av1"@ {
        Some("obs_nvenc_av1_tex"@)
    } else if vendor == "intel"@ && codec == "h264"@ {
        Some("obs_qsv11_v2"@)
    } else if vendor == "intel"@ && codec == "hevc"@ {
        Some("obs_qsv11_hevc"@)
    } else if vendor == "intel"@ && codec == "av1"@ {
        Some("obs_qsv11_av1"@)
    } else if vendor == "amd"@ && codec == "h264"@ {
        Some("ffmpeg_vaapi"@)
    } else if vendor == "amd"@ && codec == "hevc"@ {
        Some("hevc_ffmpeg_vaapi"@)
    } else if vendor == "amd"@ && codec == "av1"@ {
        Some("av1_ffmpeg_vaapi"@)
    } else {
        None
    }
}

/// The portal source for a window, or for the screen where no window is named.
pub open spec fn portal_source(window: Seq<char>) -> Seq<char> {
    if trim(window).len() > 0 {
        "pipewire-window-capture-source"@
    } else {
        "pipewire-desktop-capture-source"@
    }
}

/// The arguments of the isolated OBS.
pub open spec fn launch_args(profile: Seq<char>, collection: Seq<char>, tray: bool) -> Seq<
    Seq<char>,
> {
    let args = seq![
        "--profile"@,
        profile,
        "--collection"@,
        collection,
        "--multi"@,
        "--disable-shutdown-check"@,
        "--disable-updater"@,
        "--only-bundled-plugins"@,
    ];
    if tray {
        args.push("--minimize-to-tray"@)
    } else {
        args
    }
}

/// What a list of environment variables holds.
pub open spec fn env_texts(v: Seq<(String, String)>) -> Seq<(Seq<char>, Seq<char>)> {
    v.map_values(|e: (String, String)| (e.0@, e.1@))
}

/// Environment of the isolated OBS: where its configuration is, and no portal for Qt.
pub open spec fn launch_env(config_root: Seq<u8>) -> Seq<(Seq<char>, Seq<char>)> {
    seq![
        ("XDG_CONFIG_HOME"@, lossy_text(config_root)),
        ("QT_NO_XDG_DESKTOP_PORTAL"@, "1"@),
    ]
}

/// The directory that OBS is started in: the one of its binary, or else the current one.
pub open spec fn start_dir(obs_bin: Seq<char>) -> Seq<char> {
    match parent_path(obs_bin) {
        Some(d) => d,
        None => "."@,
    }
}

/// What this platform answers for a capture configuration.
pub open spec fn platform_answers(cfg: ConfigModel) -> PlatformModel {
    PlatformModel {
        catalog: linux_catalog(),
        ladder_encoder: ladder_encoder(cfg.vendor, cfg.codec, cfg.encoder),
        video_source_id: portal_source(cfg.window),
        video_settings: seq![],
        game_audio_id: "pulse_output_capture"@,
        mic_audio_id: "pulse_input_capture"@,
    }
}

impl LinuxPlatform {
    /// Encoder of the ladder for a vendor, codec and preference.
    pub fn encoder_id(&self, vendor: &str, codec: &str, encoder: &str) -> (r: Option<&'static str>)
        ensures
            opt_str(r) == ladder_encoder(vendor@, codec@, encoder@),
    {
        if same(encoder, "cpu") {
            Some("obs_x264")
        } else if same(vendor, "nvidia") && same(codec, "h264") {
            Some("obs_nvenc_h264_tex")
        } else if same(vendor, "nvidia") && same(codec, "hevc") {
            Some("obs_nvenc_hevc_tex")
        } else if same(vendor, "nvidia") && same(codec, "av1") {
            Some("obs_nvenc_av1_tex")
        } else if same(vendor, "intel") && same(codec, "h264") {
            Some("obs_qsv11_v2")
        } else if same(vendor, "intel") && same(codec, "hevc") {
            Some("obs_qsv11_hevc")
        } else if same(vendor, "intel") && same(codec, "av1") {
            Some("obs_qsv11_av1")
        } else if same(vendor, "amd") && same(codec, "h264") {
            Some("ffmpeg_vaapi")
        } else if same(vendor, "amd") && same(codec, "hevc") {
            Some("hevc_ffmpeg_vaapi")
        } else if same(vendor, "amd") && same(codec, "av1") {
            Some("av1_ffmpeg_vaapi")
        } else {
            None
        }
    }

    /// Capture source for the chosen monitor or window, with its settings. The
    /// portal picks the monitor, so it is not named.
    pub fn video_source(&self, _monitor: &str, window: &str) -> (r: (
        &'static str,
        Vec<(String, Json)>,
    ))
        ensures
            r.0@ == portal_source(window@),
            r.1@.len() == 0,
    {
        if !trimmed(window).as_str().is_empty() {
            ("pipewire-window-capture-source", Vec::new())
        } else {
            ("pipewire-desktop-capture-source", Vec::new())
        }
    }

    /// Source of game and desktop sound.
    pub fn game_audio_source_id(&self) -> (r: &'static str)
        ensures
            r@ == "pulse_output_capture"@,
    {
        "pulse_output_capture"
    }

    /// Source of microphone sound.
    pub fn mic_audio_source_id(&self) -> (r: &'static str)
        ensures
            r@ == "pulse_input_capture"@,
    {
        "pulse_input_capture"
    }

    /// Encoders of this platform's OBS build.
    pub fn encoder_catalog(&self) -> (r: Vec<EncoderEntry>)
        ensures
            entry_list(r@) == linux_catalog(),
    {
        catalog_linux()
    }

    /// What this platform answers for a capture configuration.
    pub fn answers(&self, cfg: &CaptureConfig) -> (r: PlatformAnswers)
        ensures
            r@ == platform_answers(cfg@),
            entries_writable(r.video_settings@),
    {
        let (video_source_id, video_settings) = self.video_source(
            cfg.monitor.as_str(),
            cfg.window.as_str(),
        );
        proof {
            assert(json_entries(video_settings@) =~= seq![]);
        }
        PlatformAnswers {
            catalog: self.encoder_catalog(),
            ladder_encoder: self.encoder_id(
                cfg.vendor.as_str(),
                cfg.codec.as_str(),
                cfg.encoder.as_str(),
            ),
            video_source_id,
            video_settings,
            game_audio_id: self.game_audio_source_id(),
            mic_audio_id: self.mic_audio_source_id(),
        }
    }

    /// The bundled OBS as it is, with our configuration root.
    pub fn prepare_runtime(&self, bundled_bin: &[u8], config_root: Result<Vec<u8>, String>) -> (r:
        Result<ObsRuntime, String>)
        ensures
            match r {
                Ok(rt) => config_root is Ok && rt.bin@ == bundled_bin@ && rt.config_root@
                    == config_root->Ok_0@ && rt.extra_args@.len() == 0 && !rt.portable,
                Err(e) => config_root is Err && e@ == config_root->Err_0@,
            },
    {
        match config_root {
            Ok(root) => Ok(
                ObsRuntime {
                    bin: slice_to_vec(bundled_bin),
                    config_root: root,
                    extra_args: Vec::new(),
                    portable: false,
                },
            ),
            Err(e) => Err(e),
        }
    }

    /// Environment of the isolated OBS: its configuration tree goes below the
    /// root, as far as it is text, and Qt does not register with the portal
    /// beside it.
    pub fn obs_launch_env(&self, config_root: &[u8]) -> (r: Vec<(String, String)>)
        ensures
            env_texts(r@) == launch_env(config_root@),
    {
        let r = vec![
            ("XDG_CONFIG_HOME".to_owned(), from_utf8_lossy(config_root)),
            ("QT_NO_XDG_DESKTOP_PORTAL".to_owned(), "1".to_owned()),
        ];
        proof {
            assert(env_texts(r@) =~= launch_env(config_root@));
        }
        r
    }

    /// Arguments of the isolated OBS. `tray` tells whether it has a tray icon
    /// to minimize to.
    pub fn obs_launch_args(&self, profile: &str, collection: &str, tray: bool) -> (r: Vec<String>)
        ensures
            texts(r@) == launch_args(profile@, collection@, tray),
    {
        let mut args = vec![
            "--profile".to_owned(),
            profile.to_owned(),
            "--collection".to_owned(),
            collection.to_owned(),
            "--multi".to_owned(),
            "--disable-shutdown-check".to_owned(),
            "--disable-updater".to_owned(),
            "--only-bundled-plugins".to_owned(),
        ];
        if tray {
            args.push("--minimize-to-tray".to_owned());
        }
        proof {
            assert(texts(args@) =~= launch_args(profile@, collection@, tray));
        }
        args
    }

    /// Directory that OBS finds its libraries from: the one of its binary.
    pub fn working_dir(&self, obs_bin: &str) -> (r: String)
        ensures
            r@ == start_dir(obs_bin@),
    {
        match parent(obs_bin) {
            Some(d) => d,
            None => ".".to_owned(),
        }
    }
}

/// The encoder that the ladder takes is one of the platform's catalog, and it
/// encodes the codec that was asked for, unless the software encoder was.
pub proof fn law_ladder_encoder_is_in_the_catalog(
    vendor: Seq<char>,
    codec: Seq<char>,
    encoder: Seq<char>,
)
    ensures
        ladder_encoder(vendor, codec, encoder) matches Some(id) ==> exists|i: int|
            0 <= i < linux_catalog().len() && (#[trigger] linux_catalog()[i]).id == id && (encoder
                != "cpu"@ ==> linux_catalog()[i].codec == codec),
{
    let c = linux_catalog();
    let k: int = if encoder == "cpu"@ {
        9
    } else if vendor == "nvidia"@ && codec == "h264"@ {
        0
    } else if vendor == "nvidia"@ && codec == "hevc"@ {
        1
    } else if vendor == "nvidia"@ && codec == "av1"@ {
        2
    } else if vendor == "intel"@ && codec == "h264"@ {
        3
    } else if vendor == "intel"@ && codec == "hevc"@ {
        4
    } else if vendor == "intel"@ && codec == "av1"@ {
        5
    } else if vendor == "amd"@ && codec == "h264"@ {
        6
    } else if vendor == "amd"@ && codec == "hevc"@ {
        7
    } else {
        8
    };
    if ladder_encoder(vendor, codec, encoder) is Some {
        assert(c[k].id == ladder_encoder(vendor, codec, encoder)->0);
    }
}

/// The capture source never is the one that hooks into games.
pub proof fn law_portal_source_never_hooks_a_game(window: Seq<char>)
    ensures
        portal_source(window) != FORBIDDEN_SOURCE_ID@,
{
    reveal_strlit("pipewire-window-capture-source");
    reveal_strlit("pipewire-desktop-capture-source");
    reveal_strlit("game_capture");
    assert(FORBIDDEN_SOURCE_ID@.len() == 12);
    assert("pipewire-window-capture-source"@.len() == 30);
    assert("pipewire-desktop-capture-source"@.len() == 31);
}

/// Whether WebKitGTK's DMA-BUF renderer is to be switched off: under Wayland,
/// unless the user has set the variable already.
pub fn disables_dmabuf(wayland: bool, already_set: bool) -> (r: bool)
    ensures
        r == (wayland && !already_set),
{
    wayland && !already_set
}

// ---------------------------------------------------------------------------
// Hiding the window
// ---------------------------------------------------------------------------
/// How often the window manager is asked to hide the window. It may not be
/// ready for scripts when the engine has just started.
pub const CONCEAL_ATTEMPTS: u32 = 5;

/// Seconds after the start at which the window is unmapped under X11.
pub const UNMAP_AFTER_S: [u64; 2] = [1, 8];

/// What follows an attempt to hide the window that failed.
#[derive(Debug, Clone, Copy)]
pub struct ConcealRetry {
    pub pause_ms: u64,
    /// Another attempt follows the pause.
    pub again: bool,
}

/// The pause after failed attempts to hide the window, and whether another follows.
pub open spec fn retry_after(failed: nat) -> (nat, bool) {
    (200 * failed, failed < CONCEAL_ATTEMPTS)
}

/// What follows when `failed` attempts to hide the window have failed: a pause
/// that grows with them, and another attempt until all are used up.
pub fn conceal_retry(failed: u32) -> (r: ConcealRetry)
    ensures
        (r.pause_ms as nat, r.again) == retry_after(failed as nat),
{
    ConcealRetry { pause_ms: 200 * failed as u64, again: failed < CONCEAL_ATTEMPTS }
}

/// The session is one of KDE Plasma.
pub open spec fn is_kde(current_desktop: Option<Seq<char>>, full_session: Option<Seq<char>>) -> bool {
    (current_desktop is Some && contains(ascii_upper(current_desktop->0), "KDE"@)) || full_session
        == Some("true"@)
}

/// Whether the session is one of KDE Plasma, by its two environment variables.
pub fn kde_session(current_desktop: Option<&str>, full_session: Option<&str>) -> (r: bool)
    ensures
        r == is_kde(opt_str(current_desktop), opt_str(full_session)),
{
    let named = match current_desktop {
        Some(d) => {
            let up = ascii_uppered(d);
            has(up.as_str(), "KDE")
        },
        None => false,
    };
    if named {
        return true;
    }
    match full_session {
        Some(v) => same(v, "true"),
        None => false,
    }
}

/// The name under which the hiding script of a process is loaded.
pub open spec fn conceal_plugin_name(pid: nat) -> Seq<char> {
    "moonclip-conceal-"@ + decimal(pid)
}

/// Name under which the hiding script of a process is loaded.
pub fn conceal_plugin(pid: u32) -> (r: String)
    ensures
        r@ == conceal_plugin_name(pid as nat),
{
    let n = decimal_of(pid as u64);
    crate::text::cat("moonclip-conceal-", n.as_str())
}

/// The name of the file that keeps the hiding script of a process.
pub open spec fn conceal_file_name(pid: nat) -> Seq<char> {
    "moonclip-kwin-conceal-"@ + decimal(pid) + ".js"@
}

/// Name of the file that keeps the hiding script of a process.
pub fn conceal_file(pid: u32) -> (r: String)
    ensures
        r@ == conceal_file_name(pid as nat),
{
    let n = decimal_of(pid as u64);
    cat3("moonclip-kwin-conceal-", n.as_str(), ".js")
}

/// A file that an earlier session may have left behind: a hiding script, or
/// one that was not yet in place.
pub fn is_conceal_file(name: &str) -> (r: bool)
    ensures
        r == "moonclip-kwin-conceal-"@.is_prefix_of(name@),
{
    crate::text::starts_with(name, "moonclip-kwin-conceal-")
}

/// The script that hides the windows of a process as they appear.
pub open spec fn conceal_script_text(pid: nat) -> Seq<char> {
    "var targetPid = "@ + decimal(pid)
        + ";\nfunction hideOurs(w) {\nif (w && w.pid === targetPid) {\nw.skipTaskbar = true;\nw.skipPager = true;\nw.skipSwitcher = true;\nw.noBorder = true;\nw.opacity = 0;\nw.minimized = true;\n}\n}\nvar wins = workspace.windowList ? workspace.windowList() : [];\nfor (var i = 0; i < wins.length; ++i) { hideOurs(wins[i]); }\nif (workspace.windowAdded) { workspace.windowAdded.connect(hideOurs); }\n"@
}

/// Script that hides the windows of a process as they appear.
pub fn conceal_script(pid: u32) -> (r: String)
    ensures
        r@ == conceal_script_text(pid as nat),
{
    let n = decimal_of(pid as u64);
    cat3(
        "var targetPid = ",
        n.as_str(),
        ";\nfunction hideOurs(w) {\nif (w && w.pid === targetPid) {\nw.skipTaskbar = true;\nw.skipPager = true;\nw.skipSwitcher = true;\nw.noBorder = true;\nw.opacity = 0;\nw.minimized = true;\n}\n}\nvar wins = workspace.windowList ? workspace.windowList() : [];\nfor (var i = 0; i < wins.length; ++i) { hideOurs(wins[i]); }\nif (workspace.windowAdded) { workspace.windowAdded.connect(hideOurs); }\n",
    )
}

/// The digits of a text.
pub open spec fn digits_in(s: Seq<char>) -> Seq<char> {
    s.filter(|c: char| is_digit(c))
}

/// The id of a loaded script in the reply of the window manager: the digits of
/// the reply, if there are any.
pub fn script_id(reply: &str) -> (r: Option<String>)
    ensures
        match r {
            Some(id) => id@ == digits_in(reply@) && id@.len() > 0,
            None => digits_in(reply@).len() == 0,
        },
{
    let cs = chars_of(reply);
    let mut id: String = String::new();
    let mut i: usize = 0;
    proof {
        reveal(Seq::filter);
        assert(cs@.take(0) =~= Seq::<char>::empty());
        assert(digits_in(cs@.take(0)) =~= Seq::<char>::empty());
    }
    while i < cs.len()
        invariant
            cs@ == reply@,
            i <= cs@.len(),
            id@ == digits_in(cs@.take(i as int)),
        decreases cs@.len() - i,
    {
        let c = cs[i];
        proof {
            reveal(Seq::filter);
            assert(cs@.take(i + 1).drop_last() =~= cs@.take(i as int));
            assert(cs@.take(i + 1).last() == c);
        }
        if '0' <= c && c <= '9' {
            id.push(c);
        }
        i = i + 1;
    }
    proof {
        assert(cs@.take(cs@.len() as int) =~= reply@);
    }
    if id.as_str().is_empty() {
        None
    } else {
        Some(id)
    }
}

// ---------------------------------------------------------------------------
// Leftover processes
// ---------------------------------------------------------------------------
/// One running process.
pub struct ProcessInfo {
    pub pid: u32,
    pub parent: u32,
    pub exe: String,
}

/// The parent in the status line of a process: the second word behind the last
/// bracket, which closes the process's name. 0 where there is none.
pub open spec fn stat_parent(stat: Seq<char>) -> nat {
    match last_index(stat, ')') {
        Some(i) => {
            let rest = words(stat.skip(i + 1));
            if rest.len() > 1 {
                match parse_unsigned(rest[1], u32::MAX as nat) {
                    Some(n) => n,
                    None => 0,
                }
            } else {
                0
            }
        },
        None => 0,
    }
}

/// Parent process in the status line of a process.
pub fn parent_from_stat(stat: &str) -> (r: u32)
    ensures
        r == stat_parent(stat@),
{
    let cs = chars_of(stat);
    let n: usize = cs.len();
    match rfind_char(cs.as_slice(), ')') {
        Some(i) => {
            let rest = text_of(cs.as_slice(), i + 1, n);
            proof {
                assert(cs@.subrange(i + 1, n as int) =~= cs@.skip(i + 1));
            }
            let ws = words_of(rest.as_str());
            if ws.len() > 1 {
                proof {
                    assert(texts(ws@)[1] == ws@[1]@);
                }
                match parse_u32(ws[1].as_str()) {
                    Some(p) => p,
                    None => 0,
                }
            } else {
                proof {
                    assert(texts(ws@).len() == ws@.len());
                }
                0
            }
        },
        None => 0,
    }
}

/// A process of that id runs.
pub open spec fn is_running(processes: Seq<ProcessInfo>, pid: u32) -> bool {
    exists|i: int| 0 <= i < processes.len() && (#[trigger] processes[i]).pid == pid
}

/// A process is a leftover of an earlier session: our own binary, not this
/// process, and without its parent.
pub open spec fn is_orphan(
    processes: Seq<ProcessInfo>,
    p: ProcessInfo,
    own_pid: u32,
    binary: Seq<char>,
) -> bool {
    &&& p.pid != own_pid
    &&& p.parent != 0
    &&& !is_running(processes, p.parent)
    &&& path_key(p.exe@) == path_key(binary)
}

/// The leftover processes among the first `n`, in the order of the list.
pub open spec fn orphans_among(
    processes: Seq<ProcessInfo>,
    n: nat,
    own_pid: u32,
    binary: Seq<char>,
) -> Seq<u32>
    decreases n,
{
    if n == 0 {
        seq![]
    } else {
        let before = orphans_among(processes, (n - 1) as nat, own_pid, binary);
        let p = processes[n - 1];
        if is_orphan(processes, p, own_pid, binary) {
            before.push(p.pid)
        } else {
            before
        }
    }
}

/// A process whose parent runs is never taken for a leftover, nor is this
/// process itself. Every leftover is found.
pub proof fn law_only_leftovers_are_orphans(
    processes: Seq<ProcessInfo>,
    n: nat,
    own_pid: u32,
    binary: Seq<char>,
)
    requires
        n <= processes.len(),
    ensures
        forall|pid: u32|
            orphans_among(processes, n, own_pid, binary).contains(pid) <==> exists|i: int|
                0 <= i < n && (#[trigger] processes[i]).pid == pid && is_orphan(
                    processes,
                    processes[i],
                    own_pid,
                    binary,
                ),
    decreases n,
{
    if n > 0 {
        law_only_leftovers_are_orphans(processes, (n - 1) as nat, own_pid, binary);
        let before = orphans_among(processes, (n - 1) as nat, own_pid, binary);
        let now = orphans_among(processes, n, own_pid, binary);
        let p = processes[n - 1];
        assert forall|pid: u32| now.contains(pid) <==> exists|i: int|
            0 <= i < n && (#[trigger] processes[i]).pid == pid && is_orphan(
                processes,
                processes[i],
                own_pid,
                binary,
            ) by {
            if now.contains(pid) {
                let j = choose|j: int| 0 <= j < now.len() && now[j] == pid;
                if j < before.len() {
                    assert(before[j] == pid);
                    assert(before.contains(pid));
                } else {
                    assert(p.pid == pid);
                }
            }
            if is_orphan(processes, p, own_pid, binary) {
                assert(now[before.len() as int] == p.pid);
            }
            if before.contains(pid) {
                let j = choose|j: int| 0 <= j < before.len() && before[j] == pid;
                assert(now[j] == pid);
            }
        }
    }
}

/// Leftover processes of earlier sessions.
pub fn orphan_pids(processes: &Vec<ProcessInfo>, own_pid: u32, binary: &str) -> (r: Vec<u32>)
    ensures
        r@ == orphans_among(processes@, processes@.len(), own_pid, binary@),
{
    let mut out: Vec<u32> = Vec::new();
    let mut i: usize = 0;
    while i < processes.len()
        invariant
            i <= processes@.len(),
            out@ == orphans_among(processes@, i as nat, own_pid, binary@),
        decreases processes@.len() - i,
    {
        let p = &processes[i];
        let alive = runs(processes, p.parent);
        if p.pid != own_pid && p.parent != 0 && !alive && same_path(p.exe.as_str(), binary) {
            out.push(p.pid);
        }
        i = i + 1;
    }
    out
}

fn runs(processes: &Vec<ProcessInfo>, pid: u32) -> (r: bool)
    ensures
        r == is_running(processes@, pid),
{
    let mut i: usize = 0;
    while i < processes.len()
        invariant
            i <= processes@.len(),
            forall|k: int| 0 <= k < i ==> (#[trigger] processes@[k]).pid != pid,
        decreases processes@.len() - i,
    {
        if processes[i].pid == pid {
            return true;
        }
        i = i + 1;
    }
    false
}

} // verus!
