//! The embedded OBS as a portable copy.
//!
//! Where the bundled OBS can be copied, a writable copy below MoonClip's data
//! directory is launched in portable mode, and its configuration goes into the
//! copy. A system install is not copied: it gets our configuration directory as
//! an argument.

use vstd::prelude::*;
use vstd::slice::slice_to_vec;

use crate::encoder_options::{catalog_linux, entry_list, linux_catalog, opt_str, EncoderEntry};
use crate::json::Json;
use crate::linux::engine;
use crate::linux::engine::{
    data_local_dir, ladder_encoder, portal_source, start_dir, ObsRuntime,
};
use crate::paths::{below, join_below, parent, parent_path};
use crate::text::{
    cat, cat5, decimal, decimal_of, from_utf8_lossy, lossy_text, same, starts_with, texts,
};

verus! {

broadcast use vstd::string::group_string_axioms;

/// The Linux platform with a portable copy.
pub struct LinuxPlatform;

/// The directory of the copy below a data directory.
pub open spec fn runtime_root_below(data_dir: Seq<u8>) -> Seq<u8> {
    below(below(data_dir, "MoonClip"@), "obs"@)
}

/// The directory of the copy, given the data directory.
pub fn runtime_root_in(data_dir: Option<&[u8]>) -> (r: Result<Vec<u8>, String>)
    ensures
        match r {
            Ok(root) => data_dir is Some && root@ == runtime_root_below(data_dir->0@),
            Err(e) => data_dir is None && e@ == "cannot resolve XDG data dir"@,
        },
{
    match data_dir {
        Some(d) => {
            let app = join_below(d, "MoonClip");
            Ok(join_below(app.as_slice(), "obs"))
        },
        None => Err("cannot resolve XDG data dir".to_owned()),
    }
}

/// The directory of this user's copy.
pub fn runtime_root() -> (r: Result<Vec<u8>, String>)
    ensures
        match r {
            Ok(root) => exists|d: Seq<u8>| root@ == #[trigger] runtime_root_below(d),
            Err(e) => e@ == "cannot resolve XDG data dir"@,
        },
{
    match data_local_dir() {
        Some(d) => runtime_root_in(Some(d.as_slice())),
        None => runtime_root_in(None),
    }
}

/// The root of this user's configuration, inside the copy.
pub fn config_root() -> (r: Result<Vec<u8>, String>)
    ensures
        match r {
            Ok(root) => exists|d: Seq<u8>|
                root@ == below(#[trigger] runtime_root_below(d), "config"@),
            Err(e) => e@ == "cannot resolve XDG data dir"@,
        },
{
    match runtime_root() {
        Ok(root) => Ok(config_root_of(root.as_slice())),
        Err(e) => Err(e),
    }
}

/// Encoders of this platform's OBS build.
pub fn encoder_catalog() -> (r: Vec<EncoderEntry>)
    ensures
        entry_list(r@) == linux_catalog(),
{
    catalog_linux()
}

/// The directory of the copy's configuration.
pub fn config_root_of(runtime_root: &[u8]) -> (r: Vec<u8>)
    ensures
        r@ == below(runtime_root@, "config"@),
{
    join_below(runtime_root, "config")
}

/// The places that system installs stand in. They are read-only or huge, and are not copied.
pub open spec fn system_prefixes() -> Seq<Seq<char>> {
    seq!["/usr/"@, "/opt/"@, "/snap/"@, "/var/lib/flatpak/"@, "/app/"@, "/nix/store/"@]
}

/// A binary of a system install.
pub open spec fn in_system_path(bin: Seq<char>) -> bool {
    exists|i: int| 0 <= i < 6 && (#[trigger] system_prefixes()[i]).is_prefix_of(bin)
}

/// Whether a binary belongs to a system install.
pub fn is_system_path(bin: &str) -> (r: bool)
    ensures
        r == in_system_path(bin@),
{
    let ghost ps = system_prefixes();
    proof {
        assert(ps[0] == "/usr/"@ && ps[1] == "/opt/"@ && ps[2] == "/snap/"@);
        assert(ps[3] == "/var/lib/flatpak/"@ && ps[4] == "/app/"@ && ps[5] == "/nix/store/"@);
    }
    let r = starts_with(bin, "/usr/") || starts_with(bin, "/opt/") || starts_with(bin, "/snap/")
        || starts_with(bin, "/var/lib/flatpak/") || starts_with(bin, "/app/") || starts_with(
        bin,
        "/nix/store/",
    );
    proof {
        if r {
            assert(ps[0].is_prefix_of(bin@) || ps[1].is_prefix_of(bin@) || ps[2].is_prefix_of(bin@)
                || ps[3].is_prefix_of(bin@) || ps[4].is_prefix_of(bin@) || ps[5].is_prefix_of(
                bin@,
            ));
        }
    }
    r
}

/// The arguments of the portable OBS.
pub open spec fn portable_args(profile: Seq<char>, collection: Seq<char>) -> Seq<Seq<char>> {
    seq![
        "--profile"@,
        profile,
        "--collection"@,
        collection,
        "--multi"@,
        "--minimize-to-tray"@,
        "--disable-shutdown-check"@,
        "--disable-updater"@,
        "--only-bundled-plugins"@,
    ]
}

/// What the copy was made from: the path, size and time of the bundled binary.
pub open spec fn fingerprint_text(path: Seq<char>, len: nat, mtime: nat) -> Seq<char> {
    path + "\n"@ + decimal(len) + "\n"@ + decimal(mtime) + "\n"@
}

/// What the copy is made from.
pub fn obs_build_fingerprint(path: &str, len: u64, mtime: u64) -> (r: String)
    ensures
        r@ == fingerprint_text(path@, len as nat, mtime as nat),
{
    let l = decimal_of(len);
    let m = decimal_of(mtime);
    let head = cat5(path, "\n", l.as_str(), "\n", m.as_str());
    cat(head.as_str(), "\n")
}

/// The marker of an existing copy tells that it was made from this build.
pub fn marker_matches(marker: Option<&str>, fingerprint: &str) -> (r: bool)
    ensures
        r == (opt_str(marker) == Some(fingerprint@)),
{
    match marker {
        Some(m) => same(m, fingerprint),
        None => false,
    }
}

/// What is to be done stands for this.
pub enum StageModel {
    Ready(Seq<u8>),
    Copy(Seq<char>),
}

/// What is to be done to have an up-to-date copy.
pub open spec fn stage_of(
    runtime_root: Seq<u8>,
    bundled_bin: Seq<char>,
    copy_exists: bool,
    marker: Option<Seq<char>>,
    fingerprint: Seq<char>,
) -> Result<StageModel, Seq<char>> {
    let prefix = match parent_path(bundled_bin) {
        Some(p) => parent_path(p),
        None => None,
    };
    if copy_exists && marker == Some(fingerprint) {
        Ok(StageModel::Ready(below(below(runtime_root, "bin"@), "obs"@)))
    } else {
        match prefix {
            Some(src) => Ok(StageModel::Copy(src)),
            None => Err("unexpected OBS layout: "@ + bundled_bin),
        }
    }
}

/// What is to be done to have an up-to-date copy.
pub enum StageStep {
    /// The copy is there: launch the binary with this path.
    Ready(Vec<u8>),
    /// Copy this directory over the copy, then launch.
    Copy(String),
}

/// What is to be done to have an up-to-date copy: nothing where its binary and
/// a matching marker are there, and a copy of the install that the bundled
/// binary stands in otherwise.
pub fn stage_runtime(
    runtime_root: &[u8],
    bundled_bin: &str,
    copy_exists: bool,
    marker: Option<&str>,
    fingerprint: &str,
) -> (r: Result<StageStep, String>)
    ensures
        stage_of(
            runtime_root@,
            bundled_bin@,
            copy_exists,
            opt_str(marker),
            fingerprint@,
        ) == match r {
            Ok(StageStep::Ready(bin)) => Ok::<StageModel, Seq<char>>(StageModel::Ready(bin@)),
            Ok(StageStep::Copy(src)) => Ok(StageModel::Copy(src@)),
            Err(e) => Err(e@),
        },
{
    if copy_exists && marker_matches(marker, fingerprint) {
        let bin = join_below(runtime_root, "bin");
        return Ok(StageStep::Ready(join_below(bin.as_slice(), "obs")));
    }
    let above = match parent(bundled_bin) {
        Some(p) => parent(p.as_str()),
        None => None,
    };
    match above {
        Some(src) => Ok(StageStep::Copy(src)),
        None => Err(cat("unexpected OBS layout: ", bundled_bin)),
    }
}

impl LinuxPlatform {
    /// The OBS to launch: a system install as it is, with our configuration
    /// directory as an argument, or the copy in portable mode.
    pub fn prepare_runtime(&self, bundled_bin: &[u8], staged_bin: &[u8], config_root: &[u8]) -> (r:
        ObsRuntime)
        ensures
            r.config_root@ == config_root@,
            in_system_path(lossy_text(bundled_bin@)) ==> {
                &&& r.bin@ == bundled_bin@
                &&& texts(r.extra_args@) == seq!["--config-dir"@, lossy_text(config_root@)]
                &&& !r.portable
            },
            !in_system_path(lossy_text(bundled_bin@)) ==> {
                &&& r.bin@ == staged_bin@
                &&& texts(r.extra_args@) == seq!["--portable"@]
                &&& r.portable
            },
    {
        let shown = from_utf8_lossy(bundled_bin);
        if is_system_path(shown.as_str()) {
            let args = vec!["--config-dir".to_owned(), from_utf8_lossy(config_root)];
            proof {
                assert(texts(args@) =~= seq!["--config-dir"@, lossy_text(config_root@)]);
            }
            ObsRuntime {
                bin: slice_to_vec(bundled_bin),
                config_root: slice_to_vec(config_root),
                extra_args: args,
                portable: false,
            }
        } else {
            let args = vec!["--portable".to_owned()];
            proof {
                assert(texts(args@) =~= seq!["--portable"@]);
            }
            ObsRuntime {
                bin: slice_to_vec(staged_bin),
                config_root: slice_to_vec(config_root),
                extra_args: args,
                portable: true,
            }
        }
    }

    /// Encoder of the ladder for a vendor, codec and preference.
    pub fn encoder_id(&self, vendor: &str, codec: &str, encoder: &str) -> (r: Option<&'static str>)
        ensures
            opt_str(r) == ladder_encoder(vendor@, codec@, encoder@),
    {
        engine::LinuxPlatform.encoder_id(vendor, codec, encoder)
    }

    /// Capture source for the chosen monitor or window, with its settings.
    pub fn video_source(&self, monitor: &str, window: &str) -> (r: (
        &'static str,
        Vec<(String, Json)>,
    ))
        ensures
            r.0@ == portal_source(window@),
            r.1@.len() == 0,
    {
        engine::LinuxPlatform.video_source(monitor, window)
    }

    /// Directory that OBS finds its libraries from: the one of its binary.
    pub fn working_dir(&self, obs_bin: &str) -> (r: String)
        ensures
            r@ == start_dir(obs_bin@),
    {
        engine::LinuxPlatform.working_dir(obs_bin)
    }

    /// Arguments of the portable OBS, before those of its runtime.
    pub fn obs_launch_args(&self, profile: &str, collection: &str) -> (r: Vec<String>)
        ensures
            texts(r@) == portable_args(profile@, collection@),
    {
        let args = vec![
            "--profile".to_owned(),
            profile.to_owned(),
            "--collection".to_owned(),
            collection.to_owned(),
            "--multi".to_owned(),
            "--minimize-to-tray".to_owned(),
            "--disable-shutdown-check".to_owned(),
            "--disable-updater".to_owned(),
            "--only-bundled-plugins".to_owned(),
        ];
        proof {
            assert(texts(args@) =~= portable_args(profile@, collection@));
        }
        args
    }
}

} // verus!
