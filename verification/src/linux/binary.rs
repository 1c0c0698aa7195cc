//! Which binaries are used: the bundled engine and the bundled ffmpeg.

use vstd::prelude::*;

use crate::detect::tick::is_before;
use crate::json::text_before;
use crate::paths::{join, join_path, renamed_path, with_name};
use crate::text::{cat, cat3, contains, has, lossy_text, opt_text, starts_with, texts};

verus! {

broadcast use vstd::string::group_string_axioms;

/// A binary with where it was found.
pub struct FoundBinary {
    pub path: String,
    /// `bundled` or `env`.
    pub source: String,
}

/// The engine's binary: the one of the environment, which must exist where it is
/// set, or the bundled one. The system's own OBS is never taken.
pub fn pick_engine(env: Option<String>, env_present: bool, bundled: Option<FoundBinary>) -> (r: Result<
    FoundBinary,
    String,
>)
    ensures
        match r {
            Ok(b) => match env {
                Some(p) => env_present && b.path@ == p@ && b.source@ == "env"@,
                None => bundled is Some && b == bundled->0,
            },
            Err(e) => match env {
                Some(p) => !env_present && e@ == "MOONCLIP_OBS_BIN points nowhere: "@ + p@,
                None => bundled is None && e@
                    == "capture engine not found (expected binaries/<triple>/engine/bin/moonclip-engine). Run build-aux/linux/build-obs.sh or reinstall MoonClip."@,
            },
        },
{
    match env {
        Some(p) => {
            if env_present {
                Ok(FoundBinary { path: p, source: "env".to_owned() })
            } else {
                Err(cat("MOONCLIP_OBS_BIN points nowhere: ", p.as_str()))
            }
        },
        None => match bundled {
            Some(b) => Ok(b),
            None => Err(
                "capture engine not found (expected binaries/<triple>/engine/bin/moonclip-engine). Run build-aux/linux/build-obs.sh or reinstall MoonClip.".to_owned(),
            ),
        },
    }
}

/// The name of the bundled ffmpeg for a machine, with the extension of its programs.
pub open spec fn sidecar_text(triple: Seq<char>, extension: Seq<char>) -> Seq<char> {
    if extension.len() == 0 {
        "ffmpeg-"@ + triple
    } else {
        "ffmpeg-"@ + triple + "."@ + extension
    }
}

/// Name of the bundled ffmpeg.
pub fn sidecar_name(triple: &str, extension: &str) -> (r: String)
    ensures
        r@ == sidecar_text(triple@, extension@),
{
    let base = cat("ffmpeg-", triple);
    if extension.is_empty() {
        base
    } else {
        cat3(base.as_str(), ".", extension)
    }
}

/// The first, in the order of texts, of the names that start with `ffmpeg`.
pub open spec fn first_ffmpeg(names: Seq<Seq<char>>) -> Option<Seq<char>>
    decreases names.len(),
{
    if names.len() == 0 {
        None
    } else {
        let init = first_ffmpeg(names.drop_last());
        let n = names.last();
        if !"ffmpeg"@.is_prefix_of(n) {
            init
        } else {
            match init {
                Some(b) => if text_before(n, b) {
                    Some(n)
                } else {
                    init
                },
                None => Some(n),
            }
        }
    }
}

fn find_first_ffmpeg(names: &Vec<String>) -> (r: Option<String>)
    ensures
        opt_text(r) == first_ffmpeg(texts(names@)),
{
    let ghost all = texts(names@);
    let mut best: Option<String> = None;
    let mut i: usize = 0;
    proof {
        assert(all.take(0) =~= Seq::<Seq<char>>::empty());
    }
    while i < names.len()
        invariant
            all == texts(names@),
            i <= names@.len(),
            opt_text(best) == first_ffmpeg(all.take(i as int)),
        decreases names@.len() - i,
    {
        proof {
            assert(all.take(i + 1).drop_last() =~= all.take(i as int));
            assert(all.take(i + 1).last() == names@[i as int]@);
        }
        if starts_with(names[i].as_str(), "ffmpeg") {
            let better = match &best {
                Some(b) => is_before(names[i].as_str(), b.as_str()),
                None => true,
            };
            if better {
                best = Some(names[i].clone());
            }
        }
        i = i + 1;
    }
    proof {
        assert(all.take(all.len() as int) =~= all);
    }
    best
}

/// The ffmpeg to use.
pub open spec fn ffmpeg_of(
    env: Option<Seq<char>>,
    bundled: Option<Seq<char>>,
    legacy_dir: Seq<char>,
    legacy_names: Seq<Seq<char>>,
) -> Seq<char> {
    if env is Some {
        env->0
    } else if bundled is Some {
        bundled->0
    } else {
        match first_ffmpeg(legacy_names) {
            Some(n) => join_path(legacy_dir, n),
            None => "ffmpeg"@,
        }
    }
}

/// The ffmpeg to use: the one of the environment where it exists, the bundled
/// one, the first of an older layout's directory, or the system's.
pub fn pick_ffmpeg(
    env: Option<String>,
    bundled: Option<String>,
    legacy_dir: &str,
    legacy_names: &Vec<String>,
) -> (r: String)
    ensures
        r@ == ffmpeg_of(
            crate::text::opt_text(env),
            crate::text::opt_text(bundled),
            legacy_dir@,
            texts(legacy_names@),
        ),
{
    match env {
        Some(p) => {
            return p;
        },
        None => {},
    }
    match bundled {
        Some(p) => {
            return p;
        },
        None => {},
    }
    match find_first_ffmpeg(legacy_names) {
        Some(n) => join(legacy_dir, n.as_str()),
        None => "ffmpeg".to_owned(),
    }
}

/// The helper beside the recorder that captures the screen.
pub open spec fn kms_sibling_of(recorder: Seq<char>) -> Seq<char> {
    renamed_path(recorder, "gsr-kms-server"@)
}

/// Helper beside the recorder that captures the screen.
pub fn kms_sibling(recorder: &str) -> (r: String)
    ensures
        r@ == kms_sibling_of(recorder@),
{
    with_name(recorder, "gsr-kms-server")
}

/// The binary that needs the capability: the helper where there is one, or else
/// the recorder itself.
pub fn kms_server_path(recorder: &str, sibling_present: bool) -> (r: String)
    ensures
        r@ == if sibling_present {
            kms_sibling_of(recorder@)
        } else {
            recorder@
        },
{
    if sibling_present {
        kms_sibling(recorder)
    } else {
        recorder.to_owned()
    }
}

/// Whether the report on a binary's capabilities has the one that is needed.
pub fn has_capability(report: &[u8]) -> (r: bool)
    ensures
        r == contains(lossy_text(report@), "cap_sys_admin"@),
{
    let s = crate::text::from_utf8_lossy(report);
    has(s.as_str(), "cap_sys_admin")
}

/// Whether the capability could be given: the tool has to succeed, and the
/// capability has to be there afterwards.
pub fn fix_caps(tool_succeeded: bool, present_after: bool) -> (r: Result<(), String>)
    ensures
        match r {
            Ok(_) => tool_succeeded && present_after,
            Err(e) => if !tool_succeeded {
                e@ == "setcap rejected or failed"@
            } else {
                !present_after && e@ == "capability still missing after setcap"@
            },
        },
{
    if !tool_succeeded {
        Err("setcap rejected or failed".to_owned())
    } else if !present_after {
        Err("capability still missing after setcap".to_owned())
    } else {
        Ok(())
    }
}

} // verus!
