//! gpu-screen-recorder as a replay buffer: its command line, and the choice of
//! the file that a save has written.

use vstd::prelude::*;

use crate::encoder_options::opt_str;
use crate::text::{cat, cat3, decimal, decimal_of, lossy_text, opt_text, texts, trim, trimmed};

verus! {

broadcast use vstd::string::group_string_axioms;

/// The size that the recorder scales to for a height of the ladder.
pub open spec fn scale_box(height: int) -> Option<Seq<char>> {
    if height == 360 {
        Some("640x360"@)
    } else if height == 720 {
        Some("1280x720"@)
    } else if height == 1080 {
        Some("1920x1080"@)
    } else if height == 1440 {
        Some("2560x1440"@)
    } else {
        None
    }
}

/// Size that the recorder scales to. None keeps that of the source.
pub fn scale_arg(height: u32) -> (r: Option<&'static str>)
    ensures
        opt_str(r) == scale_box(height as int),
{
    if height == 360 {
        Some("640x360")
    } else if height == 720 {
        Some("1280x720")
    } else if height == 1080 {
        Some("1920x1080")
    } else if height == 1440 {
        Some("2560x1440")
    } else {
        None
    }
}

/// What is asked of the recorder.
pub struct RecorderRequest {
    /// Empty: the screen.
    pub source: String,
    pub fps: u32,
    pub codec: String,
    pub duration_seconds: u32,
    pub out_height: u32,
    pub bitrate_kbps: u32,
    pub video_opts: Option<String>,
    pub desktop_device: String,
    pub mic_device: String,
    pub output_dir: String,
}

/// The three audio tracks: the mix, the game alone, the microphone alone.
pub open spec fn track_args(desktop: Seq<char>, mic: Seq<char>) -> Seq<Seq<char>> {
    seq![desktop + "|"@ + mic, desktop, mic]
}

/// Audio tracks of the recorder, in their order.
pub fn audio_tracks(desktop: &str, mic: &str) -> (r: Vec<String>)
    ensures
        texts(r@) == track_args(desktop@, mic@),
{
    let r = vec![cat3(desktop, "|", mic), desktop.to_owned(), mic.to_owned()];
    proof {
        assert(texts(r@) =~= track_args(desktop@, mic@));
    }
    r
}

/// The command line of the recorder.
pub open spec fn recorder_command(q: RecorderRequest) -> Seq<Seq<char>> {
    let source = if trim(q.source@).len() == 0 {
        "screen"@
    } else {
        trim(q.source@)
    };
    let head = seq![
        "-w"@,
        source,
        "-f"@,
        decimal(q.fps as nat),
        "-k"@,
        q.codec@,
        "-c"@,
        "mp4"@,
        "-r"@,
        decimal(q.duration_seconds as nat),
    ];
    let scale = match scale_box(q.out_height as int) {
        Some(s) => seq!["-s"@, s],
        None => Seq::empty(),
    };
    let rate = seq![
        "-bm"@,
        "cbr"@,
        "-q"@,
        decimal(q.bitrate_kbps as nat),
        "-tune"@,
        "quality"@,
        "-keyint"@,
        "2"@,
    ];
    let opts = match opt_text(q.video_opts) {
        Some(o) => seq!["-ffmpeg-video-opts"@, o],
        None => Seq::empty(),
    };
    let audio = seq![
        "-a"@,
        q.desktop_device@ + "|"@ + q.mic_device@,
        "-a"@,
        q.desktop_device@,
        "-a"@,
        q.mic_device@,
        "-ac"@,
        "aac"@,
        "-ab"@,
        "160"@,
        "-o"@,
        q.output_dir@,
    ];
    head + scale + rate + opts + audio
}

fn extend(out: &mut Vec<String>, more: Vec<String>)
    ensures
        texts(final(out)@) == texts(old(out)@) + texts(more@),
{
    let ghost start = texts(out@);
    let ghost tail = texts(more@);
    let mut i: usize = 0;
    proof {
        assert(start + tail.take(0) =~= start);
    }
    while i < more.len()
        invariant
            tail == texts(more@),
            i <= more@.len(),
            texts(out@) == start + tail.take(i as int),
        decreases more@.len() - i,
    {
        let ghost before = out@;
        out.push(more[i].clone());
        proof {
            assert(texts(out@) =~= texts(before).push(more@[i as int]@));
            assert(tail.take(i + 1) =~= tail.take(i as int).push(tail[i as int]));
            assert(start + tail.take(i + 1) =~= (start + tail.take(i as int)).push(tail[i as int]));
        }
        i = i + 1;
    }
    proof {
        assert(tail.take(tail.len() as int) =~= tail);
    }
}

/// Command line of the recorder.
pub fn recorder_args(q: &RecorderRequest) -> (r: Vec<String>)
    ensures
        texts(r@) == recorder_command(*q),
{
    let named = trimmed(q.source.as_str());
    let source: String = if named.as_str().is_empty() {
        "screen".to_owned()
    } else {
        named
    };
    let ghost source_text = source@;
    let mut out = vec![
        "-w".to_owned(),
        source,
        "-f".to_owned(),
        decimal_of(q.fps as u64),
        "-k".to_owned(),
        q.codec.clone(),
        "-c".to_owned(),
        "mp4".to_owned(),
        "-r".to_owned(),
        decimal_of(q.duration_seconds as u64),
    ];
    proof {
        assert(texts(out@) =~= seq![
            "-w"@,
            source_text,
            "-f"@,
            decimal(q.fps as nat),
            "-k"@,
            q.codec@,
            "-c"@,
            "mp4"@,
            "-r"@,
            decimal(q.duration_seconds as nat),
        ]);
    }
    let scale: Vec<String> = match scale_arg(q.out_height) {
        Some(s) => vec!["-s".to_owned(), s.to_owned()],
        None => Vec::new(),
    };
    proof {
        assert(texts(scale@) =~= (match scale_box(q.out_height as int) {
            Some(s) => seq!["-s"@, s],
            None => Seq::empty(),
        }));
    }
    extend(&mut out, scale);
    let rate = vec![
        "-bm".to_owned(),
        "cbr".to_owned(),
        "-q".to_owned(),
        decimal_of(q.bitrate_kbps as u64),
        "-tune".to_owned(),
        "quality".to_owned(),
        "-keyint".to_owned(),
        "2".to_owned(),
    ];
    proof {
        assert(texts(rate@) =~= seq![
            "-bm"@,
            "cbr"@,
            "-q"@,
            decimal(q.bitrate_kbps as nat),
            "-tune"@,
            "quality"@,
            "-keyint"@,
            "2"@,
        ]);
    }
    extend(&mut out, rate);
    let opts: Vec<String> = match &q.video_opts {
        Some(o) => vec!["-ffmpeg-video-opts".to_owned(), o.clone()],
        None => Vec::new(),
    };
    proof {
        assert(texts(opts@) =~= (match opt_text(q.video_opts) {
            Some(o) => seq!["-ffmpeg-video-opts"@, o],
            None => Seq::empty(),
        }));
    }
    extend(&mut out, opts);
    let audio = vec![
        "-a".to_owned(),
        cat3(q.desktop_device.as_str(), "|", q.mic_device.as_str()),
        "-a".to_owned(),
        q.desktop_device.clone(),
        "-a".to_owned(),
        q.mic_device.clone(),
        "-ac".to_owned(),
        "aac".to_owned(),
        "-ab".to_owned(),
        "160".to_owned(),
        "-o".to_owned(),
        q.output_dir.clone(),
    ];
    proof {
        assert(texts(audio@) =~= seq![
            "-a"@,
            q.desktop_device@ + "|"@ + q.mic_device@,
            "-a"@,
            q.desktop_device@,
            "-a"@,
            q.mic_device@,
            "-ac"@,
            "aac"@,
            "-ab"@,
            "160"@,
            "-o"@,
            q.output_dir@,
        ]);
    }
    extend(&mut out, audio);
    out
}

/// One file of the clips directory, with the time it was last written.
pub struct FileStamp {
    pub path: String,
    /// Of its name, without the dot.
    pub extension: Option<String>,
    pub is_file: bool,
    pub modified_ms: Option<i64>,
}

/// A clip that was written at or after a time.
pub open spec fn is_fresh(f: FileStamp, since_ms: i64) -> bool {
    f.is_file && opt_text(f.extension) == Some("mp4"@) && f.modified_ms is Some && f.modified_ms->0
        >= since_ms
}

/// The newest clip written at or after a time. None where there is none: an
/// older clip is never taken for the new one.
pub fn newest_modified_after(files: &Vec<FileStamp>, since_ms: i64) -> (r: Option<usize>)
    ensures
        match r {
            Some(i) => {
                &&& i < files@.len()
                &&& is_fresh(files@[i as int], since_ms)
                &&& forall|j: int|
                    0 <= j < files@.len() && is_fresh(#[trigger] files@[j], since_ms) ==> {
                        &&& files@[j].modified_ms->0 <= files@[i as int].modified_ms->0
                        &&& files@[j].modified_ms->0 == files@[i as int].modified_ms->0 ==> j <= i
                    }
            },
            None => forall|j: int|
                0 <= j < files@.len() ==> !is_fresh(#[trigger] files@[j], since_ms),
        },
{
    let mut best: Option<usize> = None;
    let mut best_time: i64 = 0;
    let mut i: usize = 0;
    while i < files.len()
        invariant
            i <= files@.len(),
            match best {
                Some(b) => {
                    &&& b < i
                    &&& is_fresh(files@[b as int], since_ms)
                    &&& best_time == files@[b as int].modified_ms->0
                    &&& forall|j: int|
                        0 <= j < i && is_fresh(#[trigger] files@[j], since_ms) ==> {
                            &&& files@[j].modified_ms->0 <= best_time
                            &&& files@[j].modified_ms->0 == best_time ==> j <= b
                        }
                },
                None => forall|j: int| 0 <= j < i ==> !is_fresh(#[trigger] files@[j], since_ms),
            },
        decreases files@.len() - i,
    {
        let f = &files[i];
        let is_mp4 = match &f.extension {
            Some(e) => crate::text::same(e.as_str(), "mp4"),
            None => false,
        };
        match f.modified_ms {
            Some(t) => {
                if f.is_file && is_mp4 && t >= since_ms && (best.is_none() || t >= best_time) {
                    best = Some(i);
                    best_time = t;
                }
            },
            None => {},
        }
        i = i + 1;
    }
    best
}

// ---------------------------------------------------------------------------
// Running the recorder
// ---------------------------------------------------------------------------
/// Which recorder is used: one that the environment names, one that stands
/// beside this program, or one that the system finds. A named one that is not
/// there is an error.
pub fn resolve_binary(
    named: Option<String>,
    named_present: bool,
    beside: Option<String>,
    in_path: Result<String, String>,
) -> (r: Result<String, String>)
    ensures
        match named {
            Some(n) => match r {
                Ok(p) => named_present && p@ == n@,
                Err(e) => !named_present && e@ == "MOONCLIP_GSR_BIN points nowhere: "@ + n@,
            },
            None => match beside {
                Some(b) => r matches Ok(p) && p@ == b@,
                None => match in_path {
                    Ok(q) => r matches Ok(p) && p@ == q@,
                    Err(_) => r matches Err(e) && e@
                        == "gpu-screen-recorder not found. Install it (dev) — end users get it bundled."@,
                },
            },
        },
{
    match named {
        Some(n) => if named_present {
            Ok(n)
        } else {
            Err(cat("MOONCLIP_GSR_BIN points nowhere: ", n.as_str()))
        },
        None => match beside {
            Some(b) => Ok(b),
            None => match in_path {
                Ok(q) => Ok(q),
                Err(_) => Err(
                    "gpu-screen-recorder not found. Install it (dev) — end users get it bundled.".to_owned(),
                ),
            },
        },
    }
}

/// The recorder that a search of the system printed, where it found one.
pub fn which_gsr(found: bool, stdout: &[u8]) -> (r: Result<String, String>)
    ensures
        match r {
            Ok(p) => found && p@.len() > 0 && p@ == trim(lossy_text(stdout@)),
            Err(e) => (!found || trim(lossy_text(stdout@)).len() == 0) && e@ == "not in PATH"@,
        },
{
    if !found {
        return Err("not in PATH".to_owned());
    }
    let text = crate::text::from_utf8_lossy(stdout);
    let path = trimmed(text.as_str());
    if path.as_str().is_empty() {
        Err("not in PATH".to_owned())
    } else {
        Ok(path)
    }
}

/// How long a clip may take to appear after the recorder was told to save.
pub const CLIP_WAIT_MS: u64 = 5_000;

/// What is to be done while the recorder saves.
pub enum RecorderSave {
    /// This file is the clip.
    Written(usize),
    /// Look again.
    Again,
    Fail(String),
}

/// What is to be done while the recorder saves: a fresh clip is taken as soon
/// as it is there, and after a while the save has failed.
pub fn recorder_save(files: &Vec<FileStamp>, since_ms: i64, elapsed_ms: u64) -> (r: RecorderSave)
    ensures
        match r {
            RecorderSave::Written(i) => {
                &&& i < files@.len()
                &&& is_fresh(files@[i as int], since_ms)
                &&& forall|j: int|
                    0 <= j < files@.len() && is_fresh(#[trigger] files@[j], since_ms) ==> {
                        &&& files@[j].modified_ms->0 <= files@[i as int].modified_ms->0
                        &&& files@[j].modified_ms->0 == files@[i as int].modified_ms->0 ==> j <= i
                    }
            },
            RecorderSave::Again => elapsed_ms < CLIP_WAIT_MS && forall|j: int|
                0 <= j < files@.len() ==> !is_fresh(#[trigger] files@[j], since_ms),
            RecorderSave::Fail(e) => {
                &&& elapsed_ms >= CLIP_WAIT_MS
                &&& e@ == "no clip file appeared within 5 s of the save signal"@
                &&& forall|j: int|
                    0 <= j < files@.len() ==> !is_fresh(#[trigger] files@[j], since_ms)
            },
        },
{
    match newest_modified_after(files, since_ms) {
        Some(i) => RecorderSave::Written(i),
        None => if elapsed_ms >= CLIP_WAIT_MS {
            RecorderSave::Fail("no clip file appeared within 5 s of the save signal".to_owned())
        } else {
            RecorderSave::Again
        },
    }
}

} // verus!
