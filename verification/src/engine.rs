//! The decisions of the recording engine: starting the private OBS step by
//! step, following the size of what is captured, and telling why it stopped.

use vstd::prelude::*;

use crate::encoder_options::opt_str;
use crate::profile::{even, even_of, scaled_width, width_for};
use crate::render::{GAME_SOURCE_NAME, MIC_SOURCE_NAME, SCENE_NAME};
use crate::text::{
    cat, cat3, cat5, contains, has, lines, lines_of, lowercase, opt_text, same, texts,
};

verus! {

broadcast use vstd::string::group_string_axioms;

// ---------------------------------------------------------------------------
// Sources
// ---------------------------------------------------------------------------
/// The audio source of a mixer track.
pub open spec fn track_source(track: Seq<char>) -> Option<Seq<char>> {
    if track == "game"@ {
        Some(GAME_SOURCE_NAME@)
    } else if track == "mic"@ {
        Some(MIC_SOURCE_NAME@)
    } else {
        None
    }
}

/// Audio source of a mixer track.
pub fn volume_source(track: &str) -> (r: Option<&'static str>)
    ensures
        opt_str(r) == track_source(track@),
{
    if same(track, "game") {
        Some(GAME_SOURCE_NAME)
    } else if same(track, "mic") {
        Some(MIC_SOURCE_NAME)
    } else {
        None
    }
}

/// Audio source of a mixer track, or the error for one that there is not.
pub fn require_source(track: &str) -> (r: Result<&'static str, String>)
    ensures
        match r {
            Ok(s) => track_source(track@) == Some(s@),
            Err(e) => track_source(track@) is None && e@ == "unknown track '"@ + track@ + "'"@,
        },
{
    match volume_source(track) {
        Some(s) => Ok(s),
        None => Err(cat3("unknown track '", track, "'")),
    }
}

// ---------------------------------------------------------------------------
// Captured size
// ---------------------------------------------------------------------------
/// The number that four bytes write, the highest first.
pub open spec fn big_endian(b: Seq<u8>, at: int) -> int {
    b[at] * 0x100_0000 + b[at + 1] * 0x1_0000 + b[at + 2] * 0x100 + b[at + 3]
}

/// The bytes are those of a PNG image that starts with its header.
pub open spec fn is_png(b: Seq<u8>) -> bool {
    &&& b.len() >= 24
    &&& b[0] == 0x89 && b[1] == 0x50 && b[2] == 0x4e && b[3] == 0x47
    &&& b[4] == 0x0d && b[5] == 0x0a && b[6] == 0x1a && b[7] == 0x0a
    &&& b[12] == 0x49 && b[13] == 0x48 && b[14] == 0x44 && b[15] == 0x52
}

/// The width and height of a PNG image that has both.
pub open spec fn png_size(b: Seq<u8>) -> Option<(int, int)> {
    if is_png(b) && big_endian(b, 16) > 0 && big_endian(b, 20) > 0 {
        Some((big_endian(b, 16), big_endian(b, 20)))
    } else {
        None
    }
}

fn read_big_endian(b: &[u8], at: usize) -> (r: u32)
    requires
        at + 4 <= b@.len(),
        at <= 100,
    ensures
        r == big_endian(b@, at as int),
{
    b[at] as u32 * 0x100_0000 + b[at + 1] as u32 * 0x1_0000 + b[at + 2] as u32 * 0x100 + b[at
        + 3] as u32
}

/// Width and height out of the header of a PNG image.
pub fn png_dimensions(bytes: &[u8]) -> (r: Option<(u32, u32)>)
    ensures
        match r {
            Some((w, h)) => png_size(bytes@) == Some((w as int, h as int)),
            None => png_size(bytes@) is None,
        },
{
    if bytes.len() < 24 {
        return None;
    }
    let magic = bytes[0] == 0x89 && bytes[1] == 0x50 && bytes[2] == 0x4e && bytes[3] == 0x47
        && bytes[4] == 0x0d && bytes[5] == 0x0a && bytes[6] == 0x1a && bytes[7] == 0x0a;
    let header = bytes[12] == 0x49 && bytes[13] == 0x48 && bytes[14] == 0x44 && bytes[15] == 0x52;
    if !magic || !header {
        return None;
    }
    let w: u32 = read_big_endian(bytes, 16);
    let h: u32 = read_big_endian(bytes, 20);
    if w > 0 && h > 0 {
        Some((w, h))
    } else {
        None
    }
}

/// The sizes of a running session.
pub struct Canvas {
    pub base_width: u32,
    pub base_height: u32,
    pub out_width: u32,
    pub out_height: u32,
}

/// What a running session's sizes become.
pub struct CanvasModel {
    pub base_width: int,
    pub base_height: int,
    pub out_width: int,
    pub out_height: int,
}

impl View for Canvas {
    type V = CanvasModel;

    open spec fn view(&self) -> CanvasModel {
        CanvasModel {
            base_width: self.base_width as int,
            base_height: self.base_height as int,
            out_width: self.out_width as int,
            out_height: self.out_height as int,
        }
    }
}

/// The sizes that a captured source of `w` by `h` asks for: an output that
/// follows the source takes its height, another keeps its own up to that
/// height, and the width follows the aspect. None where the base stays.
pub open spec fn canvas_for(now: CanvasModel, out_source: bool, w: int, h: int) -> Option<CanvasModel> {
    let bw = even_of(w);
    let bh = even_of(h);
    if bw == now.base_width && bh == now.base_height {
        None
    } else {
        let out_h = if out_source {
            bh
        } else if now.out_height < bh {
            even_of(now.out_height)
        } else {
            even_of(bh)
        };
        Some(
            CanvasModel {
                base_width: bw,
                base_height: bh,
                out_width: width_for(bw, bh, out_h),
                out_height: out_h,
            },
        )
    }
}

/// Sizes that a captured source asks for. None where they stay as they are.
pub fn learn_canvas(now: &Canvas, out_source: bool, w: u32, h: u32) -> (r: Option<Canvas>)
    ensures
        match r {
            Some(c) => canvas_for(now@, out_source, w as int, h as int) == Some(c@),
            None => canvas_for(now@, out_source, w as int, h as int) is None,
        },
{
    let bw: u32 = even(w);
    let bh: u32 = even(h);
    if bw == now.base_width && bh == now.base_height {
        return None;
    }
    let out_h: u32 = if out_source {
        bh
    } else if now.out_height < bh {
        even(now.out_height)
    } else {
        even(bh)
    };
    Some(
        Canvas {
            base_width: bw,
            base_height: bh,
            out_width: scaled_width(bw, bh, out_h),
            out_height: out_h,
        },
    )
}

// ---------------------------------------------------------------------------
// Log
// ---------------------------------------------------------------------------
/// The last lines of a log, at most 40.
pub open spec fn log_tail_of(text: Seq<char>) -> Seq<Seq<char>> {
    let all = lines(text);
    if all.len() > 40 {
        all.skip(all.len() - 40)
    } else {
        all
    }
}

/// Last lines of a log, at most 40.
pub fn log_tail(text: &str) -> (r: Vec<String>)
    ensures
        texts(r@) == log_tail_of(text@),
{
    let all = lines_of(text);
    let ghost model = texts(all@);
    let start: usize = if all.len() > 40 {
        all.len() - 40
    } else {
        0
    };
    let mut out: Vec<String> = Vec::new();
    let mut i: usize = start;
    while i < all.len()
        invariant
            model == texts(all@),
            start <= i <= all@.len(),
            texts(out@) =~= model.subrange(start as int, i as int),
        decreases all@.len() - i,
    {
        let ghost before = out@;
        out.push(all[i].clone());
        proof {
            assert(texts(out@) =~= texts(before).push(model[i as int]));
        }
        i = i + 1;
    }
    proof {
        assert(texts(out@) =~= log_tail_of(text@));
    }
    out
}

/// One log file with the time it was last written.
pub struct LogFile {
    pub is_text: bool,
    pub modified_ms: Option<i64>,
}

/// A log file that can be the newest.
pub open spec fn is_log(f: LogFile) -> bool {
    f.is_text && f.modified_ms is Some
}

/// The newest log file, the first of those written at the same time.
pub fn newest_log(files: &Vec<LogFile>) -> (r: Option<usize>)
    ensures
        match r {
            Some(i) => {
                &&& i < files@.len()
                &&& is_log(files@[i as int])
                &&& forall|j: int|
                    0 <= j < files@.len() && is_log(#[trigger] files@[j]) ==> {
                        &&& files@[j].modified_ms->0 <= files@[i as int].modified_ms->0
                        &&& files@[j].modified_ms->0 == files@[i as int].modified_ms->0 ==> i <= j
                    }
            },
            None => forall|j: int| 0 <= j < files@.len() ==> !is_log(#[trigger] files@[j]),
        },
{
    let mut best: Option<usize> = None;
    let mut best_time: i64 = 0;
    let mut i: usize = 0;
    while i < files.len()
        invariant
            i <= files@.len(),
            match best {
                Some(b) => {
                    &&& b < i
                    &&& is_log(files@[b as int])
                    &&& best_time == files@[b as int].modified_ms->0
                    &&& forall|j: int|
                        0 <= j < i && is_log(#[trigger] files@[j]) ==> {
                            &&& files@[j].modified_ms->0 <= best_time
                            &&& files@[j].modified_ms->0 == best_time ==> b <= j
                        }
                },
                None => forall|j: int| 0 <= j < i ==> !is_log(#[trigger] files@[j]),
            },
        decreases files@.len() - i,
    {
        match files[i].modified_ms {
            Some(t) => {
                if files[i].is_text && (best.is_none() || t > best_time) {
                    best = Some(i);
                    best_time = t;
                }
            },
            None => {},
        }
        i = i + 1;
    }
    best
}

/// A line, in lower case, tells of trouble.
pub open spec fn tells_trouble(lowered: Seq<char>) -> bool {
    contains(lowered, "error"@) || contains(lowered, "failed"@) || contains(lowered, "warning"@)
}

/// Whether a line, in lower case, tells of trouble.
pub fn is_trouble(lowered: &str) -> (r: bool)
    ensures
        r == tells_trouble(lowered@),
{
    has(lowered, "error") || has(lowered, "failed") || has(lowered, "warning")
}

/// The last line that tells of trouble.
pub open spec fn last_trouble(tail: Seq<Seq<char>>) -> Option<Seq<char>>
    decreases tail.len(),
{
    if tail.len() == 0 {
        None
    } else if tells_trouble(lowercase(tail.last())) {
        Some(tail.last())
    } else {
        last_trouble(tail.drop_last())
    }
}

/// Last line that tells of trouble.
pub fn find_trouble(tail: &Vec<String>) -> (r: Option<String>)
    ensures
        opt_text(r) == last_trouble(texts(tail@)),
{
    let ghost all = texts(tail@);
    let mut n: usize = tail.len();
    proof {
        assert(all.take(n as int) =~= all);
    }
    while n > 0
        invariant
            all == texts(tail@),
            n <= tail@.len(),
            last_trouble(all) == last_trouble(all.take(n as int)),
        decreases n,
    {
        let line = &tail[n - 1];
        proof {
            assert(all.take(n as int).drop_last() =~= all.take(n - 1));
            assert(all.take(n as int).last() == line@);
        }
        let lowered = line.as_str().to_lowercase();
        if is_trouble(lowered.as_str()) {
            return Some(line.clone());
        }
        n = n - 1;
    }
    None
}

/// Why the engine stopped, by its last lines.
pub open spec fn death_reason(tail: Seq<Seq<char>>) -> Seq<char> {
    match last_trouble(tail) {
        Some(line) => "capture engine exited: "@ + line,
        None => "capture engine exited unexpectedly"@,
    }
}

/// Why the engine stopped, by its last lines.
pub fn engine_death_reason(tail: &Vec<String>) -> (r: String)
    ensures
        r@ == death_reason(texts(tail@)),
{
    match find_trouble(tail) {
        Some(line) => cat("capture engine exited: ", line.as_str()),
        None => "capture engine exited unexpectedly".to_owned(),
    }
}

/// An error with the last line of the log that tells of trouble.
pub open spec fn with_hint(message: Seq<char>, tail: Seq<Seq<char>>) -> Seq<char> {
    match last_trouble(tail) {
        Some(line) => message + " | OBS: "@ + line,
        None => message,
    }
}

fn add_hint(message: &str, tail: &Vec<String>) -> (r: String)
    ensures
        r@ == with_hint(message@, texts(tail@)),
{
    match find_trouble(tail) {
        Some(line) => cat3(message, " | OBS: ", line.as_str()),
        None => message.to_owned(),
    }
}

// ---------------------------------------------------------------------------
// Starting
// ---------------------------------------------------------------------------
/// How long OBS has to create our configuration.
pub const CONFIG_GUARD_MS: u64 = 12_000;

/// How long OBS has to open its websocket.
pub const OBS_BOOT_MS: u64 = 45_000;

/// How long the replay output has to become active.
pub const OUTPUT_WAIT_MS: u64 = 6_000;

/// How far a start has come.
#[derive(Debug, Clone, Copy, PartialEq, Eq, Structural)]
pub enum StartPhase {
    /// OBS is launched. Its configuration must appear below our root.
    Config,
    /// The websocket must open.
    Connect,
    /// The replay buffer is asked to start.
    Start,
    /// It is asked once more after a pause.
    Restart,
    /// The output must become active.
    Output,
    /// The program scene must be ours.
    Scene,
}

/// What happened since.
pub enum StartEvent {
    ConfigSeen,
    ConfigMissing { elapsed_ms: u64 },
    Exited { status: String },
    Connected,
    NotConnected { elapsed_ms: u64 },
    Started,
    Refused { error: String },
    Active,
    Inactive { elapsed_ms: u64 },
    SceneIs { name: String },
    SceneUnknown,
}

/// What an event stands for.
pub enum EventModel {
    ConfigSeen,
    ConfigMissing(nat),
    Exited(Seq<char>),
    Connected,
    NotConnected(nat),
    Started,
    Refused(Seq<char>),
    Active,
    Inactive(nat),
    SceneIs(Seq<char>),
    SceneUnknown,
}

impl View for StartEvent {
    type V = EventModel;

    open spec fn view(&self) -> EventModel {
        match *self {
            StartEvent::ConfigSeen => EventModel::ConfigSeen,
            StartEvent::ConfigMissing { elapsed_ms } => EventModel::ConfigMissing(
                elapsed_ms as nat,
            ),
            StartEvent::Exited { status } => EventModel::Exited(status@),
            StartEvent::Connected => EventModel::Connected,
            StartEvent::NotConnected { elapsed_ms } => EventModel::NotConnected(elapsed_ms as nat),
            StartEvent::Started => EventModel::Started,
            StartEvent::Refused { error } => EventModel::Refused(error@),
            StartEvent::Active => EventModel::Active,
            StartEvent::Inactive { elapsed_ms } => EventModel::Inactive(elapsed_ms as nat),
            StartEvent::SceneIs { name } => EventModel::SceneIs(name@),
            StartEvent::SceneUnknown => EventModel::SceneUnknown,
        }
    }
}

/// What comes next.
pub enum StartStep {
    /// Wait and look again.
    Again,
    /// Go on with the phase.
    Next(StartPhase),
    /// The buffer runs.
    Done,
    /// Give up. `stop` tells whether what was launched is still to be stopped.
    Fail { stop: bool, message: String },
}

/// What a step stands for.
pub enum StepModel {
    Again,
    Next(StartPhase),
    Done,
    Fail(bool, Seq<char>),
}

impl View for StartStep {
    type V = StepModel;

    open spec fn view(&self) -> StepModel {
        match *self {
            StartStep::Again => StepModel::Again,
            StartStep::Next(p) => StepModel::Next(p),
            StartStep::Done => StepModel::Done,
            StartStep::Fail { stop, message } => StepModel::Fail(stop, message@),
        }
    }
}

/// The error where OBS does not use our configuration.
pub open spec fn guard_message(marker: Seq<char>, tail: Seq<Seq<char>>) -> Seq<char> {
    let e = "OBS did not create its isolated config ("@ + marker
        + "); refusing to run so the user's OBS config is never touched"@;
    if tail.len() > 0 {
        e + " | last log: "@ + tail.last()
    } else {
        e
    }
}

/// The error where OBS exits on its own.
pub open spec fn exit_message(status: Seq<char>, tail: Seq<Seq<char>>) -> Seq<char> {
    let e = "embedded OBS exited during startup ("@ + status + ")"@;
    if tail.len() > 0 {
        e + ": "@ + tail.last()
    } else {
        e
    }
}

/// The error where another scene is on program.
pub open spec fn scene_message(name: Seq<char>) -> Seq<char> {
    "OBS program scene is '"@ + name + "', expected '"@ + SCENE_NAME@ + "' (would record black)"@
}

/// What comes next in a start, given its phase, what happened, the directory
/// that proves our configuration, and the last lines of the log. An event that
/// does not belong to the phase changes nothing.
pub open spec fn step_of(
    phase: StartPhase,
    event: EventModel,
    marker: Seq<char>,
    tail: Seq<Seq<char>>,
) -> StepModel {
    match (phase, event) {
        (StartPhase::Config, EventModel::ConfigSeen) => StepModel::Next(StartPhase::Connect),
        (StartPhase::Config, EventModel::ConfigMissing(t)) => if t < CONFIG_GUARD_MS {
            StepModel::Again
        } else {
            StepModel::Fail(true, guard_message(marker, tail))
        },
        (StartPhase::Connect, EventModel::Exited(status)) => StepModel::Fail(
            false,
            exit_message(status, tail),
        ),
        (StartPhase::Connect, EventModel::Connected) => StepModel::Next(StartPhase::Start),
        (StartPhase::Connect, EventModel::NotConnected(t)) => if t < OBS_BOOT_MS {
            StepModel::Again
        } else {
            StepModel::Fail(true, "embedded OBS websocket did not come up within 45 s"@)
        },
        (StartPhase::Start, EventModel::Started) => StepModel::Next(StartPhase::Output),
        (StartPhase::Start, EventModel::Refused(_)) => StepModel::Next(StartPhase::Restart),
        (StartPhase::Restart, EventModel::Started) => StepModel::Next(StartPhase::Output),
        (StartPhase::Restart, EventModel::Refused(e)) => StepModel::Fail(true, with_hint(e, tail)),
        (StartPhase::Output, EventModel::Active) => StepModel::Next(StartPhase::Scene),
        (StartPhase::Output, EventModel::Inactive(t)) => if t < OUTPUT_WAIT_MS {
            StepModel::Again
        } else {
            StepModel::Fail(
                true,
                with_hint(
                    "OBS accepted replay start but the output is not running (a first-run/auto-config dialog or an encoder error blocks it)"@,
                    tail,
                ),
            )
        },
        (StartPhase::Scene, EventModel::SceneIs(name)) => if name == SCENE_NAME@ {
            StepModel::Done
        } else {
            StepModel::Fail(true, with_hint(scene_message(name), tail))
        },
        (StartPhase::Scene, EventModel::SceneUnknown) => StepModel::Done,
        _ => StepModel::Again,
    }
}

fn guard_error(marker: &str, tail: &Vec<String>) -> (r: String)
    ensures
        r@ == guard_message(marker@, texts(tail@)),
{
    let e = cat3(
        "OBS did not create its isolated config (",
        marker,
        "); refusing to run so the user's OBS config is never touched",
    );
    proof {
        assert(texts(tail@).len() == tail@.len());
    }
    if tail.len() > 0 {
        proof {
            assert(texts(tail@).last() == tail@.last()@);
        }
        cat3(e.as_str(), " | last log: ", tail[tail.len() - 1].as_str())
    } else {
        e
    }
}

fn exit_error(status: &str, tail: &Vec<String>) -> (r: String)
    ensures
        r@ == exit_message(status@, texts(tail@)),
{
    let e = cat3("embedded OBS exited during startup (", status, ")");
    proof {
        assert(texts(tail@).len() == tail@.len());
    }
    if tail.len() > 0 {
        proof {
            assert(texts(tail@).last() == tail@.last()@);
        }
        cat3(e.as_str(), ": ", tail[tail.len() - 1].as_str())
    } else {
        e
    }
}

/// What comes next in a start.
pub fn start_step(phase: StartPhase, event: &StartEvent, marker: &str, tail: &Vec<String>) -> (r:
    StartStep)
    ensures
        r@ == step_of(phase, event@, marker@, texts(tail@)),
{
    match phase {
        StartPhase::Config => match event {
            StartEvent::ConfigSeen => StartStep::Next(StartPhase::Connect),
            StartEvent::ConfigMissing { elapsed_ms } => {
                if *elapsed_ms < CONFIG_GUARD_MS {
                    StartStep::Again
                } else {
                    StartStep::Fail { stop: true, message: guard_error(marker, tail) }
                }
            },
            _ => StartStep::Again,
        },
        StartPhase::Connect => match event {
            StartEvent::Exited { status } => StartStep::Fail {
                stop: false,
                message: exit_error(status.as_str(), tail),
            },
            StartEvent::Connected => StartStep::Next(StartPhase::Start),
            StartEvent::NotConnected { elapsed_ms } => {
                if *elapsed_ms < OBS_BOOT_MS {
                    StartStep::Again
                } else {
                    StartStep::Fail {
                        stop: true,
                        message: "embedded OBS websocket did not come up within 45 s".to_owned(),
                    }
                }
            },
            _ => StartStep::Again,
        },
        StartPhase::Start => match event {
            StartEvent::Started => StartStep::Next(StartPhase::Output),
            StartEvent::Refused { .. } => StartStep::Next(StartPhase::Restart),
            _ => StartStep::Again,
        },
        StartPhase::Restart => match event {
            StartEvent::Started => StartStep::Next(StartPhase::Output),
            StartEvent::Refused { error } => StartStep::Fail {
                stop: true,
                message: add_hint(error.as_str(), tail),
            },
            _ => StartStep::Again,
        },
        StartPhase::Output => match event {
            StartEvent::Active => StartStep::Next(StartPhase::Scene),
            StartEvent::Inactive { elapsed_ms } => {
                if *elapsed_ms < OUTPUT_WAIT_MS {
                    StartStep::Again
                } else {
                    StartStep::Fail {
                        stop: true,
                        message: add_hint(
                            "OBS accepted replay start but the output is not running (a first-run/auto-config dialog or an encoder error blocks it)",
                            tail,
                        ),
                    }
                }
            },
            _ => StartStep::Again,
        },
        StartPhase::Scene => match event {
            StartEvent::SceneIs { name } => {
                if same(name.as_str(), SCENE_NAME) {
                    StartStep::Done
                } else {
                    let e = cat5(
                        "OBS program scene is '",
                        name.as_str(),
                        "', expected '",
                        SCENE_NAME,
                        "' (would record black)",
                    );
                    StartStep::Fail { stop: true, message: add_hint(e.as_str(), tail) }
                }
            },
            StartEvent::SceneUnknown => StartStep::Done,
            _ => StartStep::Again,
        },
    }
}

/// Where a start stands.
pub enum Progress {
    At(StartPhase),
    Running,
    Failed(bool, Seq<char>),
}

/// Where a start stands after what happened in it.
pub open spec fn progress(
    events: Seq<EventModel>,
    marker: Seq<char>,
    tail: Seq<Seq<char>>,
) -> Progress
    decreases events.len(),
{
    if events.len() == 0 {
        Progress::At(StartPhase::Config)
    } else {
        let before = progress(events.drop_last(), marker, tail);
        match before {
            Progress::At(phase) => match step_of(phase, events.last(), marker, tail) {
                StepModel::Again => Progress::At(phase),
                StepModel::Next(p) => Progress::At(p),
                StepModel::Done => Progress::Running,
                StepModel::Fail(stop, m) => Progress::Failed(stop, m),
            },
            _ => before,
        }
    }
}

/// The event happened.
pub open spec fn happened(events: Seq<EventModel>, e: EventModel) -> bool {
    exists|i: int| 0 <= i < events.len() && #[trigger] events[i] == e
}

/// Our configuration was seen, and the websocket opened.
pub open spec fn is_connected(events: Seq<EventModel>) -> bool {
    happened(events, EventModel::ConfigSeen) && happened(events, EventModel::Connected)
}

/// The scene was ours, or could not be read.
pub open spec fn scene_cleared(events: Seq<EventModel>) -> bool {
    happened(events, EventModel::SceneIs(SCENE_NAME@)) || happened(events, EventModel::SceneUnknown)
}

proof fn lemma_happened_more(events: Seq<EventModel>, e: EventModel)
    requires
        events.len() > 0,
    ensures
        happened(events.drop_last(), e) ==> happened(events, e),
        events.last() == e ==> happened(events, e),
{
    let init = events.drop_last();
    if happened(init, e) {
        let i = choose|i: int| 0 <= i < init.len() && #[trigger] init[i] == e;
        assert(events[i] == e);
    }
    if events.last() == e {
        assert(events[events.len() - 1] == e);
    }
}

/// A buffer counts as running only after OBS was seen to use our own
/// configuration, the websocket opened, the replay was accepted, its output was
/// active, and the program scene was ours or could not be read. A start that is
/// past a phase has passed all before it.
pub proof fn law_running_means_all_checks_passed(
    events: Seq<EventModel>,
    marker: Seq<char>,
    tail: Seq<Seq<char>>,
)
    ensures
        match progress(events, marker, tail) {
            Progress::At(StartPhase::Config) => true,
            Progress::At(StartPhase::Connect) => happened(events, EventModel::ConfigSeen),
            Progress::At(StartPhase::Start) => is_connected(events),
            Progress::At(StartPhase::Restart) => is_connected(events),
            Progress::At(StartPhase::Output) => is_connected(events) && happened(
                events,
                EventModel::Started,
            ),
            Progress::At(StartPhase::Scene) => is_connected(events) && happened(
                events,
                EventModel::Started,
            ) && happened(events, EventModel::Active),
            Progress::Running => is_connected(events) && happened(events, EventModel::Started)
                && happened(events, EventModel::Active) && scene_cleared(events),
            Progress::Failed(_, _) => true,
        },
    decreases events.len(),
{
    if events.len() > 0 {
        law_running_means_all_checks_passed(events.drop_last(), marker, tail);
        lemma_happened_more(events, EventModel::ConfigSeen);
        lemma_happened_more(events, EventModel::Connected);
        lemma_happened_more(events, EventModel::Started);
        lemma_happened_more(events, EventModel::Active);
        lemma_happened_more(events, EventModel::SceneIs(SCENE_NAME@));
        lemma_happened_more(events, EventModel::SceneUnknown);
    }
}

/// A start that ended stays as it ended, whatever is reported afterwards.
pub proof fn law_an_ended_start_stays_ended(
    events: Seq<EventModel>,
    later: EventModel,
    marker: Seq<char>,
    tail: Seq<Seq<char>>,
)
    requires
        !(progress(events, marker, tail) is At),
    ensures
        progress(events.push(later), marker, tail) == progress(events, marker, tail),
{
    assert(events.push(later).drop_last() =~= events);
}

/// Whatever phase a start is in, waiting ends: a report of the phase's full
/// waiting time never asks to wait on.
pub proof fn law_waiting_ends(phase: StartPhase, t: nat, marker: Seq<char>, tail: Seq<Seq<char>>)
    requires
        t >= 45_000,
    ensures
        phase == StartPhase::Config ==> step_of(phase, EventModel::ConfigMissing(t), marker, tail)
            is Fail,
        phase == StartPhase::Connect ==> step_of(phase, EventModel::NotConnected(t), marker, tail)
            is Fail,
        phase == StartPhase::Output ==> step_of(phase, EventModel::Inactive(t), marker, tail) is Fail,
{
}

// ---------------------------------------------------------------------------
// Saving
// ---------------------------------------------------------------------------
/// How long OBS has to write a replay to disk.
pub const REPLAY_SAVE_MS: u64 = 45_000;

/// The reported replay is a new one: it has a path, another than before.
pub open spec fn is_new_replay(before: Option<Seq<char>>, now: Seq<char>) -> bool {
    now.len() > 0 && before != Some(now)
}

/// What comes next while a replay is written.
pub enum SaveStep {
    Written(String),
    Again,
    Fail(String),
}

/// What a step of a save stands for.
pub enum SaveModel {
    Written(Seq<char>),
    Again,
    Fail(Seq<char>),
}

impl View for SaveStep {
    type V = SaveModel;

    open spec fn view(&self) -> SaveModel {
        match *self {
            SaveStep::Written(p) => SaveModel::Written(p@),
            SaveStep::Again => SaveModel::Again,
            SaveStep::Fail(e) => SaveModel::Fail(e@),
        }
    }
}

/// What comes next while a replay is written.
pub open spec fn save_step_of(
    before: Option<Seq<char>>,
    now: Option<Seq<char>>,
    elapsed_ms: nat,
) -> SaveModel {
    if now is Some && is_new_replay(before, now->0) {
        SaveModel::Written(now->0)
    } else if elapsed_ms >= REPLAY_SAVE_MS {
        SaveModel::Fail("replay saved but no new file appeared within 45 s"@)
    } else {
        SaveModel::Again
    }
}

/// What comes next while a replay is written: `now` is the path that OBS
/// reports, where it reports one.
pub fn save_step(before: Option<&str>, now: Option<&str>, elapsed_ms: u64) -> (r: SaveStep)
    ensures
        r@ == save_step_of(opt_str(before), opt_str(now), elapsed_ms as nat),
{
    match now {
        Some(path) => {
            let known = match before {
                Some(b) => same(b, path),
                None => false,
            };
            if !path.is_empty() && !known {
                return SaveStep::Written(path.to_owned());
            }
        },
        None => {},
    }
    if elapsed_ms >= REPLAY_SAVE_MS {
        SaveStep::Fail("replay saved but no new file appeared within 45 s".to_owned())
    } else {
        SaveStep::Again
    }
}

/// The scene that OBS reports, which must have a name.
pub fn require_scene_name(name: &str) -> (r: Result<String, String>)
    ensures
        match r {
            Ok(s) => name@.len() > 0 && s@ == name@,
            Err(e) => name@.len() == 0 && e@ == "OBS reported no current program scene"@,
        },
{
    if name.is_empty() {
        Err("OBS reported no current program scene".to_owned())
    } else {
        Ok(name.to_owned())
    }
}

/// A save can be asked of an engine that runs and whose control channel is open.
pub fn check_save(running: bool, connected: bool) -> (r: Result<(), String>)
    ensures
        match r {
            Ok(_) => running && connected,
            Err(e) => if !running {
                e@ == "recorder not running"@
            } else {
                !connected && e@ == "obs-websocket not connected"@
            },
        },
{
    if !running {
        Err("recorder not running".to_owned())
    } else if !connected {
        Err("obs-websocket not connected".to_owned())
    } else {
        Ok(())
    }
}

/// A replay counts as saved once its file is on disk.
pub fn check_saved_file(path: &str, on_disk: bool) -> (r: Result<String, String>)
    ensures
        match r {
            Ok(p) => on_disk && p@ == path@,
            Err(e) => !on_disk && e@ == "OBS reported a saved replay that is not on disk: "@ + path@,
        },
{
    if on_disk {
        Ok(path.to_owned())
    } else {
        Err(cat("OBS reported a saved replay that is not on disk: ", path))
    }
}

/// The end of the log, followed by the error that this program keeps of the engine.
pub fn log_with_error(tail: Vec<String>, error: &Option<String>) -> (r: Vec<String>)
    ensures
        texts(r@) == match opt_text(*error) {
            Some(e) => texts(tail@).push("moonclip: "@ + e),
            None => texts(tail@),
        },
{
    let mut out = tail;
    match error {
        Some(e) => {
            let ghost before = texts(out@);
            out.push(cat("moonclip: ", e.as_str()));
            proof {
                assert(texts(out@) =~= before.push("moonclip: "@ + e@));
            }
        },
        None => {},
    }
    out
}

} // verus!
