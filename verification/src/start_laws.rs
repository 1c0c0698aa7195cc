//! How long a start waits, what it ends with, and what a save ends with.

use vstd::prelude::*;

use crate::engine::{
    canvas_for, death_reason, last_trouble, log_tail_of, png_size, progress, save_step_of, step_of,
    track_source, with_hint, CanvasModel, EventModel, Progress, SaveModel, StartPhase, StepModel,
};
use crate::profile::{linked_tracks, recorded_tracks, width_for};
use crate::session::{source_step_of, status_of, version_line, SourceWait};
use crate::text::{contains, lines, lossy_text, lowercase, occurs_at, trim};

verus! {

broadcast use vstd::string::group_string_axioms;

// ---------------------------------------------------------------------------
// Waiting
// ---------------------------------------------------------------------------
/// Waiting is not cut short: twelve seconds for the configuration, 45 for the
/// websocket and six for the output. Once they are over the start fails, and
/// what was launched is stopped.
pub proof fn law_waiting_is_not_cut_short(t: nat, marker: Seq<char>, tail: Seq<Seq<char>>)
    ensures
        t < 12_000 <==> step_of(StartPhase::Config, EventModel::ConfigMissing(t), marker, tail)
            == StepModel::Again,
        t < 45_000 <==> step_of(StartPhase::Connect, EventModel::NotConnected(t), marker, tail)
            == StepModel::Again,
        t < 6_000 <==> step_of(StartPhase::Output, EventModel::Inactive(t), marker, tail)
            == StepModel::Again,
        t >= 12_000 ==> (step_of(StartPhase::Config, EventModel::ConfigMissing(t), marker, tail)
            matches StepModel::Fail(stop, _) && stop),
        t >= 45_000 ==> (step_of(StartPhase::Connect, EventModel::NotConnected(t), marker, tail)
            matches StepModel::Fail(stop, _) && stop),
        t >= 6_000 ==> (step_of(StartPhase::Output, EventModel::Inactive(t), marker, tail)
            matches StepModel::Fail(stop, _) && stop),
{
}

/// Events that find each thing missing, at the given times.
pub open spec fn config_waits(times: Seq<nat>) -> Seq<EventModel> {
    times.map_values(|t: nat| EventModel::ConfigMissing(t))
}

pub open spec fn connect_waits(times: Seq<nat>) -> Seq<EventModel> {
    times.map_values(|t: nat| EventModel::NotConnected(t))
}

pub open spec fn output_waits(times: Seq<nat>) -> Seq<EventModel> {
    times.map_values(|t: nat| EventModel::Inactive(t))
}

pub open spec fn all_below(times: Seq<nat>, limit: nat) -> bool {
    forall|i: int| 0 <= i < times.len() ==> #[trigger] times[i] < limit
}

proof fn lemma_waits(
    events: Seq<EventModel>,
    more: Seq<EventModel>,
    phase: StartPhase,
    marker: Seq<char>,
    tail: Seq<Seq<char>>,
)
    requires
        progress(events, marker, tail) == Progress::At(phase),
        forall|i: int|
            0 <= i < more.len() ==> step_of(phase, #[trigger] more[i], marker, tail)
                == StepModel::Again,
    ensures
        progress(events + more, marker, tail) == Progress::At(phase),
    decreases more.len(),
{
    if more.len() == 0 {
        assert(events + more =~= events);
    } else {
        let init = more.drop_last();
        assert forall|i: int| 0 <= i < init.len() implies step_of(
            phase,
            #[trigger] init[i],
            marker,
            tail,
        ) == StepModel::Again by {
            assert(init[i] == more[i]);
        }
        lemma_waits(events, init, phase, marker, tail);
        assert((events + more).drop_last() =~= events + init);
        assert((events + more).last() == more[more.len() - 1]);
    }
}

proof fn lemma_goes_on(
    events: Seq<EventModel>,
    e: EventModel,
    marker: Seq<char>,
    tail: Seq<Seq<char>>,
)
    ensures
        progress(events.push(e), marker, tail) == match progress(events, marker, tail) {
            Progress::At(phase) => match step_of(phase, e, marker, tail) {
                StepModel::Again => Progress::At(phase),
                StepModel::Next(p) => Progress::At(p),
                StepModel::Done => Progress::Running,
                StepModel::Fail(stop, m) => Progress::Failed(stop, m),
            },
            other => other,
        },
{
    assert(events.push(e).drop_last() =~= events);
}

/// How the start of the buffer went: accepted at once, or after one refusal.
pub open spec fn accepted(refused_once: Option<Seq<char>>) -> Seq<EventModel> {
    match refused_once {
        None => seq![EventModel::Started],
        Some(e) => seq![EventModel::Refused(e), EventModel::Started],
    }
}

/// The events of a start up to the output being active.
pub open spec fn until_active(
    config: Seq<nat>,
    connect: Seq<nat>,
    refused_once: Option<Seq<char>>,
    output: Seq<nat>,
) -> Seq<EventModel> {
    ((((config_waits(config).push(EventModel::ConfigSeen)) + connect_waits(connect)).push(
        EventModel::Connected,
    ) + accepted(refused_once)) + output_waits(output)).push(EventModel::Active)
}

proof fn lemma_until_active(
    config: Seq<nat>,
    connect: Seq<nat>,
    refused_once: Option<Seq<char>>,
    output: Seq<nat>,
    marker: Seq<char>,
    tail: Seq<Seq<char>>,
)
    requires
        all_below(config, 12_000),
        all_below(connect, 45_000),
        all_below(output, 6_000),
    ensures
        progress(until_active(config, connect, refused_once, output), marker, tail)
            == Progress::At(StartPhase::Scene),
{
    let none = Seq::<EventModel>::empty();
    let a = config_waits(config);
    assert forall|i: int| 0 <= i < a.len() implies step_of(
        StartPhase::Config,
        #[trigger] a[i],
        marker,
        tail,
    ) == StepModel::Again by {
        assert(config[i] < 12_000);
    }
    lemma_waits(none, a, StartPhase::Config, marker, tail);
    assert(none + a =~= a);
    let b = a.push(EventModel::ConfigSeen);
    lemma_goes_on(a, EventModel::ConfigSeen, marker, tail);
    let c = connect_waits(connect);
    assert forall|i: int| 0 <= i < c.len() implies step_of(
        StartPhase::Connect,
        #[trigger] c[i],
        marker,
        tail,
    ) == StepModel::Again by {
        assert(connect[i] < 45_000);
    }
    lemma_waits(b, c, StartPhase::Connect, marker, tail);
    let d = (b + c).push(EventModel::Connected);
    lemma_goes_on(b + c, EventModel::Connected, marker, tail);
    let e = d + accepted(refused_once);
    match refused_once {
        None => {
            lemma_goes_on(d, EventModel::Started, marker, tail);
            assert(e =~= d.push(EventModel::Started));
        },
        Some(error) => {
            let d1 = d.push(EventModel::Refused(error));
            lemma_goes_on(d, EventModel::Refused(error), marker, tail);
            lemma_goes_on(d1, EventModel::Started, marker, tail);
            assert(e =~= d1.push(EventModel::Started));
        },
    }
    let f = output_waits(output);
    assert forall|i: int| 0 <= i < f.len() implies step_of(
        StartPhase::Output,
        #[trigger] f[i],
        marker,
        tail,
    ) == StepModel::Again by {
        assert(output[i] < 6_000);
    }
    lemma_waits(e, f, StartPhase::Output, marker, tail);
    lemma_goes_on(e + f, EventModel::Active, marker, tail);
}

/// A start whose steps each come in time ends with a running buffer, however
/// often each was waited for, and also where the buffer was refused once. It
/// fails where another scene is shown, and its message tells which.
pub proof fn law_a_start_in_time_runs(
    config: Seq<nat>,
    connect: Seq<nat>,
    refused_once: Option<Seq<char>>,
    output: Seq<nat>,
    scene: Seq<char>,
    marker: Seq<char>,
    tail: Seq<Seq<char>>,
)
    requires
        all_below(config, 12_000),
        all_below(connect, 45_000),
        all_below(output, 6_000),
    ensures
        ({
            let events = until_active(config, connect, refused_once, output);
            &&& progress(
                events.push(EventModel::SceneIs("MoonClip Capture"@)),
                marker,
                tail,
            ) == Progress::Running
            &&& progress(events.push(EventModel::SceneUnknown), marker, tail) == Progress::Running
            &&& scene != "MoonClip Capture"@ ==> (progress(
                events.push(EventModel::SceneIs(scene)),
                marker,
                tail,
            ) matches Progress::Failed(stop, m) && stop && contains(m, scene))
        }),
{
    let events = until_active(config, connect, refused_once, output);
    lemma_until_active(config, connect, refused_once, output, marker, tail);
    lemma_goes_on(events, EventModel::SceneIs("MoonClip Capture"@), marker, tail);
    lemma_goes_on(events, EventModel::SceneUnknown, marker, tail);
    lemma_goes_on(events, EventModel::SceneIs(scene), marker, tail);
    let head = "OBS program scene is '"@;
    let rest = "', expected '"@ + "MoonClip Capture"@ + "' (would record black)"@;
    let m = crate::engine::scene_message(scene);
    assert(m =~= head + scene + rest);
    assert(occurs_at(m, scene, head.len() as int)) by {
        assert(m.subrange(head.len() as int, (head.len() + scene.len()) as int) =~= scene);
    }
    if last_trouble(tail) is Some {
        let more = m + " | OBS: "@ + last_trouble(tail)->0;
        assert(occurs_at(more, scene, head.len() as int)) by {
            assert(more.subrange(head.len() as int, (head.len() + scene.len()) as int) =~= scene);
        }
    }
}

/// A second refusal ends the start with what was said; a process that ends
/// while the websocket is awaited ends it too, and there is nothing left to
/// stop. A later phase takes no notice of what belongs to an earlier one.
pub proof fn law_a_start_fails_for_a_reason(
    error: Seq<char>,
    status: Seq<char>,
    marker: Seq<char>,
    tail: Seq<Seq<char>>,
)
    ensures
        step_of(StartPhase::Restart, EventModel::Refused(error), marker, tail) matches
            StepModel::Fail(stop, m) && stop && error.is_prefix_of(m),
        step_of(StartPhase::Connect, EventModel::Exited(status), marker, tail) matches
            StepModel::Fail(stop, m) && !stop && contains(m, status),
{
    let m = crate::engine::exit_message(status, tail);
    let head = "embedded OBS exited during startup ("@;
    assert(occurs_at(m, status, head.len() as int)) by {
        assert(m.subrange(head.len() as int, (head.len() + status.len()) as int) =~= status);
    }
}

// ---------------------------------------------------------------------------
// Log
// ---------------------------------------------------------------------------
/// A line that tells of trouble, whatever its case.
pub open spec fn speaks_of_trouble(line: Seq<char>) -> bool {
    let low = lowercase(line);
    contains(low, "error"@) || contains(low, "failed"@) || contains(low, "warning"@)
}

/// The line that is told is the last that speaks of an error, a failure or a
/// warning, and none is told only where none does.
pub proof fn law_last_trouble_is_told(tail: Seq<Seq<char>>)
    ensures
        match last_trouble(tail) {
            Some(line) => exists|i: int|
                0 <= i < tail.len() && #[trigger] tail[i] == line && speaks_of_trouble(line)
                    && forall|j: int| i < j < tail.len() ==> !speaks_of_trouble(#[trigger] tail[j]),
            None => forall|j: int| 0 <= j < tail.len() ==> !speaks_of_trouble(#[trigger] tail[j]),
        },
    decreases tail.len(),
{
    if tail.len() > 0 {
        let init = tail.drop_last();
        law_last_trouble_is_told(init);
        let last = tail.len() - 1;
        if speaks_of_trouble(tail.last()) {
            assert(tail[last] == tail.last());
        } else {
            match last_trouble(init) {
                Some(line) => {
                    let i = choose|i: int|
                        0 <= i < init.len() && #[trigger] init[i] == line && speaks_of_trouble(line)
                            && forall|j: int|
                            i < j < init.len() ==> !speaks_of_trouble(#[trigger] init[j]);
                    assert(tail[i] == line);
                    assert forall|j: int| i < j < tail.len() implies !speaks_of_trouble(
                        #[trigger] tail[j],
                    ) by {
                        if j < last {
                            assert(init[j] == tail[j]);
                        }
                    }
                },
                None => {
                    assert forall|j: int| 0 <= j < tail.len() implies !speaks_of_trouble(
                        #[trigger] tail[j],
                    ) by {
                        if j < last {
                            assert(init[j] == tail[j]);
                        }
                    }
                },
            }
        }
    }
}

/// The last forty lines are kept, or all of fewer.
pub proof fn law_log_tail_is_the_end(text: Seq<char>)
    ensures
        log_tail_of(text).is_suffix_of(lines(text)),
        log_tail_of(text).len() == if lines(text).len() < 40 {
            lines(text).len()
        } else {
            40
        },
{
}

// ---------------------------------------------------------------------------
// Saving
// ---------------------------------------------------------------------------
/// A path that was not there before the save is the clip, at once and however
/// late; the one that was there before never is. Without one, a save is waited
/// for until 45 seconds are over, and fails then.
pub proof fn law_save_waits_for_a_new_file(
    before: Option<Seq<char>>,
    now: Option<Seq<char>>,
    elapsed_ms: nat,
)
    ensures
        ({
            let step = save_step_of(before, now, elapsed_ms);
            let fresh = now is Some && now->0.len() > 0 && (before is None || before->0 != now->0);
            &&& fresh ==> step == SaveModel::Written(now->0)
            &&& !fresh && elapsed_ms < 45_000 ==> step == SaveModel::Again
            &&& !fresh && elapsed_ms >= 45_000 ==> step is Fail
        }),
{
}

/// The wait for a source goes on half a second at a time, and is over within a
/// minute where the user has to pick it and within a quarter of that otherwise.
pub proof fn law_source_is_waited_for(waited_ms: nat, first_time: bool)
    ensures
        ({
            let limit: nat = if first_time {
                60_000
            } else {
                15_000
            };
            &&& waited_ms + 500 < limit ==> source_step_of(waited_ms, first_time)
                == SourceWait::Again((waited_ms + 500) as nat)
            &&& waited_ms + 500 >= limit ==> source_step_of(waited_ms, first_time) is Fail
        }),
{
}

// ---------------------------------------------------------------------------
// Canvas and tracks
// ---------------------------------------------------------------------------
/// A source of a new size gets a canvas of that size, but for an odd row or
/// column. What follows the source has the height of the canvas, and what does
/// not is never taller than it.
pub proof fn law_canvas_takes_the_size_of_the_source(
    now: CanvasModel,
    out_source: bool,
    w: int,
    h: int,
)
    requires
        w >= 2,
        h >= 2,
        now.out_height >= 2,
    ensures
        match canvas_for(now, out_source, w, h) {
            None => now.base_width == w - w % 2 && now.base_height == h - h % 2,
            Some(c) => {
                &&& now.base_width != w - w % 2 || now.base_height != h - h % 2
                &&& c.base_width == w - w % 2
                &&& c.base_height == h - h % 2
                &&& out_source ==> c.out_height == c.base_height
                &&& !out_source && now.out_height < c.base_height ==> c.out_height
                    == now.out_height - now.out_height % 2
                &&& !out_source && now.out_height >= c.base_height ==> c.out_height
                    == c.base_height
            },
        },
{
}

/// The two tracks have sources of their own, and nothing else has one.
pub proof fn law_tracks_have_their_own_sources(track: Seq<char>)
    ensures
        track_source("game"@) == Some("MoonClip Game Audio"@),
        track_source("mic"@) == Some("MoonClip Mic"@),
        track != "game"@ && track != "mic"@ ==> track_source(track) is None,
{
    reveal_strlit("game");
    reveal_strlit("mic");
    assert("game"@.len() == 4 && "mic"@.len() == 3);
}

// ---------------------------------------------------------------------------
// Reports
// ---------------------------------------------------------------------------
/// What is told of an engine that ended holds the last line of trouble.
pub proof fn law_end_of_the_engine_is_explained(tail: Seq<Seq<char>>, message: Seq<char>)
    ensures
        last_trouble(tail) matches Some(line) ==> {
            &&& line.is_suffix_of(death_reason(tail))
            &&& "capture engine exited: "@.is_prefix_of(death_reason(tail))
            &&& line.is_suffix_of(with_hint(message, tail))
        },
        last_trouble(tail) is None ==> death_reason(tail) == "capture engine exited unexpectedly"@,
        message.is_prefix_of(with_hint(message, tail)),
{
}

/// An engine that is not alive records no track; one that is keeps its number of
/// them. The errors are told either way.
pub proof fn law_state_of_the_engine(
    alive: bool,
    tracks: nat,
    audio: Option<Seq<char>>,
    engine: Option<Seq<char>>,
)
    ensures
        ({
            let s = status_of(alive, Some(tracks), audio, engine);
            &&& s.running == alive
            &&& s.tracks_linked == if alive {
                tracks
            } else {
                0
            }
            &&& s.audio_error == audio
            &&& s.engine_error == engine
            &&& s.backend == "obs"@
        }),
{
}

/// One track is the mix alone; otherwise there are three, each with its bit.
pub proof fn law_recorded_tracks(single_track: bool)
    ensures
        single_track ==> linked_tracks(single_track) == 1 && recorded_tracks(single_track) == 1,
        !single_track ==> linked_tracks(single_track) == 3 && recorded_tracks(single_track) == 1 + 2
            + 4,
{
}

/// A picture has the size that its header gives, the width first, each number
/// with its highest byte first; one without height or width is none.
pub proof fn law_size_of_a_picture(b: Seq<u8>)
    ensures
        png_size(b) matches Some((w, h)) ==> {
            &&& b.len() >= 24
            &&& w == ((b[16] * 256 + b[17]) * 256 + b[18]) * 256 + b[19]
            &&& h == ((b[20] * 256 + b[21]) * 256 + b[22]) * 256 + b[23]
            &&& w > 0 && h > 0
            &&& b[0] == 0x89 && b[1] == 'P' as u8 && b[2] == 'N' as u8 && b[3] == 'G' as u8
            &&& b[12] == 'I' as u8 && b[13] == 'H' as u8 && b[14] == 'D' as u8 && b[15] == 'R' as u8
        },
{
}

/// The version of a program is the first line of what it prints, or of its
/// errors where it prints nothing.
pub proof fn law_version_of_a_program(stdout: Seq<u8>, stderr: Seq<u8>)
    ensures
        ({
            let out = trim(lossy_text(stdout));
            let err = trim(lossy_text(stderr));
            &&& out.len() > 0 && lines(out).len() > 0 ==> version_line(stdout, stderr)
                == lines(out)[0]
            &&& out.len() == 0 && lines(err).len() > 0 ==> version_line(stdout, stderr)
                == lines(err)[0]
        }),
{
}

/// The picture on a new canvas keeps the sides of the source.
pub proof fn law_canvas_keeps_the_sides(now: CanvasModel, out_source: bool, w: int, h: int)
    ensures
        canvas_for(now, out_source, w, h) matches Some(c) ==> c.out_width == width_for(
            c.base_width,
            c.base_height,
            c.out_height,
        ),
{
}

} // verus!
