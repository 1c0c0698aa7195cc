//! A recording session: what follows a start, what it stores, and how its
//! state is reported.

use vstd::prelude::*;

use crate::capture::{GameContext, GameModel};
use crate::engine::{death_reason, engine_death_reason};
use crate::profile::{clamp_u32, clamped};
use crate::settings::{stored, TextMap};
use crate::text::{
    cat, clone_opt, decimal, decimal_of, lines, lines_of, lossy_text, opt_text, parse_u64,
    parse_unsigned, same, starts_with, texts, trim, trimmed,
};

verus! {

broadcast use vstd::string::group_string_axioms;

// ---------------------------------------------------------------------------
// Waiting for the source
// ---------------------------------------------------------------------------
/// How long a captured source may take to appear: a minute where the user has
/// to pick it first, and a quarter of that otherwise.
pub open spec fn source_budget(first_time: bool) -> nat {
    if first_time {
        60_000
    } else {
        15_000
    }
}

/// The user has to pick the source: there is no token to restore it with.
pub open spec fn picks_source(token: Seq<char>) -> bool {
    trim(token).len() == 0
}

/// The user has to pick the source: there is no token to restore it with.
pub fn is_first_time(token: &str) -> (r: bool)
    ensures
        r == picks_source(token@),
{
    trimmed(token).as_str().is_empty()
}

/// What comes next while a source is awaited.
pub enum SourceStep {
    /// Look again after half a second. By then so much time has passed.
    Again(u64),
    /// Stop the buffer and fail.
    Fail(String),
}

/// What a step of the wait stands for.
pub enum SourceWait {
    Again(nat),
    Fail(Seq<char>),
}

impl View for SourceStep {
    type V = SourceWait;

    open spec fn view(&self) -> SourceWait {
        match *self {
            SourceStep::Again(next) => SourceWait::Again(next as nat),
            SourceStep::Fail(e) => SourceWait::Fail(e@),
        }
    }
}

/// What comes next where no source has appeared, after having waited so long.
pub open spec fn source_step_of(waited_ms: nat, first_time: bool) -> SourceWait {
    if waited_ms + 500 < source_budget(first_time) {
        SourceWait::Again((waited_ms + 500) as nat)
    } else {
        SourceWait::Fail(
            "no screen captured: the system picker was cancelled or no stream was granted"@,
        )
    }
}

/// What comes next where no source has appeared, after having waited so long.
pub fn source_step(waited_ms: u64, first_time: bool) -> (r: SourceStep)
    ensures
        r@ == source_step_of(waited_ms as nat, first_time),
{
    let budget: u64 = if first_time {
        60_000
    } else {
        15_000
    };
    if waited_ms >= budget || waited_ms + 500 >= budget {
        SourceStep::Fail(
            "no screen captured: the system picker was cancelled or no stream was granted".to_owned(),
        )
    } else {
        SourceStep::Again(waited_ms + 500)
    }
}

// ---------------------------------------------------------------------------
// What a start stores
// ---------------------------------------------------------------------------
/// One thing to store.
pub enum StoreWrite {
    Setting { key: String, value: String },
    /// The capture state of a game.
    Game {
        key: String,
        title: String,
        source_kind: Option<String>,
        window_match: Option<String>,
        token: Option<String>,
        seen_ms: i64,
    },
}

/// What a thing to store stands for.
pub enum WriteModel {
    Setting(Seq<char>, Seq<char>),
    Game(GameWrite),
}

/// The capture state of a game.
pub struct GameWrite {
    pub key: Seq<char>,
    pub title: Seq<char>,
    pub source_kind: Option<Seq<char>>,
    pub window_match: Option<Seq<char>>,
    pub token: Option<Seq<char>>,
    pub seen_ms: int,
}

impl View for StoreWrite {
    type V = WriteModel;

    open spec fn view(&self) -> WriteModel {
        match *self {
            StoreWrite::Setting { key, value } => WriteModel::Setting(key@, value@),
            StoreWrite::Game { key, title, source_kind, window_match, token, seen_ms } =>
                WriteModel::Game(
                GameWrite {
                    key: key@,
                    title: title@,
                    source_kind: opt_text(source_kind),
                    window_match: opt_text(window_match),
                    token: opt_text(token),
                    seen_ms: seen_ms as int,
                },
            ),
        }
    }
}

/// What a list of things to store stands for.
pub open spec fn write_models(v: Seq<StoreWrite>) -> Seq<WriteModel> {
    v.map_values(|w: StoreWrite| w@)
}

/// The capture state of a game, with the token that is stored with it.
pub open spec fn game_write(g: GameModel, token: Option<Seq<char>>, now_ms: int) -> WriteModel {
    WriteModel::Game(
        GameWrite {
            key: g.key,
            title: g.title,
            source_kind: g.source_kind,
            window_match: g.window_match,
            token,
            seen_ms: now_ms,
        },
    )
}

/// What a successful start stores: the game's capture state, a new restore
/// token both for the session and for the game, and the size of the source.
pub open spec fn start_writes(
    game: Option<GameModel>,
    token: Option<Seq<char>>,
    width: nat,
    height: nat,
    now_ms: int,
) -> Seq<WriteModel> {
    let seen = match game {
        Some(g) => seq![game_write(g, None, now_ms)],
        None => Seq::empty(),
    };
    let renewed = match token {
        Some(t) => {
            let session = seq![WriteModel::Setting("engine_restore_token"@, t)];
            match game {
                Some(g) => session.push(game_write(g, Some(t), now_ms)),
                None => session,
            }
        },
        None => Seq::empty(),
    };
    let size = seq![
        WriteModel::Setting("engine_source_width"@, decimal(width)),
        WriteModel::Setting("engine_source_height"@, decimal(height)),
    ];
    seen + renewed + size
}

fn game_entry(g: &GameContext, token: Option<String>, now_ms: i64) -> (r: StoreWrite)
    ensures
        r@ == game_write(g@, opt_text(token), now_ms as int),
{
    StoreWrite::Game {
        key: g.key.clone(),
        title: g.title.clone(),
        source_kind: clone_opt(&g.source_kind),
        window_match: clone_opt(&g.window_match),
        token,
        seen_ms: now_ms,
    }
}

/// What a successful start stores.
pub fn after_start(
    game: &Option<GameContext>,
    token: &Option<String>,
    width: u32,
    height: u32,
    now_ms: i64,
) -> (r: Vec<StoreWrite>)
    ensures
        write_models(r@) == start_writes(
            crate::capture::opt_game(*game),
            opt_text(*token),
            width as nat,
            height as nat,
            now_ms as int,
        ),
{
    let ghost goal = start_writes(
        crate::capture::opt_game(*game),
        opt_text(*token),
        width as nat,
        height as nat,
        now_ms as int,
    );
    let mut out: Vec<StoreWrite> = Vec::new();
    match game {
        Some(g) => {
            out.push(game_entry(g, None, now_ms));
        },
        None => {},
    }
    match token {
        Some(t) => {
            out.push(
                StoreWrite::Setting { key: "engine_restore_token".to_owned(), value: t.clone() },
            );
            match game {
                Some(g) => {
                    out.push(game_entry(g, Some(t.clone()), now_ms));
                },
                None => {},
            }
        },
        None => {},
    }
    out.push(
        StoreWrite::Setting {
            key: "engine_source_width".to_owned(),
            value: decimal_of(width as u64),
        },
    );
    out.push(
        StoreWrite::Setting {
            key: "engine_source_height".to_owned(),
            value: decimal_of(height as u64),
        },
    );
    proof {
        assert(write_models(out@) =~= goal);
    }
    out
}

/// What forgetting the chosen screen stores: neither token nor size.
pub open spec fn forget_writes() -> Seq<WriteModel> {
    seq![
        WriteModel::Setting("engine_restore_token"@, ""@),
        WriteModel::Setting("engine_source_width"@, ""@),
        WriteModel::Setting("engine_source_height"@, ""@),
    ]
}

/// What forgetting the chosen screen stores: neither token nor size.
pub fn forget_source() -> (r: Vec<StoreWrite>)
    ensures
        write_models(r@) == forget_writes(),
{
    let r = vec![
        StoreWrite::Setting { key: "engine_restore_token".to_owned(), value: "".to_owned() },
        StoreWrite::Setting { key: "engine_source_width".to_owned(), value: "".to_owned() },
        StoreWrite::Setting { key: "engine_source_height".to_owned(), value: "".to_owned() },
    ];
    proof {
        assert(write_models(r@) =~= forget_writes());
    }
    r
}

// ---------------------------------------------------------------------------
// Status
// ---------------------------------------------------------------------------
/// The state of the engine.
#[derive(Debug, Clone)]
pub struct EngineStatus {
    pub running: bool,
    pub backend: String,
    /// Audio tracks that are recorded: 0, 1 or 3.
    pub tracks_linked: usize,
    /// Last error of the audio gains.
    pub audio_error: Option<String>,
    /// Why the engine last stopped on its own.
    pub engine_error: Option<String>,
}

/// What the state of the engine stands for.
pub struct StatusModel {
    pub running: bool,
    pub backend: Seq<char>,
    pub tracks_linked: nat,
    pub audio_error: Option<Seq<char>>,
    pub engine_error: Option<Seq<char>>,
}

impl View for EngineStatus {
    type V = StatusModel;

    open spec fn view(&self) -> StatusModel {
        StatusModel {
            running: self.running,
            backend: self.backend@,
            tracks_linked: self.tracks_linked as nat,
            audio_error: opt_text(self.audio_error),
            engine_error: opt_text(self.engine_error),
        }
    }
}

/// State of an engine that is alive or not, with the last errors.
pub open spec fn status_of(
    alive: bool,
    tracks: Option<nat>,
    audio_error: Option<Seq<char>>,
    engine_error: Option<Seq<char>>,
) -> StatusModel {
    StatusModel {
        running: alive,
        backend: "obs"@,
        tracks_linked: if alive && tracks is Some {
            tracks->0
        } else {
            0
        },
        audio_error,
        engine_error,
    }
}

/// State after a start.
pub fn started_status(tracks: usize) -> (r: EngineStatus)
    ensures
        r@ == status_of(true, Some(tracks as nat), None, None),
{
    EngineStatus {
        running: true,
        backend: "obs".to_owned(),
        tracks_linked: tracks,
        audio_error: None,
        engine_error: None,
    }
}

/// State after a stop.
pub fn stopped_status() -> (r: EngineStatus)
    ensures
        r@ == status_of(false, None, None, None),
{
    EngineStatus {
        running: false,
        backend: "obs".to_owned(),
        tracks_linked: 0,
        audio_error: None,
        engine_error: None,
    }
}

/// State of an engine that is alive or not, with the last errors. `tracks` is
/// what a live one records.
pub fn current_status(
    alive: bool,
    tracks: Option<usize>,
    audio_error: Option<String>,
    engine_error: Option<String>,
) -> (r: EngineStatus)
    ensures
        r@ == status_of(
            alive,
            match tracks {
                Some(t) => Some(t as nat),
                None => None,
            },
            opt_text(audio_error),
            opt_text(engine_error),
        ),
        r.audio_error == audio_error,
        r.engine_error == engine_error,
{
    let linked: usize = match tracks {
        Some(t) => {
            if alive {
                t
            } else {
                0
            }
        },
        None => 0,
    };
    EngineStatus {
        running: alive,
        backend: "obs".to_owned(),
        tracks_linked: linked,
        audio_error,
        engine_error,
    }
}

/// What a look at the engine has shown.
pub enum Liveness {
    /// There is none.
    Absent,
    Alive,
    /// It is gone: drop it and tell why.
    Died(String),
}

/// What a look at the engine shows: whether there is one, whether its process
/// runs, and its last lines.
pub fn liveness(present: bool, process_runs: bool, tail: &Vec<String>) -> (r: Liveness)
    ensures
        match r {
            Liveness::Absent => !present,
            Liveness::Alive => present && process_runs,
            Liveness::Died(reason) => present && !process_runs && reason@ == death_reason(
                texts(tail@),
            ),
        },
{
    if !present {
        Liveness::Absent
    } else if process_runs {
        Liveness::Alive
    } else {
        Liveness::Died(engine_death_reason(tail))
    }
}

/// A manual start is refused while a buffer runs.
pub fn check_start(running: bool) -> (r: Result<(), String>)
    ensures
        match r {
            Ok(_) => !running,
            Err(e) => running && e@ == "buffer already running"@,
        },
{
    if running {
        Err("buffer already running".to_owned())
    } else {
        Ok(())
    }
}

// ---------------------------------------------------------------------------
// Gains
// ---------------------------------------------------------------------------
/// Gain and mute of both tracks.
#[derive(Debug, Clone, Copy)]
pub struct TrackGains {
    pub game: u32,
    pub mic: u32,
    pub mute_game: bool,
    pub mute_mic: bool,
}

/// The stored gain of a track: 100 where none is stored, and at most 200.
pub open spec fn stored_gain(settings: Map<Seq<char>, Seq<char>>, key: Seq<char>) -> int {
    let n: nat = match stored(settings, key) {
        Some(v) => match parse_unsigned(v, u32::MAX as nat) {
            Some(n) => n,
            None => 100,
        },
        None => 100,
    };
    clamped(n as int, 0, 200)
}

/// The stored mute of a track.
pub open spec fn stored_mute(settings: Map<Seq<char>, Seq<char>>, key: Seq<char>) -> bool {
    stored(settings, key) == Some("1"@) || stored(settings, key) == Some("true"@)
}

fn gain_of(settings: &TextMap, key: &str) -> (r: u32)
    ensures
        r == stored_gain(settings@, key@),
{
    let n: u32 = match settings.get(key) {
        Some(v) => match crate::text::parse_u32(v.as_str()) {
            Some(n) => n,
            None => 100,
        },
        None => 100,
    };
    clamp_u32(n, 0, 200)
}

fn mute_of(settings: &TextMap, key: &str) -> (r: bool)
    ensures
        r == stored_mute(settings@, key@),
{
    match settings.get(key) {
        Some(v) => same(v.as_str(), "1") || same(v.as_str(), "true"),
        None => false,
    }
}

/// What gains and mutes stand for.
pub struct GainsModel {
    pub game: int,
    pub mic: int,
    pub mute_game: bool,
    pub mute_mic: bool,
}

impl View for TrackGains {
    type V = GainsModel;

    open spec fn view(&self) -> GainsModel {
        GainsModel {
            game: self.game as int,
            mic: self.mic as int,
            mute_game: self.mute_game,
            mute_mic: self.mute_mic,
        }
    }
}

/// Stored gains and mutes.
pub open spec fn gains_of(settings: Map<Seq<char>, Seq<char>>) -> GainsModel {
    GainsModel {
        game: stored_gain(settings, "gain_game"@),
        mic: stored_gain(settings, "gain_mic"@),
        mute_game: stored_mute(settings, "mute_game"@),
        mute_mic: stored_mute(settings, "mute_mic"@),
    }
}

/// Stored gains and mutes.
pub fn read_gains(settings: &TextMap) -> (r: TrackGains)
    ensures
        r@ == gains_of(settings@),
{
    TrackGains {
        game: gain_of(settings, "gain_game"),
        mic: gain_of(settings, "gain_mic"),
        mute_game: mute_of(settings, "mute_game"),
        mute_mic: mute_of(settings, "mute_mic"),
    }
}

/// One of the two tracks.
pub open spec fn is_track(track: Seq<char>) -> bool {
    track == "game"@ || track == "mic"@
}

/// Checks that a track is one of the two.
pub fn check_track(track: &str) -> (r: Result<(), String>)
    ensures
        match r {
            Ok(_) => is_track(track@),
            Err(e) => !is_track(track@) && e@ == "track must be 'game' or 'mic'"@,
        },
{
    if same(track, "game") || same(track, "mic") {
        Ok(())
    } else {
        Err("track must be 'game' or 'mic'".to_owned())
    }
}

/// What a gain stores, and the percentage that is applied: at most 200, under
/// the key of the track.
pub open spec fn gain_written(track: Seq<char>, percent: nat) -> Result<
    (WriteModel, nat),
    Seq<char>,
> {
    let applied = clamped(percent as int, 0, 200) as nat;
    if track == "game"@ {
        Ok((WriteModel::Setting("gain_game"@, decimal(applied)), applied))
    } else if track == "mic"@ {
        Ok((WriteModel::Setting("gain_mic"@, decimal(applied)), applied))
    } else {
        Err("track must be 'game' or 'mic'"@)
    }
}

/// What a gain stores: the percentage, at most 200, under the key of the track.
pub fn gain_write(track: &str, percent: u32) -> (r: Result<(StoreWrite, u32), String>)
    ensures
        gain_written(track@, percent as nat) == match r {
            Ok(w) => Ok::<(WriteModel, nat), Seq<char>>((w.0@, w.1 as nat)),
            Err(e) => Err(e@),
        },
{
    match check_track(track) {
        Err(e) => Err(e),
        Ok(_) => {
            let pct: u32 = clamp_u32(percent, 0, 200);
            let key = if same(track, "game") {
                "gain_game"
            } else {
                "gain_mic"
            };
            Ok(
                (
                    StoreWrite::Setting { key: key.to_owned(), value: decimal_of(pct as u64) },
                    pct,
                ),
            )
        },
    }
}

/// What a mute stores: 1 or 0 under the key of the track.
pub open spec fn mute_written(track: Seq<char>, muted: bool) -> Result<WriteModel, Seq<char>> {
    let value = if muted {
        "1"@
    } else {
        "0"@
    };
    if track == "game"@ {
        Ok(WriteModel::Setting("mute_game"@, value))
    } else if track == "mic"@ {
        Ok(WriteModel::Setting("mute_mic"@, value))
    } else {
        Err("track must be 'game' or 'mic'"@)
    }
}

/// What a mute stores.
pub fn mute_write(track: &str, muted: bool) -> (r: Result<StoreWrite, String>)
    ensures
        mute_written(track@, muted) == match r {
            Ok(w) => Ok::<WriteModel, Seq<char>>(w@),
            Err(e) => Err(e@),
        },
{
    match check_track(track) {
        Err(e) => Err(e),
        Ok(_) => {
            let key = if same(track, "game") {
                "mute_game"
            } else {
                "mute_mic"
            };
            let value = if muted {
                "1"
            } else {
                "0"
            };
            Ok(StoreWrite::Setting { key: key.to_owned(), value: value.to_owned() })
        },
    }
}

/// A gain that is written reads back as itself, and so does a mute.
pub proof fn law_written_gain_reads_back(
    settings: Map<Seq<char>, Seq<char>>,
    key: Seq<char>,
    percent: nat,
)
    requires
        percent <= 200,
    ensures
        stored_gain(settings.insert(key, decimal(percent)), key) == percent,
        stored_mute(settings.insert(key, "1"@), key),
        !stored_mute(settings.insert(key, "0"@), key),
{
    crate::text::lemma_parse_decimal(percent, u32::MAX as nat);
    reveal_strlit("0");
    reveal_strlit("1");
    reveal_strlit("true");
    assert("0"@[0] == '0' && "1"@[0] == '1' && "true"@.len() == 4 && "0"@.len() == 1);
}

/// What comes next after a gain was stored.
#[derive(Debug, Clone, Copy, PartialEq, Eq, Structural)]
pub enum GainStep {
    /// It was applied to the running buffer, or nothing runs.
    Done,
    /// Restart the running buffer with it.
    Restart,
}

/// What comes next after a gain was stored: a running buffer that did not take
/// it live is restarted.
pub open spec fn gain_step_of(running: bool, applied_live: bool) -> GainStep {
    if running && !applied_live {
        GainStep::Restart
    } else {
        GainStep::Done
    }
}

/// What comes next after a gain was stored: a running buffer that did not take
/// it live is restarted.
pub fn gain_step(running: bool, applied_live: bool) -> (r: GainStep)
    ensures
        r == gain_step_of(running, applied_live),
{
    if running && !applied_live {
        GainStep::Restart
    } else {
        GainStep::Done
    }
}

// ---------------------------------------------------------------------------
// Messages and information
// ---------------------------------------------------------------------------
/// Messages are in Spanish unless another language is stored.
pub open spec fn speaks_spanish(settings: Map<Seq<char>, Seq<char>>) -> bool {
    match stored(settings, "locale"@) {
        Some(l) => "es"@.is_prefix_of(l),
        None => true,
    }
}

/// Whether messages are in Spanish.
pub fn is_spanish(settings: &TextMap) -> (r: bool)
    ensures
        r == speaks_spanish(settings@),
{
    match settings.get("locale") {
        Some(l) => starts_with(l.as_str(), "es"),
        None => true,
    }
}

/// The version that a program reports: the first line of its output, or of its
/// error output where it has none.
pub open spec fn version_line(stdout: Seq<u8>, stderr: Seq<u8>) -> Seq<char> {
    let out = trim(lossy_text(stdout));
    let text = if out.len() > 0 {
        out
    } else {
        trim(lossy_text(stderr))
    };
    if lines(text).len() > 0 {
        lines(text)[0]
    } else {
        Seq::empty()
    }
}

/// Version that a program reports.
pub fn engine_version(stdout: &[u8], stderr: &[u8]) -> (r: String)
    ensures
        r@ == version_line(stdout@, stderr@),
{
    let raw = crate::text::from_utf8_lossy(stdout);
    let out = trimmed(raw.as_str());
    let text: String = if !out.as_str().is_empty() {
        out
    } else {
        let e = crate::text::from_utf8_lossy(stderr);
        trimmed(e.as_str())
    };
    let ls = lines_of(text.as_str());
    proof {
        assert(texts(ls@).len() == ls@.len());
    }
    if ls.len() > 0 {
        proof {
            assert(texts(ls@)[0] == ls@[0]@);
        }
        ls[0].clone()
    } else {
        let empty = String::new();
        proof {
            assert(empty@ =~= Seq::<char>::empty());
        }
        empty
    }
}

/// The embedded OBS as the settings show it.
#[derive(Debug, Clone)]
pub struct ObsInfo {
    pub present: bool,
    pub version: String,
    pub config_dir: String,
    pub profile: String,
    pub collection: String,
    pub websocket_port: u16,
    /// `bundled`, `env` or `missing`.
    pub source: String,
    pub events_tail: Vec<String>,
}

/// The port of the websocket as the settings show it.
pub open spec fn shown_port(settings: Map<Seq<char>, Seq<char>>) -> nat {
    match parse_unsigned(crate::settings::setting(settings, "engine_ws_port"@, "4456"@), 65535) {
        Some(n) => n,
        None => 4456,
    }
}

/// The embedded OBS as the settings show it. `found` is where its binary was
/// found and what it reports as its version.
pub fn obs_info(
    settings: &TextMap,
    config_dir: Option<String>,
    found: Option<(String, String)>,
    events_tail: Vec<String>,
) -> (r: ObsInfo)
    ensures
        r.present == (found is Some),
        r.source@ == match found {
            Some(f) => f.0@,
            None => "missing"@,
        },
        r.version@ == match found {
            Some(f) => f.1@,
            None => ""@,
        },
        r.config_dir@ == match config_dir {
            Some(d) => d@,
            None => ""@,
        },
        r.profile@ == "MoonClip"@,
        r.collection@ == "MoonClip"@,
        r.websocket_port == shown_port(settings@),
        r.events_tail == events_tail,
{
    let s = crate::settings::setting_str(settings, "engine_ws_port", "4456");
    let port: u16 = match parse_u64(s.as_str(), 65535) {
        Some(n) => n as u16,
        None => 4456,
    };
    let present = found.is_some();
    let (source, version) = match found {
        Some(f) => f,
        None => ("missing".to_owned(), "".to_owned()),
    };
    ObsInfo {
        present,
        version,
        config_dir: match config_dir {
            Some(d) => d,
            None => "".to_owned(),
        },
        profile: "MoonClip".to_owned(),
        collection: "MoonClip".to_owned(),
        websocket_port: port,
        source,
        events_tail,
    }
}

/// Free memory of the machine, where it is known.
#[derive(Debug, Clone, Copy)]
pub struct SystemMemory {
    pub free_mb: Option<u64>,
}

// ---------------------------------------------------------------------------
// Notices
// ---------------------------------------------------------------------------
/// What the user is told.
pub enum Notice {
    /// The buffer runs again, with new settings.
    Restarted,
    /// New settings could not be used and the old ones are back.
    Reverted,
    /// The system asks which screen to capture.
    PickScreen,
    /// The engine ended by itself.
    EngineDied,
    /// A clip was asked for while nothing records.
    NotRecording,
    ClipSaved(String),
    SaveFailed(String),
}

/// The text of a notice, in Spanish or else in English.
pub open spec fn notice_message(n: Notice, spanish: bool) -> Seq<char> {
    match n {
        Notice::Restarted => if spanish {
            "Búfer reiniciado con la nueva configuración"@
        } else {
            "Buffer restarted with the new configuration"@
        },
        Notice::Reverted => if spanish {
            "Cambio no aplicado; se restauró la configuración anterior"@
        } else {
            "Change not applied; previous configuration restored"@
        },
        Notice::PickScreen => if spanish {
            "Elige la pantalla a capturar (solo esta vez)"@
        } else {
            "Pick the screen to capture (this time only)"@
        },
        Notice::EngineDied => if spanish {
            "El motor de captura se detuvo inesperadamente"@
        } else {
            "Capture engine stopped unexpectedly"@
        },
        Notice::NotRecording => if spanish {
            "Búfer detenido — pulsa Start para grabar"@
        } else {
            "Buffer stopped — press Start to record"@
        },
        Notice::ClipSaved(name) => if spanish {
            "Clip guardado: "@ + name@
        } else {
            "Clip saved: "@ + name@
        },
        Notice::SaveFailed(error) => if spanish {
            "Error al guardar: "@ + error@
        } else {
            "Save failed: "@ + error@
        },
    }
}

/// Text of a notice.
pub fn notice_text(n: &Notice, spanish: bool) -> (r: String)
    ensures
        r@ == notice_message(*n, spanish),
{
    match n {
        Notice::Restarted => if spanish {
            "Búfer reiniciado con la nueva configuración".to_owned()
        } else {
            "Buffer restarted with the new configuration".to_owned()
        },
        Notice::Reverted => if spanish {
            "Cambio no aplicado; se restauró la configuración anterior".to_owned()
        } else {
            "Change not applied; previous configuration restored".to_owned()
        },
        Notice::PickScreen => if spanish {
            "Elige la pantalla a capturar (solo esta vez)".to_owned()
        } else {
            "Pick the screen to capture (this time only)".to_owned()
        },
        Notice::EngineDied => if spanish {
            "El motor de captura se detuvo inesperadamente".to_owned()
        } else {
            "Capture engine stopped unexpectedly".to_owned()
        },
        Notice::NotRecording => if spanish {
            "Búfer detenido — pulsa Start para grabar".to_owned()
        } else {
            "Buffer stopped — press Start to record".to_owned()
        },
        Notice::ClipSaved(name) => if spanish {
            cat("Clip guardado: ", name.as_str())
        } else {
            cat("Clip saved: ", name.as_str())
        },
        Notice::SaveFailed(error) => if spanish {
            cat("Error al guardar: ", error.as_str())
        } else {
            cat("Save failed: ", error.as_str())
        },
    }
}

/// What the user is told when the hotkey was pressed.
pub open spec fn notice_of(saved: Option<Result<String, String>>) -> Notice {
    match saved {
        None => Notice::NotRecording,
        Some(Ok(name)) => Notice::ClipSaved(name),
        Some(Err(error)) => Notice::SaveFailed(error),
    }
}

/// What the user is told when the hotkey was pressed: that nothing records, or
/// how the save went.
pub fn hotkey_notice(saved: Option<Result<String, String>>) -> (r: Notice)
    ensures
        r == notice_of(saved),
{
    match saved {
        None => Notice::NotRecording,
        Some(Ok(name)) => Notice::ClipSaved(name),
        Some(Err(error)) => Notice::SaveFailed(error),
    }
}

} // verus!
