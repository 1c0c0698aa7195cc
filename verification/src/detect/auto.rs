//! The buffer that starts and stops with the game: when to do either, and for
//! which of the running games.

use vstd::prelude::*;

use crate::detect::resolve::{found_models, FoundModel, ResolvedCandidate, SRC_FALLBACK};
use crate::text::{opt_text, same};

verus! {

broadcast use vstd::string::group_string_axioms;

/// How long a game must be there before the buffer starts.
pub const START_DEBOUNCE_MS: i64 = 3_000;

/// How long a game must be gone before the buffer stops.
pub const STOP_DEBOUNCE_MS: i64 = 7_000;

/// What to do.
#[derive(Debug, Clone, Copy, PartialEq, Eq, Structural)]
pub enum AutoAction {
    Wait,
    Start,
    Stop,
}

/// The game that is there. `known` ones come from a launcher or a
/// registration; others never start the buffer.
#[derive(Debug, Clone, PartialEq, Eq)]
pub struct AutoGame {
    pub key: String,
    pub title: String,
    pub known: bool,
    pub auto_buffer: bool,
}

/// What the game that is there stands for.
pub struct AutoGameModel {
    pub key: Seq<char>,
    pub title: Seq<char>,
    pub known: bool,
    pub auto_buffer: bool,
}

impl View for AutoGame {
    type V = AutoGameModel;

    open spec fn view(&self) -> AutoGameModel {
        AutoGameModel {
            key: self.key@,
            title: self.title@,
            known: self.known,
            auto_buffer: self.auto_buffer,
        }
    }
}

/// What is remembered from one look to the next.
#[derive(Debug, Clone)]
pub struct AutoState {
    /// The game that is waited for while the buffer is off.
    pub pending_key: Option<String>,
    /// Since when it is there.
    pub pending_since_ms: Option<i64>,
    /// Since when the game is gone while a session of ours runs.
    pub missing_since_ms: Option<i64>,
    /// The running session was started by this machine.
    pub auto_started: bool,
}

/// What is remembered from one look to the next.
pub struct AutoModel {
    pub pending_key: Option<Seq<char>>,
    pub pending_since_ms: Option<i64>,
    pub missing_since_ms: Option<i64>,
    pub auto_started: bool,
}

impl View for AutoState {
    type V = AutoModel;

    open spec fn view(&self) -> AutoModel {
        AutoModel {
            pending_key: opt_text(self.pending_key),
            pending_since_ms: self.pending_since_ms,
            missing_since_ms: self.missing_since_ms,
            auto_started: self.auto_started,
        }
    }
}

/// Nothing is remembered.
pub open spec fn fresh_auto() -> AutoModel {
    AutoModel {
        pending_key: None,
        pending_since_ms: None,
        missing_since_ms: None,
        auto_started: false,
    }
}

impl Default for AutoState {
    fn default() -> (r: Self)
        ensures
            r@ == fresh_auto(),
    {
        AutoState {
            pending_key: None,
            pending_since_ms: None,
            missing_since_ms: None,
            auto_started: false,
        }
    }
}

impl AutoState {
    /// The session from here on is the user's: it was started or stopped by hand.
    pub fn release(&mut self)
        ensures
            final(self)@ == (AutoModel { auto_started: false, ..old(self)@ }),
    {
        self.auto_started = false;
    }
}

/// One look at the machine.
#[derive(Debug, Clone, Copy)]
pub struct AutoInput<'a> {
    pub now_ms: i64,
    pub detected: Option<&'a AutoGame>,
    pub buffer_running: bool,
}

/// What one look stands for.
pub struct LookModel {
    pub now_ms: int,
    pub detected: Option<AutoGameModel>,
    pub buffer_running: bool,
}

impl<'a> View for AutoInput<'a> {
    type V = LookModel;

    open spec fn view(&self) -> LookModel {
        LookModel {
            now_ms: self.now_ms as int,
            detected: match self.detected {
                Some(g) => Some(g@),
                None => None,
            },
            buffer_running: self.buffer_running,
        }
    }
}

/// A game that the buffer runs for.
pub open spec fn is_tracked(g: Option<AutoGameModel>) -> bool {
    g is Some && g->0.known && g->0.auto_buffer
}

/// What is done and remembered after a look.
pub struct Decision {
    pub state: AutoModel,
    pub action: AutoAction,
}

/// What is done and remembered after a look where a tracked game is there.
pub open spec fn decision_with_game(s: AutoModel, look: LookModel) -> Decision {
    let key = look.detected->0.key;
    let waited = s.pending_key == Some(key) && s.pending_since_ms is Some;
    let since: int = if waited {
        s.pending_since_ms->0 as int
    } else {
        look.now_ms
    };
    let quiet = AutoModel {
        pending_key: None,
        pending_since_ms: None,
        missing_since_ms: None,
        auto_started: s.auto_started,
    };
    if look.buffer_running {
        Decision { state: quiet, action: AutoAction::Wait }
    } else if look.now_ms - since >= START_DEBOUNCE_MS {
        Decision { state: AutoModel { auto_started: true, ..quiet }, action: AutoAction::Start }
    } else {
        Decision {
            state: AutoModel {
                pending_key: Some(key),
                pending_since_ms: Some(since as i64),
                ..quiet
            },
            action: AutoAction::Wait,
        }
    }
}

/// What is done and remembered after a look where no tracked game is there.
pub open spec fn decision_without_game(s: AutoModel, look: LookModel) -> Decision {
    let since: int = match s.missing_since_ms {
        Some(t) => t as int,
        None => look.now_ms,
    };
    if !look.buffer_running {
        Decision { state: fresh_auto(), action: AutoAction::Wait }
    } else if !s.auto_started {
        Decision {
            state: AutoModel { missing_since_ms: s.missing_since_ms, ..fresh_auto() },
            action: AutoAction::Wait,
        }
    } else if look.now_ms - since >= STOP_DEBOUNCE_MS {
        Decision { state: fresh_auto(), action: AutoAction::Stop }
    } else {
        Decision {
            state: AutoModel {
                missing_since_ms: Some(since as i64),
                auto_started: true,
                ..fresh_auto()
            },
            action: AutoAction::Wait,
        }
    }
}

/// What is done and remembered after a look.
pub open spec fn decision(s: AutoModel, look: LookModel) -> Decision {
    if is_tracked(look.detected) {
        decision_with_game(s, look)
    } else {
        decision_without_game(s, look)
    }
}

/// Decides what to do, and remembers what the next look needs.
pub fn decide(state: &mut AutoState, input: AutoInput) -> (r: AutoAction)
    ensures
        final(state)@ == decision(old(state)@, input@).state,
        r == decision(old(state)@, input@).action,
{
    let follows = match input.detected {
        Some(g) => g.known && g.auto_buffer,
        None => false,
    };
    if follows {
        match input.detected {
            Some(game) => {
                state.missing_since_ms = None;
                if input.buffer_running {
                    state.pending_key = None;
                    state.pending_since_ms = None;
                    return AutoAction::Wait;
                }
                let waited = match &state.pending_key {
                    Some(k) => same(k.as_str(), game.key.as_str()),
                    None => false,
                };
                let known_since: Option<i64> = if waited {
                    state.pending_since_ms
                } else {
                    None
                };
                let since: i64 = match known_since {
                    Some(t) => t,
                    None => input.now_ms,
                };
                if input.now_ms as i128 - since as i128 >= START_DEBOUNCE_MS as i128 {
                    state.auto_started = true;
                    state.pending_key = None;
                    state.pending_since_ms = None;
                    AutoAction::Start
                } else {
                    state.pending_key = Some(game.key.clone());
                    state.pending_since_ms = Some(since);
                    AutoAction::Wait
                }
            },
            None => AutoAction::Wait,
        }
    } else {
        state.pending_key = None;
        state.pending_since_ms = None;
        if !input.buffer_running {
            state.missing_since_ms = None;
            state.auto_started = false;
            return AutoAction::Wait;
        }
        if !state.auto_started {
            return AutoAction::Wait;
        }
        let since: i64 = match state.missing_since_ms {
            Some(t) => t,
            None => input.now_ms,
        };
        if input.now_ms as i128 - since as i128 >= STOP_DEBOUNCE_MS as i128 {
            state.missing_since_ms = None;
            state.auto_started = false;
            AutoAction::Stop
        } else {
            state.missing_since_ms = Some(since);
            AutoAction::Wait
        }
    }
}

/// The length of clips: the override, the game's, or the general one, within 5
/// seconds and an hour.
pub open spec fn clip_seconds(override_s: Option<u32>, game_s: Option<u32>, global_s: u32) -> u32 {
    let s = if override_s is Some {
        override_s->0
    } else if game_s is Some {
        game_s->0
    } else {
        global_s
    };
    if s < 5 {
        5
    } else if s > 3600 {
        3600
    } else {
        s
    }
}

/// Length of clips in seconds.
pub fn effective_duration(override_s: Option<u32>, game_s: Option<u32>, global_s: u32) -> (r: u32)
    ensures
        r == clip_seconds(override_s, game_s, global_s),
{
    let s: u32 = match override_s {
        Some(v) => v,
        None => match game_s {
            Some(v) => v,
            None => global_s,
        },
    };
    if s < 5 {
        5
    } else if s > 3600 {
        3600
    } else {
        s
    }
}

// ---------------------------------------------------------------------------
// Picking the game
// ---------------------------------------------------------------------------
/// A process that may be a game: it uses the GPU, comes from Steam or Wine, or
/// owns a window.
pub open spec fn may_be_game(r: FoundModel) -> bool {
    r.uses_gpu || r.steam_app_id is Some || r.is_wine || r.window_match is Some
}

/// Whether a process may be a game.
pub fn is_playable(r: &ResolvedCandidate) -> (b: bool)
    ensures
        b == may_be_game(r@),
{
    r.uses_gpu || r.steam_app_id.is_some() || r.is_wine || r.window_match.is_some()
}

/// How far behind a process is in being the game: registered ones first, then
/// those of a launcher, then those with a window; among equals, those on the GPU.
pub open spec fn rank_of(r: FoundModel) -> int {
    let group: int = if r.registered {
        0
    } else if r.source != SRC_FALLBACK@ {
        2
    } else if r.window_match is Some {
        4
    } else {
        6
    };
    if r.uses_gpu {
        group
    } else {
        group + 1
    }
}

fn rank(r: &ResolvedCandidate) -> (k: u32)
    ensures
        k == rank_of(r@),
{
    let group: u32 = if r.registered {
        0
    } else if !same(r.source.as_str(), SRC_FALLBACK) {
        2
    } else if r.window_match.is_some() {
        4
    } else {
        6
    };
    if r.uses_gpu {
        group
    } else {
        group + 1
    }
}

/// The place of the game among the running processes: the first of the best rank.
pub open spec fn picked(all: Seq<FoundModel>) -> Option<int>
    decreases all.len(),
{
    if all.len() == 0 {
        None
    } else {
        let init = picked(all.drop_last());
        let last = all.last();
        if !may_be_game(last) {
            init
        } else {
            match init {
                Some(i) => if rank_of(last) < rank_of(all[i]) {
                    Some(all.len() - 1)
                } else {
                    init
                },
                None => Some(all.len() - 1),
            }
        }
    }
}

proof fn lemma_picked_in_range(all: Seq<FoundModel>)
    ensures
        picked(all) matches Some(i) ==> 0 <= i < all.len() && may_be_game(all[i]),
    decreases all.len(),
{
    if all.len() > 0 {
        lemma_picked_in_range(all.drop_last());
    }
}

/// The game among the running processes.
pub fn pick_game(resolved: &[ResolvedCandidate]) -> (r: Option<&ResolvedCandidate>)
    ensures
        match r {
            Some(g) => picked(found_models(resolved@)) is Some && g@ == found_models(
                resolved@,
            )[picked(found_models(resolved@))->0],
            None => picked(found_models(resolved@)) is None,
        },
{
    let ghost all = found_models(resolved@);
    let mut best: Option<usize> = None;
    let mut i: usize = 0;
    proof {
        assert(all.take(0) =~= Seq::<FoundModel>::empty());
    }
    while i < resolved.len()
        invariant
            all == found_models(resolved@),
            i <= resolved@.len(),
            match best {
                Some(b) => b < i && picked(all.take(i as int)) == Some(b as int),
                None => picked(all.take(i as int)) is None,
            },
        decreases resolved@.len() - i,
    {
        proof {
            assert(all.take(i + 1).drop_last() =~= all.take(i as int));
            assert(all.take(i + 1).last() == resolved@[i as int]@);
            lemma_picked_in_range(all.take(i as int));
        }
        if is_playable(&resolved[i]) {
            match best {
                Some(b) => {
                    proof {
                        assert(all.take(i + 1)[b as int] == resolved@[b as int]@);
                    }
                    if rank(&resolved[i]) < rank(&resolved[b]) {
                        best = Some(i);
                    }
                },
                None => {
                    best = Some(i);
                },
            }
        }
        i = i + 1;
    }
    proof {
        assert(all.take(all.len() as int) =~= all);
    }
    match best {
        Some(b) => Some(&resolved[b]),
        None => None,
    }
}

/// The game as the buffer's machine sees it.
pub open spec fn auto_game_of(r: FoundModel) -> AutoGameModel {
    AutoGameModel {
        key: r.game_key,
        title: r.title,
        known: r.registered || r.source != SRC_FALLBACK@,
        auto_buffer: r.auto_buffer,
    }
}

/// Game as the buffer's machine sees it.
pub fn auto_game(r: &ResolvedCandidate) -> (g: AutoGame)
    ensures
        g@ == auto_game_of(r@),
{
    AutoGame {
        key: r.game_key.clone(),
        title: r.title.clone(),
        known: r.registered || !same(r.source.as_str(), SRC_FALLBACK),
        auto_buffer: r.auto_buffer,
    }
}

// ---------------------------------------------------------------------------
// Laws
// ---------------------------------------------------------------------------
/// A session that the user has started is never stopped, and it stays the
/// user's for as long as it runs.
pub proof fn law_manual_session_is_never_stopped(s: AutoModel, look: LookModel)
    requires
        !s.auto_started,
    ensures
        decision(s, look).action != AutoAction::Stop,
        look.buffer_running ==> !decision(s, look).state.auto_started,
{
}

/// A buffer that runs is never started again, and one that is off is never stopped.
pub proof fn law_action_fits_the_buffer(s: AutoModel, look: LookModel)
    ensures
        decision(s, look).action == AutoAction::Start ==> !look.buffer_running,
        decision(s, look).action == AutoAction::Stop ==> look.buffer_running,
{
}

/// A game that is unknown, or that the buffer is switched off for, never starts it.
pub proof fn law_untracked_game_never_starts(s: AutoModel, look: LookModel)
    requires
        !is_tracked(look.detected),
    ensures
        decision(s, look).action != AutoAction::Start,
{
}

/// What is remembered after several looks.
pub open spec fn after_looks(s: AutoModel, looks: Seq<LookModel>) -> AutoModel
    decreases looks.len(),
{
    if looks.len() == 0 {
        s
    } else {
        decision(after_looks(s, looks.drop_last()), looks.last()).state
    }
}

/// A look at a machine whose buffer is off and where the game is there.
pub open spec fn waits_for(look: LookModel, key: Seq<char>) -> bool {
    !look.buffer_running && is_tracked(look.detected) && look.detected->0.key == key
}

/// A look at a machine whose buffer runs and where no tracked game is there.
pub open spec fn misses_game(look: LookModel) -> bool {
    look.buffer_running && !is_tracked(look.detected)
}

/// All looks from `i` on wait for the game.
pub open spec fn waits_from(looks: Seq<LookModel>, i: int, key: Seq<char>) -> bool {
    forall|j: int| i <= j < looks.len() ==> waits_for(#[trigger] looks[j], key)
}

/// All looks from `i` on miss a game.
pub open spec fn misses_from(looks: Seq<LookModel>, i: int) -> bool {
    forall|j: int| i <= j < looks.len() ==> misses_game(#[trigger] looks[j])
}

/// The looks have times that a clock of 64 bits gives.
pub open spec fn clock_times(looks: Seq<LookModel>) -> bool {
    forall|i: int| 0 <= i < looks.len() ==> i64::MIN <= (#[trigger] looks[i]).now_ms <= i64::MAX
}

proof fn lemma_looks(s: AutoModel, looks: Seq<LookModel>)
    requires
        s.pending_key is None,
        s.missing_since_ms is None,
        clock_times(looks),
    ensures
        ({
            let m = after_looks(s, looks);
            &&& m.pending_key is Some && m.pending_since_ms is Some ==> exists|i: int|
                0 <= i < looks.len() && (#[trigger] looks[i]).now_ms == m.pending_since_ms->0
                    && waits_from(looks, i, m.pending_key->0)
            &&& m.auto_started && m.missing_since_ms is Some ==> exists|i: int|
                0 <= i < looks.len() && (#[trigger] looks[i]).now_ms == m.missing_since_ms->0
                    && misses_from(looks, i)
            &&& !m.auto_started ==> m.missing_since_ms is None
        }),
    decreases looks.len(),
{
    if looks.len() > 0 {
        let init = looks.drop_last();
        assert forall|i: int| 0 <= i < init.len() implies i64::MIN <= (#[trigger] init[i]).now_ms
            <= i64::MAX by {
            assert(init[i] == looks[i]);
        }
        lemma_looks(s, init);
        let p = after_looks(s, init);
        let look = looks.last();
        let m = after_looks(s, looks);
        let last = looks.len() - 1;
        assert(looks[last] == look);
        if m.pending_key is Some && m.pending_since_ms is Some {
            let key = m.pending_key->0;
            if p.pending_key == Some(key) && p.pending_since_ms is Some {
                let i = choose|i: int|
                    0 <= i < init.len() && (#[trigger] init[i]).now_ms == p.pending_since_ms->0
                        && waits_from(init, i, key);
                assert(looks[i] == init[i]);
                assert forall|j: int| i <= j < looks.len() implies waits_for(
                    #[trigger] looks[j],
                    key,
                ) by {
                    if j < last {
                        assert(init[j] == looks[j]);
                    }
                }
            } else {
                assert(waits_from(looks, last, key));
            }
        }
        if m.auto_started && m.missing_since_ms is Some {
            if p.missing_since_ms is Some {
                let i = choose|i: int|
                    0 <= i < init.len() && (#[trigger] init[i]).now_ms == p.missing_since_ms->0
                        && misses_from(init, i);
                assert(looks[i] == init[i]);
                assert forall|j: int| i <= j < looks.len() implies misses_game(
                    #[trigger] looks[j],
                ) by {
                    if j < last {
                        assert(init[j] == looks[j]);
                    }
                }
            } else {
                assert(misses_from(looks, last));
            }
        }
    }
}

/// The buffer starts only for a game that every look of at least three seconds
/// has shown, with the buffer off.
pub proof fn law_start_waits_for_the_game(s: AutoModel, looks: Seq<LookModel>, now: LookModel)
    requires
        s.pending_key is None,
        s.missing_since_ms is None,
        clock_times(looks),
        decision(after_looks(s, looks), now).action == AutoAction::Start,
    ensures
        is_tracked(now.detected),
        exists|i: int|
            0 <= i < looks.len() && now.now_ms - (#[trigger] looks[i]).now_ms >= START_DEBOUNCE_MS
                && waits_from(looks, i, now.detected->0.key),
{
    lemma_looks(s, looks);
}

/// The buffer stops only where it was started by this machine, and every look
/// of at least seven seconds has missed the game.
pub proof fn law_stop_waits_for_the_game(s: AutoModel, looks: Seq<LookModel>, now: LookModel)
    requires
        s.pending_key is None,
        s.missing_since_ms is None,
        clock_times(looks),
        decision(after_looks(s, looks), now).action == AutoAction::Stop,
    ensures
        after_looks(s, looks).auto_started,
        exists|i: int|
            0 <= i < looks.len() && now.now_ms - (#[trigger] looks[i]).now_ms >= STOP_DEBOUNCE_MS
                && misses_from(looks, i),
{
    lemma_looks(s, looks);
}

/// The picked process may be a game, none that may be one has a better rank,
/// and none before it has the same.
pub proof fn law_picked_game_is_the_best(all: Seq<FoundModel>)
    ensures
        match picked(all) {
            Some(i) => {
                &&& 0 <= i < all.len()
                &&& may_be_game(all[i])
                &&& forall|j: int|
                    0 <= j < all.len() && may_be_game(#[trigger] all[j]) ==> rank_of(all[i])
                        <= rank_of(all[j])
                &&& forall|j: int|
                    0 <= j < i && may_be_game(#[trigger] all[j]) ==> rank_of(all[i]) < rank_of(
                        all[j],
                    )
            },
            None => forall|j: int| 0 <= j < all.len() ==> !may_be_game(#[trigger] all[j]),
        },
    decreases all.len(),
{
    if all.len() > 0 {
        let init = all.drop_last();
        law_picked_game_is_the_best(init);
        assert(forall|j: int| 0 <= j < init.len() ==> #[trigger] all[j] == init[j]);
    }
}

} // verus!
