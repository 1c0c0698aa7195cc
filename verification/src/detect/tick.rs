//! One look of the detection worker: the running games with their
//! registrations, the one that is played, and what follows for the buffer.

use vstd::prelude::*;

use crate::capture::{GameContext, GameModel};
use crate::detect::auto::{
    auto_game, auto_game_of, decide, decision, is_playable, may_be_game, pick_game, picked,
    AutoAction, AutoGame, AutoInput, AutoModel, AutoState, LookModel,
};
use crate::detect::matcher::{
    app_models, registered_app, with_custom, with_registration, AppModel, CustomApp,
};
use crate::detect::resolve::{found_models, FoundModel, ResolvedCandidate};
use crate::detect::types::{candidate_models, CandidateModel, CandidateProcess};
use crate::json::text_before;
use crate::text::{chars_of, clone_opt, same};

verus! {

broadcast use vstd::string::group_string_axioms;

// ---------------------------------------------------------------------------
// Registrations
// ---------------------------------------------------------------------------
/// The resolved processes with their registrations.
pub open spec fn registered_each(
    rs: Seq<FoundModel>,
    cs: Seq<CandidateModel>,
    apps: Seq<AppModel>,
) -> Seq<FoundModel> {
    Seq::new(
        rs.len(),
        |i: int|
            if i < cs.len() {
                with_registration(rs[i], registered_app(apps, cs[i]))
            } else {
                rs[i]
            },
    )
}

/// Resolved processes with their registrations.
pub fn apply_registrations(
    resolved: Vec<ResolvedCandidate>,
    candidates: &Vec<CandidateProcess>,
    apps: &[CustomApp],
) -> (r: Vec<ResolvedCandidate>)
    ensures
        found_models(r@) == registered_each(
            found_models(resolved@),
            candidate_models(candidates@),
            app_models(apps@),
        ),
{
    let ghost rs = found_models(resolved@);
    let ghost cs = candidate_models(candidates@);
    let ghost goal = registered_each(rs, cs, app_models(apps@));
    let mut out: Vec<ResolvedCandidate> = Vec::new();
    let mut i: usize = 0;
    while i < resolved.len()
        invariant
            rs == found_models(resolved@),
            cs == candidate_models(candidates@),
            goal == registered_each(rs, cs, app_models(apps@)),
            i <= resolved@.len(),
            found_models(out@) =~= goal.take(i as int),
        decreases resolved@.len() - i,
    {
        let ghost before = out@;
        let copied = resolved[i].copy();
        proof {
            assert(rs[i as int] == resolved@[i as int]@);
        }
        let next: ResolvedCandidate = if i < candidates.len() {
            proof {
                assert(cs[i as int] == candidates@[i as int]@);
            }
            with_custom(copied, &candidates[i], apps)
        } else {
            copied
        };
        out.push(next);
        proof {
            assert(goal[i as int] == next@);
            assert(found_models(out@) =~= found_models(before).push(next@));
        }
        i = i + 1;
    }
    proof {
        assert(found_models(out@) =~= goal);
    }
    out
}

// ---------------------------------------------------------------------------
// The picker's list
// ---------------------------------------------------------------------------
/// Whether `a` stands before `b` in the order of texts by code point.
pub fn is_before(a: &str, b: &str) -> (r: bool)
    ensures
        r == text_before(a@, b@),
{
    let x = chars_of(a);
    let y = chars_of(b);
    let mut i: usize = 0;
    proof {
        assert(x@.skip(0) =~= x@);
        assert(y@.skip(0) =~= y@);
    }
    while i < x.len() && i < y.len()
        invariant
            x@ == a@,
            y@ == b@,
            i <= x@.len(),
            i <= y@.len(),
            text_before(x@, y@) == text_before(x@.skip(i as int), y@.skip(i as int)),
        decreases x@.len() - i,
    {
        if x[i] != y[i] {
            return x[i] < y[i];
        }
        proof {
            assert(x@.skip(i as int).drop_first() =~= x@.skip(i + 1));
            assert(y@.skip(i as int).drop_first() =~= y@.skip(i + 1));
        }
        i = i + 1;
    }
    i < y.len()
}

/// The list with one more, behind all whose title does not follow its own.
pub open spec fn inserted(sorted: Seq<FoundModel>, r: FoundModel) -> Seq<FoundModel>
    decreases sorted.len(),
{
    if sorted.len() > 0 && text_before(r.title, sorted.last().title) {
        inserted(sorted.drop_last(), r).push(sorted.last())
    } else {
        sorted.push(r)
    }
}

/// The processes that may be games by their titles, those of the same title in
/// the order they came.
pub open spec fn by_title(all: Seq<FoundModel>) -> Seq<FoundModel>
    decreases all.len(),
{
    if all.len() == 0 {
        Seq::empty()
    } else {
        let init = by_title(all.drop_last());
        if may_be_game(all.last()) {
            inserted(init, all.last())
        } else {
            init
        }
    }
}

proof fn lemma_inserted(sorted: Seq<FoundModel>, r: FoundModel, i: int)
    requires
        0 <= i <= sorted.len(),
        i == 0 || !text_before(r.title, sorted[i - 1].title),
        forall|k: int| i <= k < sorted.len() ==> text_before(r.title, (#[trigger] sorted[k]).title),
    ensures
        inserted(sorted, r) == sorted.insert(i, r),
    decreases sorted.len(),
{
    if i == sorted.len() {
        assert(sorted.insert(i, r) =~= sorted.push(r));
    } else {
        let init = sorted.drop_last();
        assert forall|k: int| i <= k < init.len() implies text_before(
            r.title,
            (#[trigger] init[k]).title,
        ) by {
            assert(init[k] == sorted[k]);
        }
        if i > 0 {
            assert(init[i - 1] == sorted[i - 1]);
        }
        lemma_inserted(init, r, i);
        assert(text_before(r.title, sorted[sorted.len() - 1].title));
        assert(sorted.insert(i, r) =~= init.insert(i, r).push(sorted.last()));
    }
}

/// Processes that may be games, by their titles.
pub fn running_applications(resolved: Vec<ResolvedCandidate>) -> (r: Vec<ResolvedCandidate>)
    ensures
        found_models(r@) == by_title(found_models(resolved@)),
{
    let ghost all = found_models(resolved@);
    let mut out: Vec<ResolvedCandidate> = Vec::new();
    let mut i: usize = 0;
    proof {
        assert(all.take(0) =~= Seq::<FoundModel>::empty());
        assert(found_models(out@) =~= Seq::<FoundModel>::empty());
    }
    while i < resolved.len()
        invariant
            all == found_models(resolved@),
            i <= resolved@.len(),
            found_models(out@) == by_title(all.take(i as int)),
        decreases resolved@.len() - i,
    {
        proof {
            assert(all.take(i + 1).drop_last() =~= all.take(i as int));
            assert(all.take(i + 1).last() == resolved@[i as int]@);
        }
        if is_playable(&resolved[i]) {
            let r = resolved[i].copy();
            let mut at: usize = out.len();
            let ghost sorted = found_models(out@);
            while at > 0 && is_before(r.title.as_str(), out[at - 1].title.as_str())
                invariant
                    sorted == found_models(out@),
                    at <= out@.len(),
                    forall|k: int|
                        at <= k < sorted.len() ==> text_before(r@.title, (#[trigger] sorted[k]).title),
                decreases at,
            {
                proof {
                    assert(sorted[at - 1] == out@[at - 1]@);
                }
                at = at - 1;
            }
            proof {
                if at > 0 {
                    assert(sorted[at - 1] == out@[at - 1]@);
                }
                lemma_inserted(sorted, r@, at as int);
            }
            let ghost model = r@;
            out.insert(at, r);
            proof {
                assert(found_models(out@) =~= sorted.insert(at as int, model));
            }
        }
        i = i + 1;
    }
    proof {
        assert(all.take(all.len() as int) =~= all);
    }
    out
}

// ---------------------------------------------------------------------------
// One look
// ---------------------------------------------------------------------------
/// The row that keeps the state of a game: the first with its identity.
pub open spec fn saved_row(apps: Seq<AppModel>, key: Seq<char>) -> Option<AppModel>
    decreases apps.len(),
{
    if apps.len() == 0 {
        None
    } else if apps[0].game_key == Some(key) {
        Some(apps[0])
    } else {
        saved_row(apps.drop_first(), key)
    }
}

fn find_saved<'a>(apps: &'a [CustomApp], key: &str) -> (r: Option<&'a CustomApp>)
    ensures
        match r {
            Some(a) => saved_row(app_models(apps@), key@) == Some(a@),
            None => saved_row(app_models(apps@), key@) is None,
        },
{
    let ghost all = app_models(apps@);
    let mut i: usize = 0;
    proof {
        assert(all.skip(0) =~= all);
    }
    while i < apps.len()
        invariant
            all == app_models(apps@),
            i <= apps@.len(),
            saved_row(all, key@) == saved_row(all.skip(i as int), key@),
        decreases apps@.len() - i,
    {
        proof {
            assert(all.skip(i as int)[0] == apps@[i as int]@);
            assert(all.skip(i as int).drop_first() =~= all.skip(i + 1));
        }
        match &apps[i].game_key {
            Some(k) => {
                if same(k.as_str(), key) {
                    return Some(&apps[i]);
                }
            },
            None => {},
        }
        i = i + 1;
    }
    None
}

/// The context that a start for a game takes: its window, or the kept one, or
/// the portal; the kept token; and the chosen length within 5 seconds and an hour.
pub open spec fn start_context(r: FoundModel, saved: Option<AppModel>) -> GameModel {
    let window = if r.window_match is Some {
        r.window_match
    } else {
        match saved {
            Some(a) => a.window_match,
            None => None,
        }
    };
    GameModel {
        key: r.game_key,
        title: r.title,
        source_kind: Some(
            if window is Some {
                "x11"@
            } else {
                "portal"@
            },
        ),
        window_match: window,
        token: match saved {
            Some(a) => a.portal_token,
            None => None,
        },
        duration_seconds: match saved {
            Some(a) => match a.clip_duration_seconds {
                Some(d) => Some(
                    if d < 5 {
                        5u32
                    } else if d > 3600 {
                        3600u32
                    } else {
                        d as u32
                    },
                ),
                None => None,
            },
            None => None,
        },
    }
}

/// Context that a start for a game takes.
pub fn game_context(r: &ResolvedCandidate, apps: &[CustomApp]) -> (g: GameContext)
    ensures
        g@ == start_context(r@, saved_row(app_models(apps@), r@.game_key)),
{
    let saved = find_saved(apps, r.game_key.as_str());
    let window_match: Option<String> = if r.window_match.is_some() {
        clone_opt(&r.window_match)
    } else {
        match saved {
            Some(a) => clone_opt(&a.window_match),
            None => None,
        }
    };
    let kind = if window_match.is_some() {
        "x11"
    } else {
        "portal"
    };
    let token: Option<String> = match saved {
        Some(a) => clone_opt(&a.portal_token),
        None => None,
    };
    let duration_seconds: Option<u32> = match saved {
        Some(a) => match a.clip_duration_seconds {
            Some(d) => {
                if d < 5 {
                    Some(5)
                } else if d > 3600 {
                    Some(3600)
                } else {
                    Some(d as u32)
                }
            },
            None => None,
        },
        None => None,
    };
    GameContext {
        key: r.game_key.clone(),
        title: r.title.clone(),
        source_kind: Some(kind.to_owned()),
        window_match,
        token,
        duration_seconds,
    }
}

/// What detection remembers.
pub struct DetectState {
    pub auto: AutoState,
    /// The game that was shown last.
    pub current: Option<ResolvedCandidate>,
}

/// What an optional process stands for.
pub open spec fn opt_found(r: Option<ResolvedCandidate>) -> Option<FoundModel> {
    match r {
        Some(r) => Some(r@),
        None => None,
    }
}

/// What one look has shown.
pub struct TickOutcome {
    /// Another game is shown than before.
    pub changed: bool,
    /// The game that is played.
    pub game: Option<ResolvedCandidate>,
    pub action: AutoAction,
    /// The context of the start, where the buffer is to start.
    pub start: Option<GameContext>,
}

/// The game that is played.
pub open spec fn played(all: Seq<FoundModel>) -> Option<FoundModel> {
    match picked(all) {
        Some(i) => Some(all[i]),
        None => None,
    }
}

/// What is shown of a game.
pub open spec fn shown(r: Option<FoundModel>) -> Option<(Seq<char>, Seq<char>)> {
    match r {
        Some(r) => Some((r.game_key, r.title)),
        None => None,
    }
}

/// The look of the buffer's machine at the game that is played.
pub open spec fn look_at(game: Option<FoundModel>, now_ms: int, running: bool) -> LookModel {
    LookModel {
        now_ms,
        detected: match game {
            Some(g) => Some(auto_game_of(g)),
            None => None,
        },
        buffer_running: running,
    }
}

fn same_shown(a: &Option<ResolvedCandidate>, b: &Option<ResolvedCandidate>) -> (r: bool)
    ensures
        r == (shown(opt_found(*a)) == shown(opt_found(*b))),
{
    match (a, b) {
        (Some(x), Some(y)) => same(x.game_key.as_str(), y.game_key.as_str()) && same(
            x.title.as_str(),
            y.title.as_str(),
        ),
        (None, None) => true,
        _ => false,
    }
}

fn copy_found(r: &Option<ResolvedCandidate>) -> (c: Option<ResolvedCandidate>)
    ensures
        opt_found(c) == opt_found(*r),
{
    match r {
        Some(r) => Some(r.copy()),
        None => None,
    }
}

/// What one look leaves behind and shows.
pub struct TickModel {
    pub auto: AutoModel,
    pub current: Option<FoundModel>,
    pub changed: bool,
    pub game: Option<FoundModel>,
    pub action: AutoAction,
    pub start: Option<GameModel>,
}

/// One look at the running processes.
pub open spec fn tick_of(
    auto: AutoModel,
    current: Option<FoundModel>,
    all: Seq<FoundModel>,
    apps: Seq<AppModel>,
    now_ms: int,
    running: bool,
) -> TickModel {
    let game = played(all);
    let d = decision(auto, look_at(game, now_ms, running));
    let changed = shown(current) != shown(game);
    TickModel {
        auto: d.state,
        current: if changed {
            game
        } else {
            current
        },
        changed,
        game,
        action: d.action,
        start: if d.action == AutoAction::Start && game is Some {
            Some(start_context(game->0, saved_row(apps, game->0.game_key)))
        } else {
            None
        },
    }
}

/// One look: which game is played, whether it changed, and what follows for
/// the buffer. `resolved` are the running processes with their registrations.
pub fn detect_tick(
    state: &mut DetectState,
    resolved: &Vec<ResolvedCandidate>,
    apps: &[CustomApp],
    now_ms: i64,
    running: bool,
) -> (r: TickOutcome)
    ensures
        ({
            let t = tick_of(
                old(state).auto@,
                opt_found(old(state).current),
                found_models(resolved@),
                app_models(apps@),
                now_ms as int,
                running,
            );
            &&& final(state).auto@ == t.auto
            &&& opt_found(final(state).current) == t.current
            &&& r.changed == t.changed
            &&& opt_found(r.game) == t.game
            &&& r.action == t.action
            &&& crate::capture::opt_game(r.start) == t.start
        }),
{
    let game: Option<ResolvedCandidate> = match pick_game(resolved.as_slice()) {
        Some(g) => Some(g.copy()),
        None => None,
    };
    let seen: Option<AutoGame> = match &game {
        Some(g) => Some(auto_game(g)),
        None => None,
    };
    let detected: Option<&AutoGame> = match &seen {
        Some(g) => Some(g),
        None => None,
    };
    let action = decide(
        &mut state.auto,
        AutoInput { now_ms, detected, buffer_running: running },
    );
    let changed = !same_shown(&state.current, &game);
    if changed {
        state.current = copy_found(&game);
    }
    let start: Option<GameContext> = match &game {
        Some(g) => {
            if action == AutoAction::Start {
                Some(game_context(g, apps))
            } else {
                None
            }
        },
        None => None,
    };
    TickOutcome { changed, game, action, start }
}

// ---------------------------------------------------------------------------
// Laws
// ---------------------------------------------------------------------------
/// A start for a game always has a source: its window, or the portal.
pub proof fn law_start_has_a_source(r: FoundModel, saved: Option<AppModel>)
    ensures
        ({
            let g = start_context(r, saved);
            &&& g.source_kind == Some("x11"@) ==> g.window_match is Some
            &&& g.window_match is None ==> g.source_kind == Some("portal"@)
            &&& g.key == r.game_key
            &&& g.duration_seconds is Some ==> 5 <= g.duration_seconds->0 <= 3600
        }),
{
    reveal_strlit("x11");
    reveal_strlit("portal");
    assert("x11"@.len() == 3 && "portal"@.len() == 6);
}

/// A look that starts the buffer has a game to start it for.
pub proof fn law_start_has_a_game(s: AutoModel, game: Option<FoundModel>, now_ms: int, running: bool)
    requires
        decision(s, look_at(game, now_ms, running)).action == AutoAction::Start,
    ensures
        game is Some,
        auto_game_of(game->0).known,
        game->0.auto_buffer,
{
}

proof fn lemma_inserted_members(sorted: Seq<FoundModel>, r: FoundModel)
    ensures
        inserted(sorted, r).to_multiset() == sorted.to_multiset().insert(r),
        inserted(sorted, r).len() == sorted.len() + 1,
    decreases sorted.len(),
{
    broadcast use vstd::seq_lib::group_to_multiset_ensures;

    if sorted.len() > 0 && text_before(r.title, sorted.last().title) {
        lemma_inserted_members(sorted.drop_last(), r);
        assert(sorted =~= sorted.drop_last().push(sorted.last()));
        assert(inserted(sorted, r).to_multiset() =~= sorted.to_multiset().insert(r));
    }
}

/// The picker's list loses no game and adds none.
pub proof fn law_list_holds_every_game(all: Seq<FoundModel>)
    ensures
        by_title(all).to_multiset() == all.filter(|r: FoundModel| may_be_game(r)).to_multiset(),
    decreases all.len(),
{
    broadcast use vstd::seq_lib::group_to_multiset_ensures;

    reveal(Seq::filter);
    let p = |r: FoundModel| may_be_game(r);
    if all.len() > 0 {
        law_list_holds_every_game(all.drop_last());
        lemma_inserted_members(by_title(all.drop_last()), all.last());
    } else {
        assert(by_title(all) =~= all.filter(p));
    }
}

} // verus!
