//! Which process is taken for the game, under which identity, and when the
//! buffer follows it.

use vstd::prelude::*;

use crate::detect::auto::{
    after_looks, auto_game_of, clip_seconds, decision, law_picked_game_is_the_best, picked,
    AutoAction, AutoModel, LookModel,
};
use crate::detect::matcher::{
    app_matches, best_app, first_with, registered_app, rule_matches, with_registration, AppModel,
    STRATEGY_PRECEDENCE,
};
use crate::detect::parsers::{game_dir, wine_program};
use crate::detect::resolve::{resolved, resolved_each, FoundModel, LookupModel};
use crate::detect::tick::{
    by_title, inserted, look_at, played, registered_each, saved_row, shown, start_context,
    tick_of,
};
use crate::detect::types::{leaf_name, CandidateModel, SourceKind};
use crate::encoder_tables::strs;
use crate::json::text_before;
use crate::text::{contains, decimal, lemma_decimal_injective, lowercase, trim};

verus! {

broadcast use vstd::string::group_string_axioms;

// ---------------------------------------------------------------------------
// Picking
// ---------------------------------------------------------------------------
/// A process that uses the GPU, comes from Steam or Wine, or owns a window.
pub open spec fn is_candidate(r: FoundModel) -> bool {
    r.uses_gpu || r.steam_app_id is Some || r.is_wine || r.window_match is Some
}

/// There is a candidate of a kind.
pub open spec fn some_candidate(all: Seq<FoundModel>, kind: spec_fn(FoundModel) -> bool) -> bool {
    exists|j: int| 0 <= j < all.len() && is_candidate(#[trigger] all[j]) && kind(all[j])
}

/// The process at `i` is of a kind, one on the GPU is taken where one of that
/// kind is, and it is the first of those.
pub open spec fn is_first_of(
    all: Seq<FoundModel>,
    kind: spec_fn(FoundModel) -> bool,
    i: int,
) -> bool {
    &&& 0 <= i < all.len()
    &&& is_candidate(all[i])
    &&& kind(all[i])
    &&& !all[i].uses_gpu ==> forall|j: int|
        0 <= j < all.len() && is_candidate(#[trigger] all[j]) && kind(all[j]) ==> !all[j].uses_gpu
    &&& forall|j: int|
        0 <= j < i && is_candidate(#[trigger] all[j]) && kind(all[j]) ==> all[j].uses_gpu
            != all[i].uses_gpu
}

/// A registered game goes before all others, one of a launcher before the rest,
/// and one with a window before those without. Within its group one on the GPU
/// is taken where there is one, and the first of those.
pub proof fn law_picked_game_goes_by_group(all: Seq<FoundModel>)
    ensures
        ({
            let registered = |r: FoundModel| r.registered;
            let launched = |r: FoundModel| r.source != "fallback"@;
            let windowed = |r: FoundModel| r.window_match is Some;
            let any = |r: FoundModel| true;
            match picked(all) {
                None => !some_candidate(all, any),
                Some(i) => if some_candidate(all, registered) {
                    is_first_of(all, registered, i)
                } else if some_candidate(all, launched) {
                    is_first_of(all, launched, i)
                } else if some_candidate(all, windowed) {
                    is_first_of(all, windowed, i)
                } else {
                    is_first_of(all, any, i)
                },
            }
        }),
{
    law_picked_game_is_the_best(all);
}

/// The buffer follows a game that is registered or comes from a launcher, and
/// none that was only found running.
pub proof fn law_only_known_games_are_followed(r: FoundModel)
    ensures
        auto_game_of(r).known <==> r.registered || r.source != "fallback"@,
        auto_game_of(r).key == r.game_key,
        auto_game_of(r).title == r.title,
        auto_game_of(r).auto_buffer == r.auto_buffer,
{
}

// ---------------------------------------------------------------------------
// Identity
// ---------------------------------------------------------------------------
/// An argument that names a Windows program.
pub open spec fn is_program(arg: Seq<char>) -> bool {
    ".exe"@.is_suffix_of(lowercase(arg)) && (arg.len() == 0 || arg[0] != '-')
}

/// The first argument that names a Windows program is the one at `i`.
pub open spec fn first_program(args: Seq<Seq<char>>, i: int) -> bool {
    &&& 0 <= i < args.len()
    &&& is_program(args[i])
    &&& forall|j: int| 0 <= j < i ==> !is_program(#[trigger] args[j])
}

proof fn lemma_program(args: Seq<Seq<char>>)
    ensures
        match wine_program(args) {
            Some(p) => exists|i: int| #[trigger] first_program(args, i) && args[i] == p,
            None => forall|i: int| 0 <= i < args.len() ==> !is_program(#[trigger] args[i]),
        },
    decreases args.len(),
{
    if args.len() > 0 {
        let rest = args.drop_first();
        lemma_program(rest);
        if is_program(args[0]) {
            assert(first_program(args, 0));
        } else {
            match wine_program(rest) {
                Some(p) => {
                    let i = choose|i: int| #[trigger] first_program(rest, i) && rest[i] == p;
                    assert forall|j: int| 0 <= j < i + 1 implies !is_program(#[trigger] args[j]) by {
                        if j > 0 {
                            assert(args[j] == rest[j - 1]);
                        }
                    }
                    assert(args[i + 1] == rest[i]);
                    assert(first_program(args, i + 1));
                },
                None => {
                    assert forall|j: int| 0 <= j < args.len() implies !is_program(
                        #[trigger] args[j],
                    ) by {
                        if j > 0 {
                            assert(args[j] == rest[j - 1]);
                        }
                    }
                },
            }
        }
    }
}

proof fn lemma_sources_differ()
    ensures
        "steam"@.len() == 5 && "steam"@[0] == 's',
        "heroic"@.len() == 6,
        "prism"@.len() == 5 && "prism"@[0] == 'p',
        "wine"@.len() == 4,
        "fallback"@.len() == 8,
        "custom"@.len() == 6 && "custom"@[0] == 'c' && "heroic"@[0] == 'h',
{
    reveal_strlit("steam");
    reveal_strlit("heroic");
    reveal_strlit("prism");
    reveal_strlit("wine");
    reveal_strlit("fallback");
    reveal_strlit("custom");
}

/// A process that runs below Wine has the identity of the first Windows program
/// among its arguments, in lower case.
pub proof fn law_wine_games_are_known_by_their_program(c: CandidateModel, names: LookupModel)
    requires
        resolved(c, names).source == "wine"@,
    ensures
        c.is_wine,
        exists|i: int| #[trigger]
            first_program(c.cmdline, i) && resolved(c, names).game_key == "wine:"@ + lowercase(
                c.cmdline[i],
            ),
{
    lemma_sources_differ();
    lemma_program(c.cmdline);
    let p = wine_program(c.cmdline)->0;
    let i = choose|i: int| #[trigger] first_program(c.cmdline, i) && c.cmdline[i] == p;
    assert(first_program(c.cmdline, i));
}

/// Two processes below Wine are the same game only where the programs that they
/// run differ at most in the case of letters.
pub proof fn law_wine_games_differ(
    a: CandidateModel,
    b: CandidateModel,
    names: LookupModel,
    i: int,
    j: int,
)
    requires
        resolved(a, names).source == "wine"@,
        resolved(b, names).source == "wine"@,
        first_program(a.cmdline, i),
        first_program(b.cmdline, j),
    ensures
        resolved(a, names).game_key == resolved(b, names).game_key <==> lowercase(a.cmdline[i])
            == lowercase(b.cmdline[j]),
{
    law_wine_games_are_known_by_their_program(a, names);
    law_wine_games_are_known_by_their_program(b, names);
    let x = choose|x: int| #[trigger]
        first_program(a.cmdline, x) && resolved(a, names).game_key == "wine:"@ + lowercase(
            a.cmdline[x],
        );
    let y = choose|y: int| #[trigger]
        first_program(b.cmdline, y) && resolved(b, names).game_key == "wine:"@ + lowercase(
            b.cmdline[y],
        );
    assert(x == i) by {
        if x < i {
            assert(!is_program(a.cmdline[x]));
        } else if i < x {
            assert(!is_program(a.cmdline[i]));
        }
    }
    assert(y == j) by {
        if y < j {
            assert(!is_program(b.cmdline[y]));
        } else if j < y {
            assert(!is_program(b.cmdline[j]));
        }
    }
    let n = "wine:"@.len() as int;
    assert(resolved(a, names).game_key.skip(n) =~= lowercase(a.cmdline[i]));
    assert(resolved(b, names).game_key.skip(n) =~= lowercase(b.cmdline[j]));
}

/// A game that Steam knows has its name and the identity of its app. One that
/// Heroic knows has its title, one of Minecraft the name of its instance; a
/// process that nobody knows has the identity of its binary.
pub proof fn law_games_are_known_by_their_launcher(c: CandidateModel, names: LookupModel)
    ensures
        ({
            let r = resolved(c, names);
            let exe = lowercase(leaf_name(c.exe));
            let steam = c.steam_app_id is Some && names.steam.contains_key(c.steam_app_id->0);
            let heroic = !steam && names.heroic.contains_key(exe);
            let minecraft = !steam && !heroic && exists|i: int|
                0 <= i < c.cmdline.len() && contains(
                    #[trigger] c.cmdline[i],
                    "net.minecraft.client.main.Main"@,
                );
            &&& r.source == "steam"@ <==> steam
            &&& r.source == "heroic"@ <==> heroic
            &&& r.source == "prism"@ <==> minecraft
            &&& steam ==> r.title == names.steam[c.steam_app_id->0] && r.game_key == "steam:"@
                + decimal(c.steam_app_id->0 as nat)
            &&& heroic ==> r.title == names.heroic[exe] && r.game_key == "exe:"@ + lowercase(exe)
            &&& minecraft && game_dir(c.cmdline) is Some ==> {
                let instance = game_dir(c.cmdline)->0;
                &&& r.game_key == "prism:"@ + lowercase(instance)
                &&& names.prism.contains_key(instance) ==> r.title == names.prism[instance]
                &&& !names.prism.contains_key(instance) ==> r.title == "Minecraft ("@ + instance
                    + ")"@
            }
            &&& r.source == "fallback"@ ==> r.game_key == "exe:"@ + lowercase(exe)
            &&& r.source == "fallback"@ && c.window is Some && trim(c.window->0.name).len() > 0
                ==> r.title == c.window->0.name
            &&& r.source == "wine"@ || r.source == "fallback"@ || steam || heroic || minecraft
            &&& !c.is_wine && !steam && !heroic && !minecraft ==> r.source == "fallback"@
        }),
{
    lemma_sources_differ();
}

/// Apps of Steam are different games.
pub proof fn law_steam_apps_are_different_games(
    a: CandidateModel,
    b: CandidateModel,
    names: LookupModel,
)
    requires
        resolved(a, names).source == "steam"@,
        resolved(b, names).source == "steam"@,
    ensures
        resolved(a, names).game_key == resolved(b, names).game_key <==> a.steam_app_id
            == b.steam_app_id,
{
    law_games_are_known_by_their_launcher(a, names);
    law_games_are_known_by_their_launcher(b, names);
    let n = "steam:"@.len() as int;
    if resolved(a, names).game_key == resolved(b, names).game_key {
        let x = a.steam_app_id->0 as nat;
        let y = b.steam_app_id->0 as nat;
        assert(resolved(a, names).game_key.skip(n) =~= decimal(x));
        assert(resolved(b, names).game_key.skip(n) =~= decimal(y));
        lemma_decimal_injective(x, y);
    }
}

/// A window is captured by its number, name and class, one below the other; a
/// process without one is captured through the portal.
pub proof fn law_windows_are_matched_by_number_name_and_class(c: CandidateModel, names: LookupModel)
    ensures
        ({
            let r = resolved(c, names);
            match c.window {
                Some(w) => r.source_kind == SourceKind::X11 && r.window_match == Some(
                    decimal(w.id) + "\r\n"@ + w.name + "\r\n"@ + w.class,
                ),
                None => r.source_kind == SourceKind::Portal && r.window_match is None,
            }
        }),
{
}

// ---------------------------------------------------------------------------
// Following a game
// ---------------------------------------------------------------------------
/// A look that finds a known game, for which the buffer is switched on.
pub open spec fn sees(look: LookModel, key: Seq<char>) -> bool {
    look.detected is Some && look.detected->0.known && look.detected->0.auto_buffer
        && look.detected->0.key == key
}

/// A look that finds none.
pub open spec fn sees_nothing(look: LookModel) -> bool {
    look.detected is None || !look.detected->0.known || !look.detected->0.auto_buffer
}

/// The time of each look lies within the milliseconds after the first.
pub open spec fn within(looks: Seq<LookModel>, span: int) -> bool {
    forall|i: int| 0 <= i < looks.len() ==> (#[trigger] looks[i]).now_ms - looks[0].now_ms < span
}

proof fn lemma_pending(s: AutoModel, looks: Seq<LookModel>, key: Seq<char>)
    requires
        s.pending_key != Some(key),
        looks.len() > 0,
        i64::MIN <= looks[0].now_ms <= i64::MAX,
        forall|i: int|
            0 <= i < looks.len() ==> sees(#[trigger] looks[i], key) && !looks[i].buffer_running,
        within(looks, 3_000),
    ensures
        ({
            let m = after_looks(s, looks);
            m.pending_key == Some(key) && m.pending_since_ms is Some && m.pending_since_ms->0
                == looks[0].now_ms
        }),
        decision(after_looks(s, looks.drop_last()), looks.last()).action == AutoAction::Wait,
    decreases looks.len(),
{
    let init = looks.drop_last();
    assert(looks[looks.len() - 1] == looks.last());
    if init.len() > 0 {
        assert forall|i: int| 0 <= i < init.len() implies sees(#[trigger] init[i], key)
            && !init[i].buffer_running by {
            assert(init[i] == looks[i]);
        }
        assert forall|i: int| 0 <= i < init.len() implies (#[trigger] init[i]).now_ms - init[0].now_ms
            < 3_000 by {
            assert(init[i] == looks[i]);
        }
        lemma_pending(s, init, key);
    } else {
        assert(after_looks(s, init) == s);
    }
}

/// A game that keeps being seen while the buffer is off starts it three seconds
/// after it was first seen, and not before.
pub proof fn law_buffer_starts_after_three_seconds(
    s: AutoModel,
    looks: Seq<LookModel>,
    now: LookModel,
    key: Seq<char>,
)
    requires
        s.pending_key != Some(key),
        looks.len() > 0,
        i64::MIN <= looks[0].now_ms <= i64::MAX,
        forall|i: int|
            0 <= i < looks.len() ==> sees(#[trigger] looks[i], key) && !looks[i].buffer_running,
        within(looks, 3_000),
        sees(now, key),
        !now.buffer_running,
    ensures
        ({
            let d = decision(after_looks(s, looks), now);
            &&& d.action == if now.now_ms - looks[0].now_ms >= 3_000 {
                AutoAction::Start
            } else {
                AutoAction::Wait
            }
            &&& d.action == AutoAction::Start ==> d.state.auto_started
        }),
{
    lemma_pending(s, looks, key);
}

proof fn lemma_missing(s: AutoModel, looks: Seq<LookModel>)
    requires
        s.auto_started,
        s.missing_since_ms is None,
        looks.len() > 0,
        i64::MIN <= looks[0].now_ms <= i64::MAX,
        forall|i: int|
            0 <= i < looks.len() ==> sees_nothing(#[trigger] looks[i]) && looks[i].buffer_running,
        within(looks, 7_000),
    ensures
        ({
            let m = after_looks(s, looks);
            m.auto_started && m.missing_since_ms is Some && m.missing_since_ms->0
                == looks[0].now_ms
        }),
    decreases looks.len(),
{
    let init = looks.drop_last();
    assert(looks[looks.len() - 1] == looks.last());
    if init.len() > 0 {
        assert forall|i: int| 0 <= i < init.len() implies sees_nothing(#[trigger] init[i])
            && init[i].buffer_running by {
            assert(init[i] == looks[i]);
        }
        assert forall|i: int| 0 <= i < init.len() implies (#[trigger] init[i]).now_ms - init[0].now_ms
            < 7_000 by {
            assert(init[i] == looks[i]);
        }
        lemma_missing(s, init);
    } else {
        assert(after_looks(s, init) == s);
    }
}

/// A session that was started for a game stops seven seconds after the game was
/// first missed, and not before; one that the user started never does.
pub proof fn law_buffer_stops_after_seven_seconds(
    s: AutoModel,
    looks: Seq<LookModel>,
    now: LookModel,
)
    requires
        s.missing_since_ms is None,
        looks.len() > 0,
        i64::MIN <= looks[0].now_ms <= i64::MAX,
        forall|i: int|
            0 <= i < looks.len() ==> sees_nothing(#[trigger] looks[i]) && looks[i].buffer_running,
        within(looks, 7_000),
        sees_nothing(now),
        now.buffer_running,
    ensures
        s.auto_started ==> decision(after_looks(s, looks), now).action == if now.now_ms
            - looks[0].now_ms >= 7_000 {
            AutoAction::Stop
        } else {
            AutoAction::Wait
        },
        !s.auto_started ==> decision(after_looks(s, looks), now).action == AutoAction::Wait,
{
    if s.auto_started {
        lemma_missing(s, looks);
    } else {
        lemma_never_ours(s, looks);
    }
}

proof fn lemma_never_ours(s: AutoModel, looks: Seq<LookModel>)
    requires
        !s.auto_started,
        forall|i: int|
            0 <= i < looks.len() ==> sees_nothing(#[trigger] looks[i]) && looks[i].buffer_running,
    ensures
        !after_looks(s, looks).auto_started,
    decreases looks.len(),
{
    if looks.len() > 0 {
        let init = looks.drop_last();
        assert forall|i: int| 0 <= i < init.len() implies sees_nothing(#[trigger] init[i])
            && init[i].buffer_running by {
            assert(init[i] == looks[i]);
        }
        lemma_never_ours(s, init);
        assert(looks[looks.len() - 1] == looks.last());
    }
}

/// A game that is seen again ends the wait: what was missed is forgotten, and
/// the session stays that of the game.
pub proof fn law_a_game_that_returns_is_not_missed(s: AutoModel, look: LookModel, key: Seq<char>)
    requires
        sees(look, key),
        look.buffer_running,
    ensures
        decision(s, look).action == AutoAction::Wait,
        decision(s, look).state.missing_since_ms is None,
        decision(s, look).state.auto_started == s.auto_started,
{
}

/// The length that a start asks for goes first, then that of the game, then the
/// general one. None is below five seconds or above an hour.
pub proof fn law_clip_length(override_s: Option<u32>, game_s: Option<u32>, global_s: u32)
    ensures
        ({
            let wanted = match override_s {
                Some(s) => s,
                None => match game_s {
                    Some(s) => s,
                    None => global_s,
                },
            };
            let r = clip_seconds(override_s, game_s, global_s);
            &&& 5 <= wanted <= 3600 ==> r == wanted
            &&& wanted < 5 ==> r == 5
            &&& wanted > 3600 ==> r == 3600
        }),
{
}

// ---------------------------------------------------------------------------
// Starting for a game
// ---------------------------------------------------------------------------
/// A start for a game has its identity and title, the window that is there or
/// else the one that was stored, and the token and clip length that are stored.
pub proof fn law_start_takes_what_is_stored_for_the_game(r: FoundModel, saved: Option<AppModel>)
    ensures
        ({
            let g = start_context(r, saved);
            &&& g.key == r.game_key
            &&& g.title == r.title
            &&& r.window_match is Some ==> g.window_match == r.window_match
            &&& r.window_match is None && saved is Some ==> g.window_match == saved->0.window_match
            &&& saved is None ==> g.window_match == r.window_match && g.token is None
                && g.duration_seconds is None
            &&& saved is Some ==> g.token == saved->0.portal_token
            &&& saved is Some ==> match saved->0.clip_duration_seconds {
                None => g.duration_seconds is None,
                Some(d) => {
                    &&& g.duration_seconds is Some
                    &&& 5 <= d <= 3600 ==> g.duration_seconds->0 == d
                    &&& d < 5 ==> g.duration_seconds->0 == 5
                    &&& d > 3600 ==> g.duration_seconds->0 == 3600
                },
            }
            &&& g.source_kind == Some(
                if g.window_match is Some {
                    "x11"@
                } else {
                    "portal"@
                },
            )
        }),
{
}

/// What is stored for a game is the first row of its identity.
pub proof fn law_saved_row_is_that_of_the_game(apps: Seq<AppModel>, key: Seq<char>)
    ensures
        match saved_row(apps, key) {
            Some(a) => exists|i: int|
                0 <= i < apps.len() && #[trigger] apps[i] == a && a.game_key == Some(key)
                    && forall|j: int| 0 <= j < i ==> (#[trigger] apps[j]).game_key != Some(key),
            None => forall|j: int| 0 <= j < apps.len() ==> (#[trigger] apps[j]).game_key != Some(key),
        },
    decreases apps.len(),
{
    if apps.len() > 0 {
        let rest = apps.drop_first();
        law_saved_row_is_that_of_the_game(rest, key);
        if apps[0].game_key == Some(key) {
            assert(apps[0] == apps[0]);
        } else {
            match saved_row(rest, key) {
                Some(a) => {
                    let i = choose|i: int|
                        0 <= i < rest.len() && #[trigger] rest[i] == a && a.game_key == Some(key)
                            && forall|j: int|
                            0 <= j < i ==> (#[trigger] rest[j]).game_key != Some(key);
                    assert(apps[i + 1] == a);
                    assert forall|j: int| 0 <= j < i + 1 implies (#[trigger] apps[j]).game_key
                        != Some(key) by {
                        if j > 0 {
                            assert(rest[j - 1] == apps[j]);
                        }
                    }
                },
                None => {
                    assert forall|j: int| 0 <= j < apps.len() implies (#[trigger] apps[j]).game_key
                        != Some(key) by {
                        if j > 0 {
                            assert(rest[j - 1] == apps[j]);
                        }
                    }
                },
            }
        }
    }
}

// ---------------------------------------------------------------------------
// Registration
// ---------------------------------------------------------------------------
/// Each rule looks at its own part of a process, and none matches an empty target.
pub proof fn law_rules_look_at_their_own_part(
    strategy: Seq<char>,
    target: Seq<char>,
    c: CandidateModel,
)
    ensures
        ({
            let holds = |rule: Seq<char>| rule_matches(rule, target, c);
            let filled = target.len() > 0;
            let name = lowercase(leaf_name(c.exe));
            &&& holds("exact_exe"@) <==> filled && (name == leaf_name(target) || lowercase(c.exe)
                == target)
            &&& holds("steam_appid"@) <==> filled && c.steam_app_id is Some && decimal(
                c.steam_app_id->0 as nat,
            ) == target
            &&& holds("prism_instance"@) <==> filled && game_dir(c.cmdline) is Some && lowercase(
                game_dir(c.cmdline)->0,
            ) == target
            &&& holds("wine_target"@) <==> filled && c.is_wine && exists|i: int|
                0 <= i < c.cmdline.len() && leaf_name(lowercase(#[trigger] c.cmdline[i]))
                    == leaf_name(target)
            &&& holds("cmdline_contains"@) <==> filled && exists|i: int|
                0 <= i < c.cmdline.len() && contains(lowercase(#[trigger] c.cmdline[i]), target)
            &&& holds("window_title"@) <==> filled && c.window is Some && contains(
                lowercase(c.window->0.name),
                target,
            )
        }),
{
    reveal_strlit("exact_exe");
    reveal_strlit("steam_appid");
    reveal_strlit("prism_instance");
    reveal_strlit("wine_target");
    reveal_strlit("cmdline_contains");
    reveal_strlit("window_title");
    assert("exact_exe"@.len() == 9 && "steam_appid"@.len() == 11 && "steam_appid"@[0] == 's'
        && "prism_instance"@.len() == 14 && "wine_target"@.len() == 11 && "wine_target"@[0] == 'w'
        && "cmdline_contains"@.len() == 16 && "window_title"@.len() == 12);
}

/// What is compared is the registered target, trimmed and in lower case, by the
/// rule of its row.
pub proof fn law_registered_target_is_compared_in_lower_case(a: AppModel, c: CandidateModel)
    ensures
        app_matches(a, c) == rule_matches(a.match_strategy, lowercase(trim(a.target_exe)), c),
{
}

/// The place of a rule: the binary first, then the app of Steam, the instance of
/// Minecraft, the Windows program, the command line and the title of the window.
pub open spec fn rule_place(rule: Seq<char>) -> int {
    if rule == "exact_exe"@ {
        0
    } else if rule == "steam_appid"@ {
        1
    } else if rule == "prism_instance"@ {
        2
    } else if rule == "wine_target"@ {
        3
    } else if rule == "cmdline_contains"@ {
        4
    } else if rule == "window_title"@ {
        5
    } else {
        6
    }
}

proof fn lemma_first_row(apps: Seq<AppModel>, rule: Seq<char>, c: CandidateModel)
    ensures
        match first_with(apps, rule, c) {
            Some(a) => exists|i: int|
                0 <= i < apps.len() && #[trigger] apps[i] == a && a.match_strategy == rule
                    && app_matches(a, c) && forall|j: int|
                    0 <= j < i && (#[trigger] apps[j]).match_strategy == rule ==> !app_matches(
                        apps[j],
                        c,
                    ),
            None => forall|j: int|
                0 <= j < apps.len() && (#[trigger] apps[j]).match_strategy == rule ==> !app_matches(
                    apps[j],
                    c,
                ),
        },
    decreases apps.len(),
{
    if apps.len() > 0 {
        let rest = apps.drop_first();
        lemma_first_row(rest, rule, c);
        if apps[0].match_strategy == rule && app_matches(apps[0], c) {
            assert(apps[0] == apps[0]);
        } else {
            match first_with(rest, rule, c) {
                Some(a) => {
                    let i = choose|i: int|
                        0 <= i < rest.len() && #[trigger] rest[i] == a && a.match_strategy == rule
                            && app_matches(a, c) && forall|j: int|
                            0 <= j < i && (#[trigger] rest[j]).match_strategy == rule
                                ==> !app_matches(rest[j], c);
                    assert(apps[i + 1] == a);
                    assert forall|j: int|
                        0 <= j < i + 1 && (#[trigger] apps[j]).match_strategy
                            == rule implies !app_matches(apps[j], c) by {
                        if j > 0 {
                            assert(rest[j - 1] == apps[j]);
                        }
                    }
                },
                None => {
                    assert forall|j: int|
                        0 <= j < apps.len() && (#[trigger] apps[j]).match_strategy
                            == rule implies !app_matches(apps[j], c) by {
                        if j > 0 {
                            assert(rest[j - 1] == apps[j]);
                        }
                    }
                },
            }
        }
    }
}

/// Of the rows that match a process, the one with the strictest rule counts, and
/// the first of those; none counts only where none matches.
pub proof fn law_strictest_row_counts(apps: Seq<AppModel>, c: CandidateModel)
    ensures
        match registered_app(apps, c) {
            Some(a) => exists|i: int|
                0 <= i < apps.len() && #[trigger] apps[i] == a && app_matches(a, c) && forall|j: int|
                    0 <= j < apps.len() && app_matches(#[trigger] apps[j], c) ==> rule_place(
                        a.match_strategy,
                    ) < rule_place(apps[j].match_strategy) || (a.match_strategy
                        == apps[j].match_strategy && i <= j),
            None => forall|j: int| 0 <= j < apps.len() ==> !app_matches(#[trigger] apps[j], c),
        },
{
    let rules = strs(STRATEGY_PRECEDENCE@);
    assert(rules.len() == 6);
    assert(rules[0] == "exact_exe"@);
    assert(rules[1] == "steam_appid"@);
    assert(rules[2] == "prism_instance"@);
    assert(rules[3] == "wine_target"@);
    assert(rules[4] == "cmdline_contains"@);
    assert(rules[5] == "window_title"@);
    law_rules_look_at_their_own_part("exact_exe"@, Seq::empty(), c);
    assert(rules.drop_first() =~= rules.skip(1));
    assert(rules.skip(1).drop_first() =~= rules.skip(2));
    assert(rules.skip(2).drop_first() =~= rules.skip(3));
    assert(rules.skip(3).drop_first() =~= rules.skip(4));
    assert(rules.skip(4).drop_first() =~= rules.skip(5));
    assert(rules.skip(5).drop_first() =~= rules.skip(6));
    reveal_with_fuel(best_app, 8);
    lemma_first_row(apps, rules[0], c);
    lemma_first_row(apps, rules[1], c);
    lemma_first_row(apps, rules[2], c);
    lemma_first_row(apps, rules[3], c);
    lemma_first_row(apps, rules[4], c);
    lemma_first_row(apps, rules[5], c);
    assert forall|j: int| 0 <= j < apps.len() && app_matches(#[trigger] apps[j], c) implies rule_place(
        apps[j].match_strategy,
    ) < 6 by {}
    if registered_app(apps, c) is Some {
        let a = registered_app(apps, c)->0;
        let k = rule_place(a.match_strategy);
        lemma_first_row(apps, a.match_strategy, c);
        assert(first_with(apps, a.match_strategy, c) == Some(a));
        let i = choose|i: int|
            0 <= i < apps.len() && #[trigger] apps[i] == a && forall|j: int|
                0 <= j < i && (#[trigger] apps[j]).match_strategy == a.match_strategy
                    ==> !app_matches(apps[j], c);
        assert(apps[i] == a);
    }
}

/// A registered game shows what the user has entered: its name, icon, length
/// and whether the buffer follows it.
pub proof fn law_registered_game_shows_its_row(r: FoundModel, a: AppModel)
    ensures
        ({
            let w = with_registration(r, Some(a));
            &&& w.registered
            &&& w.source == "custom"@
            &&& w.title == a.display_name
            &&& w.custom_id == Some(a.id)
            &&& w.auto_buffer == a.auto_buffer
            &&& w.clip_duration_seconds == a.clip_duration_seconds
            &&& w.icon_path == a.icon_path
            &&& w.game_key == r.game_key
        }),
{
}

// ---------------------------------------------------------------------------
// The list
// ---------------------------------------------------------------------------
/// No title of a list stands after a later one.
pub open spec fn titles_ascend(all: Seq<FoundModel>) -> bool {
    forall|i: int, j: int|
        0 <= i < j < all.len() ==> !text_before(
            (#[trigger] all[j]).title,
            (#[trigger] all[i]).title,
        )
}

pub proof fn lemma_before_is_an_order(a: Seq<char>, b: Seq<char>, c: Seq<char>)
    ensures
        !(text_before(a, b) && text_before(b, a)),
        text_before(a, b) && text_before(b, c) ==> text_before(a, c),
        text_before(a, b) && !text_before(c, b) ==> text_before(a, c),
    decreases a.len(),
{
    if a.len() > 0 && b.len() > 0 && c.len() > 0 {
        if a[0] == b[0] && b[0] == c[0] {
            lemma_before_is_an_order(a.drop_first(), b.drop_first(), c.drop_first());
        } else if a[0] == b[0] {
            lemma_before_is_an_order(a.drop_first(), b.drop_first(), c);
        }
    } else if a.len() > 0 && b.len() > 0 && a[0] == b[0] {
        lemma_before_is_an_order(a.drop_first(), b.drop_first(), c);
    }
}

proof fn lemma_inserted(sorted: Seq<FoundModel>, r: FoundModel)
    requires
        titles_ascend(sorted),
    ensures
        titles_ascend(inserted(sorted, r)),
        inserted(sorted, r).len() == sorted.len() + 1,
        forall|k: int|
            0 <= k <= sorted.len() ==> (#[trigger] inserted(sorted, r)[k]) == r || exists|m: int|
                0 <= m < sorted.len() && #[trigger] sorted[m] == inserted(sorted, r)[k],
    decreases sorted.len(),
{
    let out = inserted(sorted, r);
    if sorted.len() > 0 && text_before(r.title, sorted.last().title) {
        let init = sorted.drop_last();
        assert forall|i: int, j: int| 0 <= i < j < init.len() implies !text_before(
            (#[trigger] init[j]).title,
            (#[trigger] init[i]).title,
        ) by {
            assert(init[i] == sorted[i] && init[j] == sorted[j]);
        }
        lemma_inserted(init, r);
        let before = inserted(init, r);
        let last = sorted.last();
        assert(sorted[sorted.len() - 1] == last);
        assert forall|k: int| 0 <= k < before.len() implies !text_before(
            last.title,
            (#[trigger] before[k]).title,
        ) by {
            lemma_before_is_an_order(r.title, last.title, r.title);
            if before[k] != r {
                let m = choose|m: int| 0 <= m < init.len() && #[trigger] init[m] == before[k];
                assert(sorted[m] == before[k]);
            }
        }
        assert forall|i: int, j: int| 0 <= i < j < out.len() implies !text_before(
            (#[trigger] out[j]).title,
            (#[trigger] out[i]).title,
        ) by {
            assert(out[i] == before[i]);
            if j < before.len() {
                assert(out[j] == before[j]);
            }
        }
        assert forall|k: int| 0 <= k <= sorted.len() implies (#[trigger] out[k]) == r || exists|m: int|
            0 <= m < sorted.len() && #[trigger] sorted[m] == out[k] by {
            if k < before.len() {
                assert(out[k] == before[k]);
                if before[k] != r {
                    let m = choose|m: int| 0 <= m < init.len() && #[trigger] init[m] == before[k];
                    assert(sorted[m] == out[k]);
                }
            } else {
                assert(sorted[sorted.len() - 1] == out[k]);
            }
        }
    } else {
        assert forall|i: int, j: int| 0 <= i < j < out.len() implies !text_before(
            (#[trigger] out[j]).title,
            (#[trigger] out[i]).title,
        ) by {
            assert(out[i] == sorted[i]);
            if j < sorted.len() {
                assert(out[j] == sorted[j]);
            } else {
                let last = sorted[sorted.len() - 1];
                if i < sorted.len() - 1 {
                    assert(!text_before(last.title, sorted[i].title));
                    lemma_before_is_an_order(r.title, sorted[i].title, last.title);
                }
            }
        }
        assert forall|k: int| 0 <= k <= sorted.len() implies (#[trigger] out[k]) == r || exists|m: int|
            0 <= m < sorted.len() && #[trigger] sorted[m] == out[k] by {
            if k < sorted.len() {
                assert(sorted[k] == out[k]);
            }
        }
    }
}

/// The list of games goes by their titles.
pub proof fn law_list_goes_by_title(all: Seq<FoundModel>)
    ensures
        titles_ascend(by_title(all)),
    decreases all.len(),
{
    if all.len() > 0 {
        law_list_goes_by_title(all.drop_last());
        lemma_inserted(by_title(all.drop_last()), all.last());
    }
}

// ---------------------------------------------------------------------------
// One look at the machine
// ---------------------------------------------------------------------------
/// The game that is played is one of the processes, and there is one where a
/// candidate runs.
pub proof fn law_played_game_runs(all: Seq<FoundModel>)
    ensures
        match played(all) {
            Some(g) => all.contains(g) && is_candidate(g),
            None => forall|i: int| 0 <= i < all.len() ==> !is_candidate(#[trigger] all[i]),
        },
{
    law_picked_game_is_the_best(all);
}

/// Another game is shown where its identity or its title is another, or where
/// one was and none is, or the other way round; nothing else counts.
pub proof fn law_another_game_is_shown(before: Option<FoundModel>, now: Option<FoundModel>)
    ensures
        shown(before) == shown(now) <==> match (before, now) {
            (None, None) => true,
            (Some(a), Some(b)) => a.game_key == b.game_key && a.title == b.title,
            _ => false,
        },
{
}

/// What a look tells of the game is what was found, at the time of the look.
pub proof fn law_look_tells_what_was_found(game: Option<FoundModel>, now_ms: int, running: bool)
    ensures
        ({
            let l = look_at(game, now_ms, running);
            &&& l.now_ms == now_ms
            &&& l.buffer_running == running
            &&& l.detected is Some <==> game is Some
            &&& game matches Some(g) ==> l.detected->0.key == g.game_key && l.detected->0.title
                == g.title && l.detected->0.auto_buffer == g.auto_buffer
        }),
{
}

/// Each process is resolved by itself and looked up among the registrations by
/// itself, in its place.
pub proof fn law_processes_keep_their_places(
    cs: Seq<CandidateModel>,
    names: LookupModel,
    apps: Seq<AppModel>,
    i: int,
)
    requires
        0 <= i < cs.len(),
    ensures
        ({
            let found = resolved_each(cs, names);
            let all = registered_each(found, cs, apps);
            &&& found.len() == cs.len()
            &&& all.len() == cs.len()
            &&& found[i] == resolved(cs[i], names)
            &&& all[i].pid == cs[i].pid
            &&& all[i].game_key == resolved(cs[i], names).game_key
            &&& all[i].registered <==> exists|j: int|
                0 <= j < apps.len() && app_matches(#[trigger] apps[j], cs[i])
        }),
{
    law_strictest_row_counts(apps, cs[i]);
}

/// A session that has ended is forgotten: once a look has found the buffer off
/// and no game, whatever session follows is the user's own, and is never
/// stopped however long no game is there.
pub proof fn law_ended_session_is_forgotten(s: AutoModel, ended: LookModel, looks: Seq<LookModel>, now: LookModel)
    requires
        sees_nothing(ended),
        !ended.buffer_running,
        forall|i: int|
            0 <= i < looks.len() ==> sees_nothing(#[trigger] looks[i]) && looks[i].buffer_running,
        sees_nothing(now),
    ensures
        ({
            let m = decision(s, ended).state;
            &&& m.pending_key is None && m.pending_since_ms is None && m.missing_since_ms is None
            &&& !m.auto_started
            &&& decision(after_looks(m, looks), now).action == AutoAction::Wait
        }),
{
    lemma_never_ours(decision(s, ended).state, looks);
}

/// A game that is gone is waited for anew when it comes back, and so is another
/// game than the one that was waited for.
pub proof fn law_wait_starts_anew(s: AutoModel, look: LookModel, key: Seq<char>)
    requires
        i64::MIN <= look.now_ms <= i64::MAX,
    ensures
        sees_nothing(look) ==> decision(s, look).state.pending_key is None,
        look.buffer_running ==> decision(s, look).state.pending_key is None,
        sees(look, key) && !look.buffer_running && s.pending_key != Some(key) ==> {
            let d = decision(s, look);
            &&& d.action == AutoAction::Wait
            &&& d.state.pending_key == Some(key)
            &&& d.state.pending_since_ms is Some && d.state.pending_since_ms->0 == look.now_ms
        },
{
}

/// After a look the game that is shown is the one that is played, and one that
/// runs. A change is told if and only if its identity or its title is another
/// than before, so that the same look again tells none.
pub proof fn law_a_look_shows_the_played_game(
    auto: AutoModel,
    current: Option<FoundModel>,
    all: Seq<FoundModel>,
    apps: Seq<AppModel>,
    now_ms: int,
    running: bool,
    later_ms: int,
    still_running: bool,
)
    ensures
        ({
            let t = tick_of(auto, current, all, apps, now_ms, running);
            let again = tick_of(t.auto, t.current, all, apps, later_ms, still_running);
            &&& t.game is Some <==> exists|i: int|
                0 <= i < all.len() && is_candidate(#[trigger] all[i])
            &&& t.game matches Some(g) ==> all.contains(g) && is_candidate(g)
            &&& t.current is Some <==> t.game is Some
            &&& t.game matches Some(g) ==> t.current->0.game_key == g.game_key
                && t.current->0.title == g.title
            &&& t.changed <==> match (current, t.game) {
                (None, None) => false,
                (Some(a), Some(b)) => a.game_key != b.game_key || a.title != b.title,
                _ => true,
            }
            &&& t.changed ==> t.current == t.game
            &&& !t.changed ==> t.current == current
            &&& !again.changed
            &&& again.current == t.current
            &&& again.game == t.game
        }),
{
    law_played_game_runs(all);
}

/// The buffer is started for the game that is played, under its identity and
/// title, and for no other reason than a decision to start. No start is told
/// while the buffer runs.
pub proof fn law_a_look_starts_the_played_game(
    auto: AutoModel,
    current: Option<FoundModel>,
    all: Seq<FoundModel>,
    apps: Seq<AppModel>,
    now_ms: int,
    running: bool,
)
    ensures
        ({
            let t = tick_of(auto, current, all, apps, now_ms, running);
            &&& t.start is Some <==> t.action == AutoAction::Start
            &&& t.start matches Some(c) ==> {
                &&& t.game is Some
                &&& c.key == t.game->0.game_key
                &&& c.title == t.game->0.title
                &&& t.game->0.auto_buffer
                &&& !running
                &&& t.auto.auto_started
            }
            &&& t.action == AutoAction::Stop ==> running && auto.auto_started
        }),
{
}

/// A game that was not waited for yet is started by the first look that comes
/// three seconds or more after the one that found it, whatever was shown before.
pub proof fn law_looks_start_a_known_game(
    auto: AutoModel,
    current: Option<FoundModel>,
    all: Seq<FoundModel>,
    apps: Seq<AppModel>,
    first_ms: int,
    now_ms: int,
)
    requires
        played(all) is Some,
        played(all)->0.auto_buffer,
        auto_game_of(played(all)->0).known,
        auto.pending_key != Some(played(all)->0.game_key),
        i64::MIN <= first_ms <= i64::MAX,
        first_ms <= now_ms <= i64::MAX,
    ensures
        ({
            let one = tick_of(auto, current, all, apps, first_ms, false);
            let two = tick_of(one.auto, one.current, all, apps, now_ms, false);
            &&& one.start is None
            &&& two.start is Some <==> now_ms - first_ms >= 3_000
            &&& two.start matches Some(c) ==> c.key == played(all)->0.game_key
        }),
{
    let first = look_at(played(all), first_ms, false);
    let now = look_at(played(all), now_ms, false);
    law_wait_starts_anew(auto, first, played(all)->0.game_key);
}

} // verus!
