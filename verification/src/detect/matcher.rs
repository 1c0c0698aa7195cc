//! Games that the user has registered. A registration wins over what the
//! launchers say, and its rules have a fixed order of precedence.

use vstd::prelude::*;

use crate::detect::parsers::{game_dir, parse_prism_game_dir};
use crate::detect::resolve::{FoundModel, ResolvedCandidate, SRC_CUSTOM};
use crate::detect::types::{leaf, leaf_name, CandidateModel, CandidateProcess};
use crate::encoder_tables::strs;
use crate::text::{
    clone_opt, contains, decimal, decimal_of, has, lowercase, opt_text, same, texts, trim, trimmed,
};

verus! {

broadcast use vstd::string::group_string_axioms;

/// The rules, the strictest first.
pub const STRATEGY_PRECEDENCE: [&'static str; 6] = [
    "exact_exe",
    "steam_appid",
    "prism_instance",
    "wine_target",
    "cmdline_contains",
    "window_title",
];

/// A registered game.
#[derive(Debug, Clone)]
pub struct CustomApp {
    pub id: String,
    pub display_name: String,
    pub target_exe: String,
    pub match_strategy: String,
    pub clip_duration_seconds: Option<i64>,
    pub icon_path: Option<String>,
    pub is_wine_proton: bool,
    pub game_key: Option<String>,
    pub capture_mode: String,
    pub source_kind: Option<String>,
    pub window_match: Option<String>,
    pub portal_token: Option<String>,
    pub auto_buffer: bool,
    pub last_seen_ms: Option<i64>,
}

/// What a registered game stands for.
pub struct AppModel {
    pub id: Seq<char>,
    pub display_name: Seq<char>,
    pub target_exe: Seq<char>,
    pub match_strategy: Seq<char>,
    pub clip_duration_seconds: Option<i64>,
    pub icon_path: Option<Seq<char>>,
    pub is_wine_proton: bool,
    pub game_key: Option<Seq<char>>,
    pub capture_mode: Seq<char>,
    pub source_kind: Option<Seq<char>>,
    pub window_match: Option<Seq<char>>,
    pub portal_token: Option<Seq<char>>,
    pub auto_buffer: bool,
    pub last_seen_ms: Option<i64>,
}

impl View for CustomApp {
    type V = AppModel;

    open spec fn view(&self) -> AppModel {
        AppModel {
            id: self.id@,
            display_name: self.display_name@,
            target_exe: self.target_exe@,
            match_strategy: self.match_strategy@,
            clip_duration_seconds: self.clip_duration_seconds,
            icon_path: opt_text(self.icon_path),
            is_wine_proton: self.is_wine_proton,
            game_key: opt_text(self.game_key),
            capture_mode: self.capture_mode@,
            source_kind: opt_text(self.source_kind),
            window_match: opt_text(self.window_match),
            portal_token: opt_text(self.portal_token),
            auto_buffer: self.auto_buffer,
            last_seen_ms: self.last_seen_ms,
        }
    }
}

/// What a list of registered games stands for.
pub open spec fn app_models(v: Seq<CustomApp>) -> Seq<AppModel> {
    v.map_values(|a: CustomApp| a@)
}

/// One of the arguments, in lower case, holds the target.
pub open spec fn argument_holds(args: Seq<Seq<char>>, target: Seq<char>) -> bool {
    exists|i: int| 0 <= i < args.len() && contains(lowercase(#[trigger] args[i]), target)
}

/// One of the arguments, in lower case, names the target's program.
pub open spec fn argument_names(args: Seq<Seq<char>>, target: Seq<char>) -> bool {
    exists|i: int|
        0 <= i < args.len() && leaf_name(lowercase(#[trigger] args[i])) == leaf_name(target)
}

/// A rule with a target, trimmed and in lower case, matches a process.
pub open spec fn rule_matches(strategy: Seq<char>, target: Seq<char>, c: CandidateModel) -> bool {
    if target.len() == 0 {
        false
    } else if strategy == "exact_exe"@ {
        c.exe_name() == leaf_name(target) || lowercase(c.exe) == target
    } else if strategy == "cmdline_contains"@ {
        argument_holds(c.cmdline, target)
    } else if strategy == "window_title"@ {
        c.window is Some && contains(lowercase(c.window->0.name), target)
    } else if strategy == "wine_target"@ {
        c.is_wine && argument_names(c.cmdline, target)
    } else if strategy == "steam_appid"@ {
        c.steam_app_id is Some && decimal(c.steam_app_id->0 as nat) == target
    } else if strategy == "prism_instance"@ {
        game_dir(c.cmdline) is Some && lowercase(game_dir(c.cmdline)->0) == target
    } else {
        false
    }
}

/// A registered game's rule matches a process.
pub open spec fn app_matches(a: AppModel, c: CandidateModel) -> bool {
    rule_matches(a.match_strategy, lowercase(trim(a.target_exe)), c)
}

fn args_hold(args: &Vec<String>, target: &str) -> (r: bool)
    ensures
        r == argument_holds(texts(args@), target@),
{
    let ghost all = texts(args@);
    let mut i: usize = 0;
    while i < args.len()
        invariant
            all == texts(args@),
            i <= args@.len(),
            forall|k: int| 0 <= k < i ==> !contains(lowercase(#[trigger] all[k]), target@),
        decreases args@.len() - i,
    {
        proof {
            assert(all[i as int] == args@[i as int]@);
        }
        let l = args[i].as_str().to_lowercase();
        if has(l.as_str(), target) {
            return true;
        }
        i = i + 1;
    }
    false
}

fn args_name(args: &Vec<String>, target: &str) -> (r: bool)
    ensures
        r == argument_names(texts(args@), target@),
{
    let ghost all = texts(args@);
    let wanted = leaf(target);
    let mut i: usize = 0;
    while i < args.len()
        invariant
            all == texts(args@),
            wanted@ == leaf_name(target@),
            i <= args@.len(),
            forall|k: int|
                0 <= k < i ==> leaf_name(lowercase(#[trigger] all[k])) != leaf_name(target@),
        decreases args@.len() - i,
    {
        proof {
            assert(all[i as int] == args@[i as int]@);
        }
        let l = args[i].as_str().to_lowercase();
        let name = leaf(l.as_str());
        if same(name.as_str(), wanted.as_str()) {
            return true;
        }
        i = i + 1;
    }
    false
}

/// Whether a rule with a target, trimmed and in lower case, matches a process.
pub fn rule_applies(strategy: &str, target: &str, c: &CandidateProcess) -> (r: bool)
    ensures
        r == rule_matches(strategy@, target@, c@),
{
    if target.is_empty() {
        false
    } else if same(strategy, "exact_exe") {
        let base = c.exe_basename();
        let wanted = leaf(target);
        let whole = c.exe.as_str().to_lowercase();
        same(base.as_str(), wanted.as_str()) || same(whole.as_str(), target)
    } else if same(strategy, "cmdline_contains") {
        args_hold(&c.cmdline, target)
    } else if same(strategy, "window_title") {
        match &c.window {
            Some(w) => {
                let l = w.name.as_str().to_lowercase();
                has(l.as_str(), target)
            },
            None => false,
        }
    } else if same(strategy, "wine_target") {
        c.is_wine && args_name(&c.cmdline, target)
    } else if same(strategy, "steam_appid") {
        match c.steam_app_id {
            Some(id) => {
                let n = decimal_of(id as u64);
                same(n.as_str(), target)
            },
            None => false,
        }
    } else if same(strategy, "prism_instance") {
        match parse_prism_game_dir(&c.cmdline) {
            Some(i) => {
                let l = i.as_str().to_lowercase();
                same(l.as_str(), target)
            },
            None => false,
        }
    } else {
        false
    }
}

/// Whether a registered game's rule matches a process. Rows that were made
/// automatically have no rule, and match nothing.
pub fn strategy_matches(app: &CustomApp, c: &CandidateProcess) -> (r: bool)
    ensures
        r == app_matches(app@, c@),
{
    let t = trimmed(app.target_exe.as_str());
    let target = t.as_str().to_lowercase();
    rule_applies(app.match_strategy.as_str(), target.as_str(), c)
}

/// The first registered game with the rule that matches a process.
pub open spec fn first_with(apps: Seq<AppModel>, strategy: Seq<char>, c: CandidateModel) -> Option<
    AppModel,
>
    decreases apps.len(),
{
    if apps.len() == 0 {
        None
    } else if apps[0].match_strategy == strategy && app_matches(apps[0], c) {
        Some(apps[0])
    } else {
        first_with(apps.drop_first(), strategy, c)
    }
}

/// The registered game of a process: the first match of the strictest rule
/// that has one.
pub open spec fn best_app(
    rules: Seq<Seq<char>>,
    apps: Seq<AppModel>,
    c: CandidateModel,
) -> Option<AppModel>
    decreases rules.len(),
{
    if rules.len() == 0 {
        None
    } else {
        match first_with(apps, rules[0], c) {
            Some(a) => Some(a),
            None => best_app(rules.drop_first(), apps, c),
        }
    }
}

/// The registered game of a process.
pub open spec fn registered_app(apps: Seq<AppModel>, c: CandidateModel) -> Option<AppModel> {
    best_app(strs(STRATEGY_PRECEDENCE@), apps, c)
}

/// The place of a rule among the rules, or their number where it is none of them.
pub open spec fn rule_rank(rules: Seq<Seq<char>>, strategy: Seq<char>) -> nat
    decreases rules.len(),
{
    if rules.len() == 0 || rules[0] == strategy {
        0
    } else {
        1 + rule_rank(rules.drop_first(), strategy)
    }
}

/// The place of a registered game's rule in the order of precedence.
pub open spec fn precedence(a: AppModel) -> nat {
    rule_rank(strs(STRATEGY_PRECEDENCE@), a.match_strategy)
}

/// Row `i` matches a process, and no row that matches it comes before: by the
/// precedence of its rule, and then by the order of the rows.
pub open spec fn is_best_row(apps: Seq<AppModel>, c: CandidateModel, i: int) -> bool {
    &&& 0 <= i < apps.len()
    &&& app_matches(apps[i], c)
    &&& forall|j: int|
        0 <= j < apps.len() && app_matches(#[trigger] apps[j], c) ==> precedence(apps[i])
            < precedence(apps[j]) || (precedence(apps[i]) == precedence(apps[j]) && i <= j)
}

proof fn lemma_rank(rules: Seq<Seq<char>>, strategy: Seq<char>)
    ensures
        rule_rank(rules, strategy) <= rules.len(),
        rule_rank(rules, strategy) < rules.len() ==> rules[rule_rank(rules, strategy) as int]
            == strategy,
        rule_rank(rules, strategy) == rules.len() ==> !rules.contains(strategy),
    decreases rules.len(),
{
    if rules.len() > 0 && rules[0] != strategy {
        let rest = rules.drop_first();
        lemma_rank(rest, strategy);
        assert forall|k: int| 1 <= k < rules.len() implies #[trigger] rules[k] == rest[k - 1] by {}
    }
}

/// A rule that matches something is one of the rules.
proof fn lemma_matching_rule(a: AppModel, c: CandidateModel)
    requires
        app_matches(a, c),
    ensures
        precedence(a) < 6,
        strs(STRATEGY_PRECEDENCE@)[precedence(a) as int] == a.match_strategy,
{
    let all = strs(STRATEGY_PRECEDENCE@);
    lemma_rank(all, a.match_strategy);
    assert(all[0] == "exact_exe"@);
    assert(all[1] == "steam_appid"@);
    assert(all[2] == "prism_instance"@);
    assert(all[3] == "wine_target"@);
    assert(all[4] == "cmdline_contains"@);
    assert(all[5] == "window_title"@);
}

fn find_with(apps: &[CustomApp], strategy: &str, c: &CandidateProcess) -> (r: Option<usize>)
    ensures
        match r {
            Some(i) => {
                &&& i < apps@.len()
                &&& apps@[i as int].match_strategy@ == strategy@
                &&& app_matches(apps@[i as int]@, c@)
                &&& forall|k: int|
                    0 <= k < i && (#[trigger] apps@[k]).match_strategy@ == strategy@
                        ==> !app_matches(apps@[k]@, c@)
                &&& first_with(app_models(apps@), strategy@, c@) == Some(apps@[i as int]@)
            },
            None => {
                &&& forall|k: int|
                    0 <= k < apps@.len() && (#[trigger] apps@[k]).match_strategy@ == strategy@
                        ==> !app_matches(apps@[k]@, c@)
                &&& first_with(app_models(apps@), strategy@, c@) is None
            },
        },
{
    let ghost all = app_models(apps@);
    let mut i: usize = 0;
    proof {
        assert(all.skip(0) =~= all);
    }
    while i < apps.len()
        invariant
            all == app_models(apps@),
            i <= apps@.len(),
            forall|k: int|
                0 <= k < i && (#[trigger] apps@[k]).match_strategy@ == strategy@ ==> !app_matches(
                    apps@[k]@,
                    c@,
                ),
            first_with(all, strategy@, c@) == first_with(all.skip(i as int), strategy@, c@),
        decreases apps@.len() - i,
    {
        proof {
            assert(all.skip(i as int)[0] == apps@[i as int]@);
            assert(all.skip(i as int).drop_first() =~= all.skip(i + 1));
        }
        if same(apps[i].match_strategy.as_str(), strategy) && strategy_matches(&apps[i], c) {
            return Some(i);
        }
        i = i + 1;
    }
    None
}

/// Registered game of a process: the first row that matches it, by the
/// precedence of the rules.
pub fn best_custom<'a>(apps: &'a [CustomApp], c: &CandidateProcess) -> (r: Option<&'a CustomApp>)
    ensures
        match r {
            Some(a) => registered_app(app_models(apps@), c@) == Some(a@),
            None => registered_app(app_models(apps@), c@) is None,
        },
        r matches Some(a) ==> exists|i: int|
            0 <= i < apps@.len() && *a == apps@[i] && #[trigger] is_best_row(
                app_models(apps@),
                c@,
                i,
            ),
        r is None <==> forall|i: int| 0 <= i < apps@.len() ==> !app_matches(#[trigger] apps@[i]@, c@),
{
    let rules = STRATEGY_PRECEDENCE;
    let ghost all = strs(STRATEGY_PRECEDENCE@);
    let ghost models = app_models(apps@);
    let mut i: usize = 0;
    proof {
        assert(all.skip(0) =~= all);
    }
    while i < 6
        invariant
            rules@ == STRATEGY_PRECEDENCE@,
            rules@.len() == 6,
            all == strs(STRATEGY_PRECEDENCE@),
            models == app_models(apps@),
            i <= 6,
            best_app(all, models, c@) == best_app(all.skip(i as int), models, c@),
            forall|j: int|
                0 <= j < apps@.len() && app_matches(#[trigger] apps@[j]@, c@) ==> precedence(
                    apps@[j]@,
                ) >= i,
        decreases 6 - i,
    {
        proof {
            assert(all.skip(i as int)[0] == rules@[i as int]@);
            assert(all.skip(i as int).drop_first() =~= all.skip(i + 1));
        }
        let found = find_with(apps, rules[i], c);
        proof {
            assert(all[i as int] == rules@[i as int]@);
            assert forall|j: int|
                0 <= j < apps@.len() && app_matches(#[trigger] apps@[j]@, c@) && precedence(
                    apps@[j]@,
                ) == i implies apps@[j].match_strategy@ == rules@[i as int]@ by {
                lemma_matching_rule(apps@[j]@, c@);
            }
        }
        match found {
            Some(k) => {
                proof {
                    lemma_rank_at_most(all, i as int);
                    assert(precedence(apps@[k as int]@) == i);
                    assert forall|j: int| 0 <= j < models.len() && app_matches(
                        #[trigger] models[j],
                        c@,
                    ) implies precedence(models[k as int]) < precedence(models[j]) || (precedence(
                        models[k as int],
                    ) == precedence(models[j]) && k <= j) by {
                        assert(models[j] == apps@[j]@);
                    }
                    assert(is_best_row(models, c@, k as int));
                }
                return Some(&apps[k]);
            },
            None => {},
        }
        i = i + 1;
    }
    proof {
        assert forall|j: int| 0 <= j < apps@.len() implies !app_matches(#[trigger] apps@[j]@, c@) by {
            if app_matches(apps@[j]@, c@) {
                lemma_matching_rule(apps@[j]@, c@);
            }
        }
    }
    None
}

proof fn lemma_rank_at_most(rules: Seq<Seq<char>>, i: int)
    requires
        0 <= i < rules.len(),
    ensures
        rule_rank(rules, rules[i]) <= i,
    decreases i,
{
    if i > 0 {
        let rest = rules.drop_first();
        assert(rest[i - 1] == rules[i]);
        lemma_rank_at_most(rest, i - 1);
    }
}

/// A resolved process with its registration, where it has one.
pub open spec fn with_registration(r: FoundModel, app: Option<AppModel>) -> FoundModel {
    match app {
        Some(a) => FoundModel {
            title: a.display_name,
            source: SRC_CUSTOM@,
            registered: true,
            custom_id: Some(a.id),
            auto_buffer: a.auto_buffer,
            clip_duration_seconds: a.clip_duration_seconds,
            icon_path: a.icon_path,
            ..r
        },
        None => r,
    }
}

/// A resolved process with its registration: title and preferences are those of
/// the registered game.
pub fn with_custom(resolved: ResolvedCandidate, c: &CandidateProcess, apps: &[CustomApp]) -> (r:
    ResolvedCandidate)
    ensures
        r@ == with_registration(resolved@, registered_app(app_models(apps@), c@)),
{
    match best_custom(apps, c) {
        Some(app) => {
            let mut out = resolved;
            out.title = app.display_name.clone();
            out.source = SRC_CUSTOM.to_owned();
            out.registered = true;
            out.custom_id = Some(app.id.clone());
            out.auto_buffer = app.auto_buffer;
            out.clip_duration_seconds = app.clip_duration_seconds;
            out.icon_path = clone_opt(&app.icon_path);
            out
        },
        None => resolved,
    }
}

// ---------------------------------------------------------------------------
// Laws
// ---------------------------------------------------------------------------
proof fn lemma_first_with(apps: Seq<AppModel>, strategy: Seq<char>, c: CandidateModel)
    ensures
        first_with(apps, strategy, c) matches Some(a) ==> a.match_strategy == strategy
            && app_matches(a, c) && apps.contains(a),
        first_with(apps, strategy, c) is None ==> forall|i: int|
            0 <= i < apps.len() && (#[trigger] apps[i]).match_strategy == strategy ==> !app_matches(
                apps[i],
                c,
            ),
    decreases apps.len(),
{
    if apps.len() > 0 {
        let rest = apps.drop_first();
        lemma_first_with(rest, strategy, c);
        if apps[0].match_strategy == strategy && app_matches(apps[0], c) {
            assert(apps.contains(apps[0]));
        } else {
            if first_with(rest, strategy, c) is Some {
                let a = first_with(rest, strategy, c)->0;
                let i = choose|i: int| 0 <= i < rest.len() && rest[i] == a;
                assert(apps[i + 1] == a);
            } else {
                assert forall|i: int|
                    0 <= i < apps.len() && (#[trigger] apps[i]).match_strategy
                        == strategy implies !app_matches(apps[i], c) by {
                    if i > 0 {
                        assert(rest[i - 1] == apps[i]);
                    }
                }
            }
        }
    }
}

/// No rule before the one that decides has a match: a stricter rule always wins
/// over a looser one.
pub proof fn law_stricter_rule_wins(
    rules: Seq<Seq<char>>,
    apps: Seq<AppModel>,
    c: CandidateModel,
    k: int,
    i: int,
)
    requires
        0 <= k < rules.len(),
        0 <= i < apps.len(),
        apps[i].match_strategy == rules[k],
        app_matches(apps[i], c),
    ensures
        best_app(rules, apps, c) matches Some(a) && app_matches(a, c) && exists|j: int|
            0 <= j <= k && #[trigger] rules[j] == a.match_strategy,
    decreases rules.len(),
{
    lemma_first_with(apps, rules[0], c);
    if first_with(apps, rules[0], c) is Some {
        let a = first_with(apps, rules[0], c)->0;
        assert(rules[0] == a.match_strategy);
    } else {
        let rest = rules.drop_first();
        assert(k > 0);
        assert(rest[k - 1] == rules[k]);
        law_stricter_rule_wins(rest, apps, c, k - 1, i);
        let a = best_app(rest, apps, c)->0;
        let j = choose|j: int| 0 <= j <= k - 1 && #[trigger] rest[j] == a.match_strategy;
        assert(rules[j + 1] == a.match_strategy);
    }
}

/// A registration never changes the identity of a game, nor what was scanned of it.
pub proof fn law_registration_keeps_the_identity(r: FoundModel, app: Option<AppModel>)
    ensures
        ({
            let w = with_registration(r, app);
            &&& w.game_key == r.game_key && w.pid == r.pid && w.exe == r.exe && w.comm == r.comm
            &&& w.window_match == r.window_match && w.source_kind == r.source_kind
            &&& w.uses_gpu == r.uses_gpu && w.is_wine == r.is_wine
            &&& w.steam_app_id == r.steam_app_id
            &&& app is Some ==> w.registered
            &&& app is None ==> w == r
        }),
{
}

} // verus!
