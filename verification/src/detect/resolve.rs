//! From a running process to a game with a title and an identity: Steam, then
//! Heroic, then Prism and Minecraft, then Wine, and the process itself last.

use std::collections::HashMap;
use vstd::prelude::*;

use crate::detect::parsers::{
    game_dir, is_minecraft_java, parse_prism_game_dir, program_title, starts_minecraft,
    title_from_exe, wine_exe_from_cmdline, wine_program,
};
use crate::detect::types::{window_match_text, CandidateModel, CandidateProcess, SourceKind};
use crate::settings::{stored, TextMap};
use crate::text::{
    cat, cat3, decimal, decimal_of, lowercase, opt_text, same, texts,
};

verus! {

broadcast use {vstd::string::group_string_axioms, vstd::std_specs::hash::group_hash_axioms};

pub const SRC_CUSTOM: &'static str = "custom";

pub const SRC_STEAM: &'static str = "steam";

pub const SRC_HEROIC: &'static str = "heroic";

pub const SRC_PRISM: &'static str = "prism";

pub const SRC_WINE: &'static str = "wine";

pub const SRC_FALLBACK: &'static str = "fallback";

/// A process with its title and identity.
#[derive(Debug, Clone)]
pub struct ResolvedCandidate {
    pub pid: u32,
    pub exe: String,
    pub comm: String,
    pub title: String,
    /// Identity under which the state of the game is kept, such as `steam:570`.
    pub game_key: String,
    /// `custom`, `steam`, `heroic`, `prism`, `wine` or `fallback`.
    pub source: String,
    pub uses_gpu: bool,
    pub is_wine: bool,
    pub steam_app_id: Option<u32>,
    pub window_match: Option<String>,
    pub source_kind: SourceKind,
    /// The user has registered the game.
    pub registered: bool,
    pub custom_id: Option<String>,
    /// The buffer starts and stops with the game.
    pub auto_buffer: bool,
    pub clip_duration_seconds: Option<i64>,
    pub icon_path: Option<String>,
}

/// What a resolved process stands for.
pub struct FoundModel {
    pub pid: nat,
    pub exe: Seq<char>,
    pub comm: Seq<char>,
    pub title: Seq<char>,
    pub game_key: Seq<char>,
    pub source: Seq<char>,
    pub uses_gpu: bool,
    pub is_wine: bool,
    pub steam_app_id: Option<u32>,
    pub window_match: Option<Seq<char>>,
    pub source_kind: SourceKind,
    pub registered: bool,
    pub custom_id: Option<Seq<char>>,
    pub auto_buffer: bool,
    pub clip_duration_seconds: Option<i64>,
    pub icon_path: Option<Seq<char>>,
}

impl View for ResolvedCandidate {
    type V = FoundModel;

    open spec fn view(&self) -> FoundModel {
        FoundModel {
            pid: self.pid as nat,
            exe: self.exe@,
            comm: self.comm@,
            title: self.title@,
            game_key: self.game_key@,
            source: self.source@,
            uses_gpu: self.uses_gpu,
            is_wine: self.is_wine,
            steam_app_id: self.steam_app_id,
            window_match: opt_text(self.window_match),
            source_kind: self.source_kind,
            registered: self.registered,
            custom_id: opt_text(self.custom_id),
            auto_buffer: self.auto_buffer,
            clip_duration_seconds: self.clip_duration_seconds,
            icon_path: opt_text(self.icon_path),
        }
    }
}

/// What a list of resolved processes stands for.
pub open spec fn found_models(v: Seq<ResolvedCandidate>) -> Seq<FoundModel> {
    v.map_values(|r: ResolvedCandidate| r@)
}

impl ResolvedCandidate {
    /// The same process.
    pub fn copy(&self) -> (r: ResolvedCandidate)
        ensures
            r@ == self@,
    {
        ResolvedCandidate {
            pid: self.pid,
            exe: self.exe.clone(),
            comm: self.comm.clone(),
            title: self.title.clone(),
            game_key: self.game_key.clone(),
            source: self.source.clone(),
            uses_gpu: self.uses_gpu,
            is_wine: self.is_wine,
            steam_app_id: self.steam_app_id,
            window_match: crate::text::clone_opt(&self.window_match),
            source_kind: self.source_kind,
            registered: self.registered,
            custom_id: crate::text::clone_opt(&self.custom_id),
            auto_buffer: self.auto_buffer,
            clip_duration_seconds: self.clip_duration_seconds,
            icon_path: crate::text::clone_opt(&self.icon_path),
        }
    }
}

/// The names that the manifests of the launchers give.
pub struct Lookups<'a> {
    /// By Steam app.
    pub steam_names: &'a HashMap<u32, String>,
    /// By the name of the program, in lower case.
    pub heroic_titles: &'a TextMap,
    /// By the folder of the instance.
    pub prism_names: &'a TextMap,
}

/// What the names of the launchers stand for.
pub struct LookupModel {
    pub steam: Map<u32, Seq<char>>,
    pub heroic: Map<Seq<char>, Seq<char>>,
    pub prism: Map<Seq<char>, Seq<char>>,
}

/// The texts of a map of names.
pub open spec fn name_texts(m: Map<u32, String>) -> Map<u32, Seq<char>> {
    m.map_values(|s: String| s@)
}

impl<'a> View for Lookups<'a> {
    type V = LookupModel;

    open spec fn view(&self) -> LookupModel {
        LookupModel {
            steam: name_texts(self.steam_names@),
            heroic: self.heroic_titles@,
            prism: self.prism_names@,
        }
    }
}

/// The identity of a Steam game.
pub open spec fn steam_key_of(app_id: nat) -> Seq<char> {
    "steam:"@ + decimal(app_id)
}

/// The identity of a game under Wine, by its program.
pub open spec fn wine_key_of(exe: Seq<char>) -> Seq<char> {
    "wine:"@ + lowercase(exe)
}

/// The identity of a Prism instance.
pub open spec fn prism_key_of(instance: Seq<char>) -> Seq<char> {
    "prism:"@ + lowercase(instance)
}

/// The identity of a game, by its binary.
pub open spec fn exe_key_of(exe: Seq<char>) -> Seq<char> {
    "exe:"@ + lowercase(exe)
}

/// Identity of a Steam game.
pub fn steam_key(app_id: u32) -> (r: String)
    ensures
        r@ == steam_key_of(app_id as nat),
{
    let n = decimal_of(app_id as u64);
    cat("steam:", n.as_str())
}

/// Identity of a game under Wine.
pub fn wine_key(exe: &str) -> (r: String)
    ensures
        r@ == wine_key_of(exe@),
{
    let l = exe.to_lowercase();
    cat("wine:", l.as_str())
}

/// Identity of a Prism instance.
pub fn prism_key(instance: &str) -> (r: String)
    ensures
        r@ == prism_key_of(instance@),
{
    let l = instance.to_lowercase();
    cat("prism:", l.as_str())
}

/// Identity of a game by its binary.
pub fn exe_key(exe: &str) -> (r: String)
    ensures
        r@ == exe_key_of(exe@),
{
    let l = exe.to_lowercase();
    cat("exe:", l.as_str())
}

/// A process with a title and an identity, before any registration.
pub open spec fn found(
    c: CandidateModel,
    title: Seq<char>,
    game_key: Seq<char>,
    source: Seq<char>,
) -> FoundModel {
    FoundModel {
        pid: c.pid,
        exe: c.exe,
        comm: c.comm,
        title,
        game_key,
        source,
        uses_gpu: c.uses_gpu,
        is_wine: c.is_wine,
        steam_app_id: c.steam_app_id,
        window_match: match c.window {
            Some(w) => Some(window_match_text(w)),
            None => None,
        },
        source_kind: if c.window is Some {
            SourceKind::X11
        } else {
            SourceKind::Portal
        },
        registered: false,
        custom_id: None,
        auto_buffer: true,
        clip_duration_seconds: None,
        icon_path: None,
    }
}

/// The title and identity of a process, with the source they come from.
pub open spec fn resolved(c: CandidateModel, names: LookupModel) -> FoundModel {
    let steam = match c.steam_app_id {
        Some(id) => if names.steam.contains_key(id) {
            Some(names.steam[id])
        } else {
            None
        },
        None => None,
    };
    let program = wine_program(c.cmdline);
    if steam is Some {
        found(c, steam->0, steam_key_of(c.steam_app_id->0 as nat), SRC_STEAM@)
    } else if names.heroic.contains_key(c.exe_name()) {
        found(c, names.heroic[c.exe_name()], exe_key_of(c.exe_name()), SRC_HEROIC@)
    } else if starts_minecraft(c.cmdline) {
        match game_dir(c.cmdline) {
            Some(instance) => found(
                c,
                match stored(names.prism, instance) {
                    Some(n) => n,
                    None => "Minecraft ("@ + instance + ")"@,
                },
                prism_key_of(instance),
                SRC_PRISM@,
            ),
            None => found(c, "Minecraft"@, exe_key_of("minecraft"@), SRC_PRISM@),
        }
    } else if c.is_wine && program is Some && program_title(program->0).len() > 0 {
        found(c, program_title(program->0), wine_key_of(program->0), SRC_WINE@)
    } else {
        found(c, c.own_title(), exe_key_of(c.exe_name()), SRC_FALLBACK@)
    }
}

fn build(c: &CandidateProcess, title: String, game_key: String, source: &str) -> (r:
    ResolvedCandidate)
    ensures
        r@ == found(c@, title@, game_key@, source@),
{
    let window_match: Option<String> = match &c.window {
        Some(w) => Some(w.xcomposite_match()),
        None => None,
    };
    let source_kind = if c.window.is_some() {
        SourceKind::X11
    } else {
        SourceKind::Portal
    };
    ResolvedCandidate {
        pid: c.pid,
        exe: c.exe.clone(),
        comm: c.comm.clone(),
        title,
        game_key,
        source: source.to_owned(),
        uses_gpu: c.uses_gpu,
        is_wine: c.is_wine,
        steam_app_id: c.steam_app_id,
        window_match,
        source_kind,
        registered: false,
        custom_id: None,
        auto_buffer: true,
        clip_duration_seconds: None,
        icon_path: None,
    }
}

/// Title and identity of a process.
pub fn resolve(c: &CandidateProcess, lookups: &Lookups) -> (r: ResolvedCandidate)
    ensures
        r@ == resolved(c@, lookups@),
{
    let base = c.exe_basename();
    match c.steam_app_id {
        Some(id) => match lookups.steam_names.get(&id) {
            Some(name) => {
                proof {
                    assert(lookups@.steam.contains_key(id));
                    assert(lookups@.steam[id] == name@);
                }
                return build(c, name.clone(), steam_key(id), SRC_STEAM);
            },
            None => {
                proof {
                    assert(!lookups@.steam.contains_key(id));
                }
            },
        },
        None => {},
    }
    match lookups.heroic_titles.get(base.as_str()) {
        Some(title) => {
            return build(c, title.clone(), exe_key(base.as_str()), SRC_HEROIC);
        },
        None => {},
    }
    if is_minecraft_java(&c.cmdline) {
        match parse_prism_game_dir(&c.cmdline) {
            Some(instance) => {
                let title: String = match lookups.prism_names.get(instance.as_str()) {
                    Some(n) => n.clone(),
                    None => cat3("Minecraft (", instance.as_str(), ")"),
                };
                return build(c, title, prism_key(instance.as_str()), SRC_PRISM);
            },
            None => {
                return build(c, "Minecraft".to_owned(), exe_key("minecraft"), SRC_PRISM);
            },
        }
    }
    if c.is_wine {
        match wine_exe_from_cmdline(&c.cmdline) {
            Some(exe) => {
                let title = title_from_exe(exe.as_str());
                if !title.as_str().is_empty() {
                    return build(c, title, wine_key(exe.as_str()), SRC_WINE);
                }
            },
            None => {},
        }
    }
    build(c, c.fallback_title(), exe_key(base.as_str()), SRC_FALLBACK)
}

/// The titles and identities of processes.
pub open spec fn resolved_each(cs: Seq<CandidateModel>, names: LookupModel) -> Seq<FoundModel> {
    cs.map_values(|c: CandidateModel| resolved(c, names))
}

/// Titles and identities of processes, in their order.
pub fn resolve_all(candidates: &Vec<CandidateProcess>, lookups: &Lookups) -> (r: Vec<
    ResolvedCandidate,
>)
    ensures
        found_models(r@) == resolved_each(
            crate::detect::types::candidate_models(candidates@),
            lookups@,
        ),
{
    let ghost all = crate::detect::types::candidate_models(candidates@);
    let ghost goal = resolved_each(all, lookups@);
    let mut out: Vec<ResolvedCandidate> = Vec::new();
    let mut i: usize = 0;
    while i < candidates.len()
        invariant
            all == crate::detect::types::candidate_models(candidates@),
            goal == resolved_each(all, lookups@),
            i <= candidates@.len(),
            found_models(out@) =~= goal.take(i as int),
        decreases candidates@.len() - i,
    {
        let ghost before = out@;
        let r = resolve(&candidates[i], lookups);
        out.push(r);
        proof {
            assert(all[i as int] == candidates@[i as int]@);
            assert(goal[i as int] == r@);
            assert(found_models(out@) =~= found_models(before).push(r@));
        }
        i = i + 1;
    }
    proof {
        assert(found_models(out@) =~= goal);
    }
    out
}

/// How long the names of the launchers are kept before they are read again.
pub const LOOKUP_TTL_MS: u64 = 60_000;

/// Whether the names of the launchers are to be read again.
pub fn lookups_stale(age_ms: u64) -> (r: bool)
    ensures
        r == (age_ms >= LOOKUP_TTL_MS),
{
    age_ms >= LOOKUP_TTL_MS
}

// ---------------------------------------------------------------------------
// Laws
// ---------------------------------------------------------------------------
/// Resolving never changes what was scanned, and registers nothing.
pub proof fn law_resolving_keeps_the_process(c: CandidateModel, names: LookupModel)
    ensures
        ({
            let r = resolved(c, names);
            &&& r.pid == c.pid && r.exe == c.exe && r.comm == c.comm
            &&& r.uses_gpu == c.uses_gpu && r.is_wine == c.is_wine
            &&& r.steam_app_id == c.steam_app_id
            &&& r.window_match is Some <==> c.window is Some
            &&& r.source_kind == SourceKind::X11 <==> c.window is Some
            &&& !r.registered && r.custom_id is None && r.auto_buffer
        }),
{
}

/// Two Steam games have the same identity only if they are the same app, and no
/// Steam game has the identity of a game from another source.
pub proof fn law_steam_identities_differ(a: nat, b: nat, name: Seq<char>)
    ensures
        steam_key_of(a) == steam_key_of(b) ==> a == b,
        steam_key_of(a) != wine_key_of(name),
        steam_key_of(a) != prism_key_of(name),
        steam_key_of(a) != exe_key_of(name),
{
    reveal_strlit("steam:");
    reveal_strlit("wine:");
    reveal_strlit("prism:");
    reveal_strlit("exe:");
    let s = steam_key_of(a);
    assert("steam:"@.len() == 6 && "steam:"@[0] == 's');
    assert("wine:"@.len() == 5 && "wine:"@[0] == 'w');
    assert("prism:"@.len() == 6 && "prism:"@[0] == 'p');
    assert("exe:"@.len() == 4 && "exe:"@[0] == 'e');
    assert(s[0] == 's');
    assert(wine_key_of(name)[0] == 'w');
    assert(prism_key_of(name)[0] == 'p');
    assert(exe_key_of(name)[0] == 'e');
    if steam_key_of(a) == steam_key_of(b) {
        assert(decimal(a) =~= steam_key_of(a).skip(6));
        assert(decimal(b) =~= steam_key_of(b).skip(6));
        crate::text::lemma_decimal_injective(a, b);
    }
}

} // verus!
