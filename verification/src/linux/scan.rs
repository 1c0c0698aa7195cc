//! The running processes that may be games. Nothing is written and nothing is
//! hooked: what the system shows of each process is read, and judged here.

use vstd::prelude::*;

use crate::detect::parsers::{
    byte_texts, cgroup_app, environment_app, is_blacklisted, is_wine_helper, names_helper, names_no_game,
    is_wine_process, looks_like_wine, parse_flatpak_id, parse_libraryfolders,
    parse_steam_appid_env, read_heroic_game, heroic_game, split_zeros, wine_exe_from_cmdline,
    wine_program, zero_split,
};
use crate::detect::types::{
    candidate_models, leaf, leaf_name, opt_window, CandidateModel, CandidateProcess, WindowInfo,
    WindowModel,
};
use crate::json::{ascending_entries, json_entries, json_parse, parse_json, Json, JsonModel, JsonRead};
use crate::linux::engine::{parent_from_stat, stat_parent};
use crate::paths::{join, join_path};
use crate::settings::TextMap;
use crate::text::{
    lossy_text, lowercase, opt_text, split, starts_with, texts, trim, trimmed,
};

verus! {

broadcast use vstd::string::group_string_axioms;

/// What the system shows of one process.
pub struct RawProcess {
    pub pid: u32,
    pub comm: Option<String>,
    pub cmdline: Vec<u8>,
    /// The binary, where it can be read.
    pub exe: Option<String>,
    pub stat: Option<String>,
    pub environ: Option<Vec<u8>>,
    pub cgroup: Option<String>,
    /// What its open files are.
    pub open_files: Vec<String>,
    pub window: Option<WindowInfo>,
}

/// The arguments of a command line: the pieces between zeros that are not empty.
pub open spec fn arguments(pieces: Seq<Seq<u8>>) -> Seq<Seq<char>>
    decreases pieces.len(),
{
    if pieces.len() == 0 {
        Seq::empty()
    } else {
        let init = arguments(pieces.drop_last());
        if pieces.last().len() > 0 {
            init.push(lossy_text(pieces.last()))
        } else {
            init
        }
    }
}

/// Arguments of a command line.
pub fn read_cmdline(bytes: &[u8]) -> (r: Vec<String>)
    ensures
        texts(r@) == arguments(zero_split(bytes@)),
{
    let pieces = split_zeros(bytes);
    let ghost all = byte_texts(pieces@);
    let mut out: Vec<String> = Vec::new();
    let mut i: usize = 0;
    proof {
        assert(all.take(0) =~= Seq::<Seq<u8>>::empty());
        assert(texts(out@) =~= Seq::<Seq<char>>::empty());
    }
    while i < pieces.len()
        invariant
            all == byte_texts(pieces@),
            i <= pieces@.len(),
            texts(out@) == arguments(all.take(i as int)),
        decreases pieces@.len() - i,
    {
        proof {
            assert(all.take(i + 1).drop_last() =~= all.take(i as int));
            assert(all.take(i + 1).last() == pieces@[i as int]@);
        }
        if pieces[i].len() > 0 {
            let ghost before = out@;
            let s = crate::text::from_utf8_lossy(pieces[i].as_slice());
            out.push(s);
            proof {
                assert(texts(out@) =~= texts(before).push(s@));
            }
        }
        i = i + 1;
    }
    proof {
        assert(all.take(all.len() as int) =~= all);
    }
    out
}

/// An open file that is a GPU.
pub open spec fn is_gpu_file(path: Seq<char>) -> bool {
    "/dev/dri/renderD"@.is_prefix_of(path) || "/dev/nvidia"@.is_prefix_of(path)
}

/// One of the open files is a GPU.
pub open spec fn holds_gpu(files: Seq<Seq<char>>) -> bool {
    exists|i: int| 0 <= i < files.len() && is_gpu_file(#[trigger] files[i])
}

/// Whether one of the open files is a GPU.
pub fn uses_gpu_device(files: &Vec<String>) -> (r: bool)
    ensures
        r == holds_gpu(texts(files@)),
{
    let ghost all = texts(files@);
    let mut i: usize = 0;
    while i < files.len()
        invariant
            all == texts(files@),
            i <= files@.len(),
            forall|k: int| 0 <= k < i ==> !is_gpu_file(#[trigger] all[k]),
        decreases files@.len() - i,
    {
        proof {
            assert(all[i as int] == files@[i as int]@);
        }
        if starts_with(files[i].as_str(), "/dev/dri/renderD") || starts_with(
            files[i].as_str(),
            "/dev/nvidia",
        ) {
            return true;
        }
        i = i + 1;
    }
    false
}

/// A text without white space around it, where anything is left.
pub open spec fn trimmed_text(s: Option<String>) -> Option<Seq<char>> {
    match s {
        Some(t) => if trim(t@).len() > 0 {
            Some(trim(t@))
        } else {
            None
        },
        None => None,
    }
}

fn read_trim(s: &Option<String>) -> (r: Option<String>)
    ensures
        opt_text(r) == trimmed_text(*s),
{
    match s {
        Some(t) => {
            let u = trimmed(t.as_str());
            if u.as_str().is_empty() {
                None
            } else {
                Some(u)
            }
        },
        None => None,
    }
}

/// A program that Wine runs for itself.
pub open spec fn runs_helper(cmdline: Seq<Seq<char>>) -> bool {
    wine_program(cmdline) is Some && names_helper(wine_program(cmdline)->0)
}

/// The binary of a process: what the system says, or its first argument.
pub open spec fn binary_of(p: RawProcess) -> Seq<char> {
    match p.exe {
        Some(e) => e@,
        None => arguments(zero_split(p.cmdline@))[0],
    }
}

/// What is known of a process that may be a game. Kernel threads, processes of
/// the list and Wine's own programs are none.
pub open spec fn candidate_of(p: RawProcess) -> Option<CandidateModel> {
    let comm = trimmed_text(p.comm);
    let cmdline = arguments(zero_split(p.cmdline@));
    let exe = binary_of(p);
    let is_wine = is_wine_process(exe, cmdline);
    if comm is None || cmdline.len() == 0 || names_no_game(comm->0) || names_no_game(exe) || (
    is_wine && runs_helper(cmdline)) {
        None
    } else {
        Some(
            CandidateModel {
                pid: p.pid as nat,
                ppid: match p.stat {
                    Some(s) => stat_parent(s@),
                    None => 0,
                },
                exe,
                comm: comm->0,
                cmdline,
                uses_gpu: holds_gpu(texts(p.open_files@)),
                is_wine,
                flatpak_id: match trimmed_text(p.cgroup) {
                    Some(c) => cgroup_app(split(c, '\n')),
                    None => None,
                },
                steam_app_id: match p.environ {
                    Some(e) => match environment_app(zero_split(e@)) {
                        Some(id) => Some(id as u32),
                        None => None,
                    },
                    None => None,
                },
                window: opt_window(p.window),
            },
        )
    }
}

/// What an optional candidate stands for.
pub open spec fn opt_candidate(c: Option<CandidateProcess>) -> Option<CandidateModel> {
    match c {
        Some(c) => Some(c@),
        None => None,
    }
}

/// Judges one process.
pub fn classify(p: &RawProcess) -> (r: Option<CandidateProcess>)
    ensures
        opt_candidate(r) == candidate_of(*p),
{
    let comm = match read_trim(&p.comm) {
        Some(c) => c,
        None => {
            return None;
        },
    };
    let cmdline = read_cmdline(p.cmdline.as_slice());
    proof {
        assert(texts(cmdline@).len() == cmdline@.len());
    }
    if cmdline.len() == 0 {
        return None;
    }
    proof {
        assert(texts(cmdline@)[0] == cmdline@[0]@);
    }
    if is_blacklisted(comm.as_str()) {
        return None;
    }
    let exe: String = match &p.exe {
        Some(e) => e.clone(),
        None => cmdline[0].clone(),
    };
    if is_blacklisted(exe.as_str()) {
        return None;
    }
    let is_wine = looks_like_wine(exe.as_str(), &cmdline);
    if is_wine {
        match wine_exe_from_cmdline(&cmdline) {
            Some(target) => {
                if is_wine_helper(target.as_str()) {
                    return None;
                }
            },
            None => {},
        }
    }
    let ppid: u32 = match &p.stat {
        Some(s) => parent_from_stat(s.as_str()),
        None => 0,
    };
    let steam_app_id: Option<u32> = match &p.environ {
        Some(e) => parse_steam_appid_env(e.as_slice()),
        None => None,
    };
    let flatpak_id: Option<String> = match read_trim(&p.cgroup) {
        Some(c) => parse_flatpak_id(c.as_str()),
        None => None,
    };
    let window: Option<WindowInfo> = match &p.window {
        Some(w) => Some(w.copy()),
        None => None,
    };
    Some(
        CandidateProcess {
            pid: p.pid,
            ppid,
            exe,
            comm,
            cmdline,
            uses_gpu: uses_gpu_device(&p.open_files),
            is_wine,
            flatpak_id,
            steam_app_id,
            window,
        },
    )
}

/// The candidates among processes, in their order.
pub open spec fn candidates_of(all: Seq<RawProcess>) -> Seq<CandidateModel>
    decreases all.len(),
{
    if all.len() == 0 {
        Seq::empty()
    } else {
        let init = candidates_of(all.drop_last());
        match candidate_of(all.last()) {
            Some(c) => init.push(c),
            None => init,
        }
    }
}

/// Candidates among the running processes.
pub fn scan(processes: &Vec<RawProcess>) -> (r: Vec<CandidateProcess>)
    ensures
        candidate_models(r@) == candidates_of(processes@),
{
    let mut out: Vec<CandidateProcess> = Vec::new();
    let mut i: usize = 0;
    proof {
        assert(processes@.take(0) =~= Seq::<RawProcess>::empty());
        assert(candidate_models(out@) =~= Seq::<CandidateModel>::empty());
    }
    while i < processes.len()
        invariant
            i <= processes@.len(),
            candidate_models(out@) == candidates_of(processes@.take(i as int)),
        decreases processes@.len() - i,
    {
        proof {
            assert(processes@.take(i + 1).drop_last() =~= processes@.take(i as int));
        }
        match classify(&processes[i]) {
            Some(c) => {
                let ghost before = out@;
                let ghost model = c@;
                out.push(c);
                proof {
                    assert(candidate_models(out@) =~= candidate_models(before).push(model));
                }
            },
            None => {},
        }
        i = i + 1;
    }
    proof {
        assert(processes@.take(processes@.len() as int) =~= processes@);
    }
    out
}

/// Nothing that is scanned is a process of the list, by its name or its binary.
pub proof fn law_no_scanned_process_is_blacklisted(all: Seq<RawProcess>)
    ensures
        forall|i: int|
            0 <= i < candidates_of(all).len() ==> {
                let c = #[trigger] candidates_of(all)[i];
                !names_no_game(c.comm) && !names_no_game(c.exe) && c.cmdline.len() > 0
            },
    decreases all.len(),
{
    if all.len() > 0 {
        law_no_scanned_process_is_blacklisted(all.drop_last());
        let init = candidates_of(all.drop_last());
        let out = candidates_of(all);
        assert forall|i: int| 0 <= i < out.len() implies {
            let c = #[trigger] out[i];
            !names_no_game(c.comm) && !names_no_game(c.exe) && c.cmdline.len() > 0
        } by {
            if i < init.len() {
                assert(out[i] == init[i]);
            }
        }
    }
}

// ---------------------------------------------------------------------------
// Windows
// ---------------------------------------------------------------------------
/// The class in a window's `WM_CLASS`: the second piece between zeros that is not empty.
pub open spec fn class_of(property: Seq<u8>) -> Seq<char> {
    let names = arguments(zero_split(property));
    if names.len() > 1 {
        names[1]
    } else {
        lossy_text(Seq::empty())
    }
}

/// Class in a window's `WM_CLASS`.
pub fn window_class(property: &[u8]) -> (r: String)
    ensures
        r@ == class_of(property@),
{
    let names = read_cmdline(property);
    proof {
        assert(texts(names@).len() == names@.len());
    }
    if names.len() > 1 {
        proof {
            assert(texts(names@)[1] == names@[1]@);
        }
        names[1].clone()
    } else {
        let empty: Vec<u8> = Vec::new();
        proof {
            assert(empty@ =~= Seq::<u8>::empty());
        }
        crate::text::from_utf8_lossy(empty.as_slice())
    }
}

/// The name of a window: the one in UTF-8, where it has more than white space,
/// or else the plain one.
pub open spec fn window_name_of(utf8: Option<Seq<u8>>, plain: Option<Seq<u8>>) -> Seq<char> {
    if utf8 is Some && trim(lossy_text(utf8->0)).len() > 0 {
        lossy_text(utf8->0)
    } else {
        match plain {
            Some(b) => lossy_text(b),
            None => Seq::empty(),
        }
    }
}

/// What optional bytes hold.
pub open spec fn opt_bytes(b: Option<Vec<u8>>) -> Option<Seq<u8>> {
    match b {
        Some(b) => Some(b@),
        None => None,
    }
}

/// Name of a window.
pub fn window_name(utf8: &Option<Vec<u8>>, plain: &Option<Vec<u8>>) -> (r: String)
    ensures
        r@ == window_name_of(opt_bytes(*utf8), opt_bytes(*plain)),
{
    match utf8 {
        Some(b) => {
            let s = crate::text::from_utf8_lossy(b.as_slice());
            if !trimmed(s.as_str()).as_str().is_empty() {
                return s;
            }
        },
        None => {},
    }
    match plain {
        Some(b) => crate::text::from_utf8_lossy(b.as_slice()),
        None => {
            let empty = String::new();
            proof {
                assert(empty@ =~= Seq::<char>::empty());
            }
            empty
        },
    }
}

/// The first window of each process, in the order of the windows. Windows
/// without a process are left out.
pub open spec fn window_of(windows: Seq<WindowInfo>, pid: u32) -> Option<WindowModel>
    decreases windows.len(),
{
    if windows.len() == 0 || pid == 0 {
        None
    } else if windows[0].wm_pid == pid {
        Some(windows[0]@)
    } else {
        window_of(windows.drop_first(), pid)
    }
}

/// First window of a process.
pub fn find_window(windows: &Vec<WindowInfo>, pid: u32) -> (r: Option<WindowInfo>)
    ensures
        opt_window(r) == window_of(windows@, pid),
{
    if pid == 0 {
        return None;
    }
    let mut i: usize = 0;
    proof {
        assert(windows@.skip(0) =~= windows@);
    }
    while i < windows.len()
        invariant
            pid != 0,
            i <= windows@.len(),
            window_of(windows@, pid) == window_of(windows@.skip(i as int), pid),
        decreases windows@.len() - i,
    {
        proof {
            assert(windows@.skip(i as int)[0] == windows@[i as int]);
            assert(windows@.skip(i as int).drop_first() =~= windows@.skip(i + 1));
        }
        if windows[i].wm_pid == pid {
            return Some(windows[i].copy());
        }
        i = i + 1;
    }
    None
}

// ---------------------------------------------------------------------------
// Manifests
// ---------------------------------------------------------------------------
/// The directories that the libraries of a list keep their manifests in.
pub open spec fn manifest_dirs_of(libraries: Seq<Seq<char>>) -> Seq<Seq<char>> {
    libraries.map_values(|l: Seq<char>| join_path(l, "steamapps"@))
}

/// Directories of manifests of a list of libraries.
pub fn manifest_dirs(list: &str) -> (r: Vec<String>)
    ensures
        texts(r@) == manifest_dirs_of(
            crate::detect::parsers::library_lines(crate::text::lines(list@)),
        ),
{
    let libs = parse_libraryfolders(list);
    let ghost all = texts(libs@);
    let ghost goal = manifest_dirs_of(all);
    let mut out: Vec<String> = Vec::new();
    let mut i: usize = 0;
    while i < libs.len()
        invariant
            all == texts(libs@),
            goal == manifest_dirs_of(all),
            i <= libs@.len(),
            texts(out@) =~= goal.take(i as int),
        decreases libs@.len() - i,
    {
        let ghost before = out@;
        let d = join(libs[i].as_str(), "steamapps");
        out.push(d);
        proof {
            assert(all[i as int] == libs@[i as int]@);
            assert(goal[i as int] == d@);
            assert(texts(out@) =~= texts(before).push(d@));
        }
        i = i + 1;
    }
    proof {
        assert(texts(out@) =~= goal);
    }
    out
}

/// The titles with those of Heroic's games added, each under the name of its
/// program in lower case.
pub open spec fn with_heroic(
    titles: Map<Seq<char>, Seq<char>>,
    games: Seq<(Seq<char>, JsonModel)>,
) -> Map<Seq<char>, Seq<char>>
    decreases games.len(),
{
    if games.len() == 0 {
        titles
    } else {
        let init = with_heroic(titles, games.drop_last());
        match heroic_game(games.last().1) {
            Some((title, Some(exe))) => init.insert(lowercase(leaf_name(exe)), title),
            _ => init,
        }
    }
}

/// The titles with those of a file of Heroic added, in the order of its keys.
pub open spec fn with_heroic_file(titles: Map<Seq<char>, Seq<char>>, read: JsonRead) -> Map<
    Seq<char>,
    Seq<char>,
> {
    match read {
        JsonRead::Document(JsonModel::Object(m)) => with_heroic(titles, ascending_entries(m)),
        _ => titles,
    }
}

/// Adds the titles of Heroic's games.
pub fn add_heroic_games(titles: &mut TextMap, games: &Vec<(String, Json)>)
    ensures
        final(titles)@ == with_heroic(old(titles)@, json_entries(games@)),
{
    let ghost start = titles@;
    let ghost all = json_entries(games@);
    let mut i: usize = 0;
    proof {
        assert(all.take(0) =~= Seq::<(Seq<char>, JsonModel)>::empty());
    }
    while i < games.len()
        invariant
            all == json_entries(games@),
            i <= games@.len(),
            titles@ == with_heroic(start, all.take(i as int)),
        decreases games@.len() - i,
    {
        proof {
            assert(all.take(i + 1).drop_last() =~= all.take(i as int));
            assert(all.take(i + 1).last() == (games@[i as int].0@, games@[i as int].1@));
        }
        match read_heroic_game(&games[i].1) {
            Some((title, Some(exe))) => {
                let base = leaf(exe.as_str());
                titles.insert(base.as_str().to_lowercase(), title);
            },
            _ => {},
        }
        i = i + 1;
    }
    proof {
        assert(all.take(all.len() as int) =~= all);
    }
}

/// Adds the titles of a file of Heroic. A file that is no object adds none.
pub fn add_heroic_titles(titles: &mut TextMap, text: &str)
    ensures
        final(titles)@ == with_heroic_file(old(titles)@, json_parse(text@)),
{
    match parse_json(text) {
        Ok(doc) => {
            match doc.as_object() {
                Some(games) => {
                    proof {
                        crate::json::lemma_ascending_entries(json_entries(games@));
                    }
                    add_heroic_games(titles, games);
                },
                None => {},
            }
        },
        Err(_) => {},
    }
}

// ---------------------------------------------------------------------------
// Where launchers keep their lists
// ---------------------------------------------------------------------------
/// The places below a home directory where Steam may be installed, in order.
pub open spec fn steam_places(home: Seq<char>) -> Seq<Seq<char>> {
    seq![
        join_path(home, ".steam/steam"@),
        join_path(home, ".local/share/Steam"@),
        join_path(home, ".steam/root"@),
    ]
}

/// Places where Steam may be installed, in order.
pub fn steam_roots(home: &str) -> (r: Vec<String>)
    ensures
        texts(r@) == steam_places(home@),
{
    let r = vec![
        join(home, ".steam/steam"),
        join(home, ".local/share/Steam"),
        join(home, ".steam/root"),
    ];
    proof {
        assert(texts(r@) =~= steam_places(home@));
    }
    r
}

/// The two lists of libraries that a Steam install may have, the older one first.
pub open spec fn library_lists(root: Seq<char>) -> Seq<Seq<char>> {
    seq![
        join_path(join_path(root, "steamapps"@), "libraryfolders.vdf"@),
        join_path(root, "config/libraryfolders.vdf"@),
    ]
}

/// Lists of libraries that a Steam install may have.
pub fn steam_lists(root: &str) -> (r: Vec<String>)
    ensures
        texts(r@) == library_lists(root@),
{
    let apps = join(root, "steamapps");
    let r = vec![
        join(apps.as_str(), "libraryfolders.vdf"),
        join(root, "config/libraryfolders.vdf"),
    ];
    proof {
        assert(texts(r@) =~= library_lists(root@));
    }
    r
}

/// The directories below a home directory where Heroic keeps its games.
pub open spec fn heroic_places(home: Seq<char>) -> Seq<Seq<char>> {
    seq![
        join_path(home, ".config/heroic/GamesConfig"@),
        join_path(
            home,
            ".var/app/com.heroicgameslauncher.hgl/config/heroic/GamesConfig"@,
        ),
    ]
}

/// Directories where Heroic keeps its games.
pub fn heroic_dirs(home: &str) -> (r: Vec<String>)
    ensures
        texts(r@) == heroic_places(home@),
{
    let r = vec![
        join(home, ".config/heroic/GamesConfig"),
        join(home, ".var/app/com.heroicgameslauncher.hgl/config/heroic/GamesConfig"),
    ];
    proof {
        assert(texts(r@) =~= heroic_places(home@));
    }
    r
}

/// The directories below a home directory where Prism keeps its instances.
pub open spec fn prism_places(home: Seq<char>) -> Seq<Seq<char>> {
    seq![
        join_path(home, ".local/share/PrismLauncher/instances"@),
        join_path(
            home,
            ".var/app/org.prismlauncher.PrismLauncher/data/PrismLauncher/instances"@,
        ),
    ]
}

/// Directories where Prism keeps its instances.
pub fn prism_dirs(home: &str) -> (r: Vec<String>)
    ensures
        texts(r@) == prism_places(home@),
{
    let r = vec![
        join(home, ".local/share/PrismLauncher/instances"),
        join(home, ".var/app/org.prismlauncher.PrismLauncher/data/PrismLauncher/instances"),
    ];
    proof {
        assert(texts(r@) =~= prism_places(home@));
    }
    r
}

} // verus!
