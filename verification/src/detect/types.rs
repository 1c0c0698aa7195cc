//! What detection knows of a running process.

use vstd::prelude::*;
use vstd::string::StringExecFns;

use crate::text::{
    cat5, chars_of, decimal, decimal_of, last_index, lowercase, opt_text, rfind_char, text_of,
    texts, trim, trimmed, uppercase_char, upper_text,
};

verus! {

broadcast use vstd::string::group_string_axioms;

/// How the window of a game is captured.
#[derive(Debug, Clone, Copy, PartialEq, Eq, Structural)]
pub enum SourceKind {
    /// A window of the X server, without a portal.
    X11,
    /// A window through the portal, with a restore token per game.
    Portal,
}

/// A window of the X server.
#[derive(Debug, Clone)]
pub struct WindowInfo {
    pub id: u32,
    pub name: String,
    pub class: String,
    /// The process that owns it.
    pub wm_pid: u32,
}

/// What a window stands for.
pub struct WindowModel {
    pub id: nat,
    pub name: Seq<char>,
    pub class: Seq<char>,
    pub wm_pid: nat,
}

impl View for WindowInfo {
    type V = WindowModel;

    open spec fn view(&self) -> WindowModel {
        WindowModel {
            id: self.id as nat,
            name: self.name@,
            class: self.class@,
            wm_pid: self.wm_pid as nat,
        }
    }
}

/// What an optional window stands for.
pub open spec fn opt_window(w: Option<WindowInfo>) -> Option<WindowModel> {
    match w {
        Some(w) => Some(w@),
        None => None,
    }
}

/// The text by which OBS finds a window again: its id, or else its name and class.
pub open spec fn window_match_text(w: WindowModel) -> Seq<char> {
    decimal(w.id) + "\r\n"@ + w.name + "\r\n"@ + w.class
}

impl WindowInfo {
    /// Text by which OBS finds the window again.
    pub fn xcomposite_match(&self) -> (r: String)
        ensures
            r@ == window_match_text(self@),
    {
        let id = decimal_of(self.id as u64);
        cat5(id.as_str(), "\r\n", self.name.as_str(), "\r\n", self.class.as_str())
    }

    /// The same window.
    pub fn copy(&self) -> (r: WindowInfo)
        ensures
            r@ == self@,
    {
        WindowInfo {
            id: self.id,
            name: self.name.clone(),
            class: self.class.clone(),
            wm_pid: self.wm_pid,
        }
    }
}

/// A running process that may be a game.
#[derive(Debug, Clone)]
pub struct CandidateProcess {
    pub pid: u32,
    pub ppid: u32,
    /// The binary, or the first argument where it cannot be read.
    pub exe: String,
    pub comm: String,
    pub cmdline: Vec<String>,
    /// It holds a GPU device open.
    pub uses_gpu: bool,
    /// It is a process of Wine or Proton.
    pub is_wine: bool,
    pub flatpak_id: Option<String>,
    pub steam_app_id: Option<u32>,
    pub window: Option<WindowInfo>,
}

/// What a candidate stands for.
pub struct CandidateModel {
    pub pid: nat,
    pub ppid: nat,
    pub exe: Seq<char>,
    pub comm: Seq<char>,
    pub cmdline: Seq<Seq<char>>,
    pub uses_gpu: bool,
    pub is_wine: bool,
    pub flatpak_id: Option<Seq<char>>,
    pub steam_app_id: Option<u32>,
    pub window: Option<WindowModel>,
}

impl View for CandidateProcess {
    type V = CandidateModel;

    open spec fn view(&self) -> CandidateModel {
        CandidateModel {
            pid: self.pid as nat,
            ppid: self.ppid as nat,
            exe: self.exe@,
            comm: self.comm@,
            cmdline: texts(self.cmdline@),
            uses_gpu: self.uses_gpu,
            is_wine: self.is_wine,
            flatpak_id: opt_text(self.flatpak_id),
            steam_app_id: self.steam_app_id,
            window: opt_window(self.window),
        }
    }
}

/// What a list of candidates stands for.
pub open spec fn candidate_models(v: Seq<CandidateProcess>) -> Seq<CandidateModel> {
    v.map_values(|c: CandidateProcess| c@)
}

/// A separator of Unix or Windows paths.
pub open spec fn is_separator(c: char) -> bool {
    c == '/' || c == '\\'
}

/// What follows the last separator of either kind.
pub open spec fn leaf_name(s: Seq<char>) -> Seq<char>
    decreases s.len(),
{
    if s.len() == 0 || is_separator(s.last()) {
        Seq::empty()
    } else {
        leaf_name(s.drop_last()).push(s.last())
    }
}

pub proof fn lemma_leaf(s: Seq<char>, i: int)
    requires
        0 <= i <= s.len(),
        i == 0 || is_separator(s[i - 1]),
        forall|k: int| i <= k < s.len() ==> !is_separator(#[trigger] s[k]),
    ensures
        leaf_name(s) == s.skip(i),
    decreases s.len(),
{
    if i == s.len() {
        assert(s.skip(i) =~= Seq::<char>::empty());
    } else {
        let init = s.drop_last();
        assert forall|k: int| i <= k < init.len() implies !is_separator(#[trigger] init[k]) by {
            assert(init[k] == s[k]);
        }
        if i > 0 {
            assert(init[i - 1] == s[i - 1]);
        }
        lemma_leaf(init, i);
        assert(!is_separator(s[s.len() - 1]));
        assert(s.skip(i) =~= init.skip(i).push(s.last()));
    }
}

/// What follows the last separator of either kind.
pub fn leaf(s: &str) -> (r: String)
    ensures
        r@ == leaf_name(s@),
{
    let cs = chars_of(s);
    let n: usize = cs.len();
    let mut i: usize = n;
    while i > 0 && !(cs[i - 1] == '/' || cs[i - 1] == '\\')
        invariant
            n == cs@.len(),
            i <= n,
            forall|k: int| i <= k < n ==> !is_separator(#[trigger] cs@[k]),
        decreases i,
    {
        i = i - 1;
    }
    proof {
        lemma_leaf(cs@, i as int);
        assert(cs@.subrange(i as int, n as int) =~= cs@.skip(i as int));
    }
    text_of(cs.as_slice(), i, n)
}

/// What precedes the last dot.
pub open spec fn before_last_dot(s: Seq<char>) -> Seq<char> {
    match last_index(s, '.') {
        Some(i) => s.take(i),
        None => s,
    }
}

/// What precedes the last dot.
pub fn cut_last_dot(s: &str) -> (r: String)
    ensures
        r@ == before_last_dot(s@),
{
    let cs = chars_of(s);
    match rfind_char(cs.as_slice(), '.') {
        Some(i) => {
            proof {
                assert(cs@.subrange(0, i as int) =~= cs@.take(i as int));
            }
            text_of(cs.as_slice(), 0, i)
        },
        None => s.to_owned(),
    }
}

/// A text with its first character in upper case.
pub open spec fn capitalized(s: Seq<char>) -> Seq<char> {
    if s.len() == 0 {
        s
    } else {
        uppercase_char(s[0]) + s.skip(1)
    }
}

/// A text with its first character in upper case.
pub fn capitalize(s: &str) -> (r: String)
    ensures
        r@ == capitalized(s@),
        s@.len() > 0 ==> r@.len() > 0,
{
    let cs = chars_of(s);
    let n: usize = cs.len();
    if n == 0 {
        return s.to_owned();
    }
    let mut r = upper_text(cs[0]);
    let rest = text_of(cs.as_slice(), 1, n);
    proof {
        assert(cs@.subrange(1, n as int) =~= cs@.skip(1));
    }
    r.append(rest.as_str());
    r
}

impl CandidateModel {
    /// The name of the binary in lower case.
    pub open spec fn exe_name(self) -> Seq<char> {
        lowercase(leaf_name(self.exe))
    }

    /// The title without any other source: the name of the window, or the name
    /// of the binary.
    pub open spec fn own_title(self) -> Seq<char> {
        if self.window is Some && trim(self.window->0.name).len() > 0 {
            self.window->0.name
        } else {
            title_of_name(self.exe_name())
        }
    }
}

/// The title that the name of a binary gives.
pub open spec fn title_of_name(name: Seq<char>) -> Seq<char> {
    let stem = before_last_dot(name);
    if stem.len() == 0 {
        "Unknown"@
    } else {
        capitalized(stem)
    }
}

/// Title that the name of a binary gives.
pub fn title_from_name(name: &str) -> (r: String)
    ensures
        r@ == title_of_name(name@),
        r@.len() > 0,
{
    proof {
        reveal_strlit("Unknown");
    }
    let stem = cut_last_dot(name);
    if stem.as_str().is_empty() {
        "Unknown".to_owned()
    } else {
        capitalize(stem.as_str())
    }
}

impl CandidateProcess {
    /// Name of the binary in lower case.
    pub fn exe_basename(&self) -> (r: String)
        ensures
            r@ == self@.exe_name(),
    {
        let base = leaf(self.exe.as_str());
        base.as_str().to_lowercase()
    }

    /// Title without any other source. It is never empty.
    pub fn fallback_title(&self) -> (r: String)
        ensures
            r@ == self@.own_title(),
            r@.len() > 0,
    {
        match &self.window {
            Some(w) => {
                if !trimmed(w.name.as_str()).as_str().is_empty() {
                    return w.name.clone();
                }
            },
            None => {},
        }
        let base = self.exe_basename();
        title_from_name(base.as_str())
    }
}

} // verus!
