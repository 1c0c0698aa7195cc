//! Reading the sources of detection: command lines, environments, cgroups and
//! the manifests of Steam, Heroic and Prism.

use vstd::prelude::*;
use vstd::string::StringExecFns;
use vstd::utf8::{decode_utf8, encode_utf8, valid_utf8};

use crate::detect::types::{before_last_dot, capitalize, capitalized, cut_last_dot, leaf, leaf_name};
use crate::encoder_tables::strs;
use crate::json::{json_parse, parse_json, Json, JsonModel, JsonRead};
use crate::paths::{base_name, basename_of, path_key, same_path};
use crate::text::{
    chars_of, contains, ends_with, has, is_white_space, lines, lines_of, lowercase, opt_text,
    parse_u32, parse_unsigned, same, split, split_on, starts_with, strip_prefix, text_of, texts,
    trim, trim_end, trimmed, white_space, without_prefix, words, words_of,
};

verus! {

broadcast use vstd::string::group_string_axioms;

// ---------------------------------------------------------------------------
// Processes that are no games
// ---------------------------------------------------------------------------
/// Processes that may use the GPU and are never the game: our own engine,
/// compositors, launchers, browsers, media tools, and the plumbing of Wine.
pub const BLACKLIST: [&'static str; 69] = [
    "moonclip-engine",
    "moonclip-mux",
    "moonclip-nvenc-test",
    "moonclip",
    "obs",
    "obs-ffmpeg-mux",
    "kwin_wayland",
    "kwin_x11",
    "gnome-shell",
    "mutter",
    "Xwayland",
    "Xorg",
    "plasmashell",
    "plasma-keyboard",
    "kded",
    "kded6",
    "kglobalacceld",
    "ksmserver",
    "kaccess",
    "systemsettings",
    "xdg-desktop-portal",
    "xdg-desktop-portal-kde",
    "xdg-desktop-portal-gtk",
    "xdg-desktop-portal-gnome",
    "steam",
    "gamescope",
    "mangohud",
    "gameoverlayui",
    "prismlauncher",
    "heroic",
    "lutris",
    "bottles",
    "firefox",
    "firefox-bin",
    "chrome",
    "chromium",
    "chromium-browser",
    "google-chrome",
    "brave",
    "brave-browser",
    "vivaldi",
    "opera",
    "electron",
    "discord",
    "vesktop",
    "code",
    "code-oss",
    "codium",
    "steamwebhelper",
    "WebKitWebProcess",
    "WebKitNetworkProcess",
    "qtwebengineprocess",
    "ffmpeg",
    "ffplay",
    "gpu-screen-recorder",
    "kdenlive",
    "obs-ffmpeg-mux",
    "wineserver",
    "winedevice.exe",
    "explorer.exe",
    "services.exe",
    "conhost.exe",
    "plugplay.exe",
    "wineboot.exe",
    "steam.exe",
    "steamservice.exe",
    "steamerrorreporter.exe",
    "rundll32.exe",
    "gfexperience.exe",
];

/// The name, in lower case and without path and white space, is one of ours or
/// of the list.
pub open spec fn is_no_game(name: Seq<char>) -> bool {
    "moonclip"@.is_prefix_of(name) || exists|i: int|
        0 <= i < BLACKLIST@.len() && #[trigger] lowercase(BLACKLIST@[i]@) == name
}

/// Whether a name, in lower case and without path and white space, is no game's.
pub fn is_blacklisted_name(name: &str) -> (r: bool)
    ensures
        r == is_no_game(name@),
{
    if starts_with(name, "moonclip") {
        return true;
    }
    let list = BLACKLIST;
    let mut i: usize = 0;
    while i < 69
        invariant
            list@ == BLACKLIST@,
            list@.len() == 69,
            i <= 69,
            forall|k: int| 0 <= k < i ==> #[trigger] lowercase(list@[k]@) != name@,
        decreases 69 - i,
    {
        let entry = list[i].to_lowercase();
        if same(entry.as_str(), name) {
            proof {
                assert(lowercase(BLACKLIST@[i as int]@) == name@);
            }
            return true;
        }
        i = i + 1;
    }
    false
}

/// The name or binary of a process is never that of the game.
pub open spec fn names_no_game(name_or_path: Seq<char>) -> bool {
    is_no_game(lowercase(trim(leaf_name(name_or_path))))
}

/// Whether a process, by its name or binary, is never the game.
pub fn is_blacklisted(name_or_path: &str) -> (r: bool)
    ensures
        r == names_no_game(name_or_path@),
{
    let base = leaf(name_or_path);
    let t = trimmed(base.as_str());
    let name = t.as_str().to_lowercase();
    is_blacklisted_name(name.as_str())
}

// ---------------------------------------------------------------------------
// Wine
// ---------------------------------------------------------------------------
/// The name of a binary, in lower case, is that of Wine, of Proton's container,
/// or of a Windows program.
pub open spec fn is_wine_name(name: Seq<char>) -> bool {
    "wine"@.is_prefix_of(name) || contains(name, "pressure-vessel"@) || ".exe"@.is_suffix_of(name)
}

/// Whether the name of a binary, in lower case, is that of Wine or a Windows program.
pub fn is_wine_binary(name: &str) -> (r: bool)
    ensures
        r == is_wine_name(name@),
{
    starts_with(name, "wine") || has(name, "pressure-vessel") || ends_with(name, ".exe")
}

/// A process of Wine or Proton, by its binary or its first argument.
pub open spec fn is_wine_process(exe: Seq<char>, cmdline: Seq<Seq<char>>) -> bool {
    is_wine_name(lowercase(leaf_name(exe))) || (cmdline.len() > 0 && ".exe"@.is_suffix_of(
        lowercase(cmdline[0]),
    ))
}

/// Whether a process is one of Wine or Proton. Only mentioning Wine somewhere in
/// the arguments does not make it one.
pub fn looks_like_wine(exe: &str, cmdline: &Vec<String>) -> (r: bool)
    ensures
        r == is_wine_process(exe@, texts(cmdline@)),
{
    let base = leaf(exe);
    let name = base.as_str().to_lowercase();
    if is_wine_binary(name.as_str()) {
        return true;
    }
    proof {
        assert(texts(cmdline@).len() == cmdline@.len());
    }
    if cmdline.len() > 0 {
        let first = cmdline[0].as_str().to_lowercase();
        proof {
            assert(texts(cmdline@)[0] == cmdline@[0]@);
        }
        ends_with(first.as_str(), ".exe")
    } else {
        false
    }
}

/// The programs that Wine itself runs.
pub const WINE_HELPERS: [&'static str; 10] = [
    "winedevice.exe",
    "explorer.exe",
    "services.exe",
    "conhost.exe",
    "plugplay.exe",
    "wineboot.exe",
    "steam.exe",
    "steamservice.exe",
    "steamerrorreporter.exe",
    "rundll32.exe",
];

/// A Windows program is one that Wine itself runs.
pub open spec fn names_helper(exe: Seq<char>) -> bool {
    strs(WINE_HELPERS@).contains(lowercase(leaf_name(exe)))
}

/// Whether a Windows program is one that Wine itself runs.
pub fn is_wine_helper(exe: &str) -> (r: bool)
    ensures
        r == names_helper(exe@),
{
    let base = leaf(exe);
    let name = base.as_str().to_lowercase();
    crate::encoder_options::has_text(&WINE_HELPERS, name.as_str())
}

/// An argument that names a Windows program.
pub open spec fn names_program(arg: Seq<char>) -> bool {
    ".exe"@.is_suffix_of(lowercase(arg)) && !(arg.len() > 0 && arg[0] == '-')
}

/// The first argument that names a Windows program.
pub open spec fn wine_program(args: Seq<Seq<char>>) -> Option<Seq<char>>
    decreases args.len(),
{
    if args.len() == 0 {
        None
    } else if names_program(args[0]) {
        Some(args[0])
    } else {
        wine_program(args.drop_first())
    }
}

/// First argument that names a Windows program.
pub fn wine_exe_from_cmdline(args: &Vec<String>) -> (r: Option<String>)
    ensures
        opt_text(r) == wine_program(texts(args@)),
{
    let ghost all = texts(args@);
    let mut i: usize = 0;
    proof {
        assert(all.skip(0) =~= all);
    }
    while i < args.len()
        invariant
            all == texts(args@),
            i <= args@.len(),
            wine_program(all) == wine_program(all.skip(i as int)),
        decreases args@.len() - i,
    {
        let a = args[i].as_str();
        proof {
            assert(all.skip(i as int)[0] == a@);
            assert(all.skip(i as int).drop_first() =~= all.skip(i + 1));
            reveal_strlit("-");
            assert("-"@.len() == 1 && "-"@[0] == '-');
            assert("-"@.is_prefix_of(a@) <==> a@.len() > 0 && a@[0] == '-') by {
                if a@.len() > 0 && a@[0] == '-' {
                    assert(a@.subrange(0, 1) =~= "-"@);
                }
            }
        }
        let lowered = a.to_lowercase();
        if ends_with(lowered.as_str(), ".exe") && !starts_with(a, "-") {
            return Some(args[i].clone());
        }
        i = i + 1;
    }
    None
}

// ---------------------------------------------------------------------------
// Environment and cgroup
// ---------------------------------------------------------------------------
/// The pieces of bytes between zeros.
pub open spec fn zero_split(b: Seq<u8>) -> Seq<Seq<u8>>
    decreases b.len(),
{
    if b.len() == 0 {
        seq![Seq::<u8>::empty()]
    } else {
        let rest = zero_split(b.drop_last());
        if b.last() == 0 {
            rest.push(Seq::empty())
        } else {
            rest.drop_last().push(rest.last().push(b.last()))
        }
    }
}

/// What a list of byte strings holds.
pub open spec fn byte_texts(v: Seq<Vec<u8>>) -> Seq<Seq<u8>> {
    v.map_values(|b: Vec<u8>| b@)
}

/// The pieces of bytes between zeros.
pub fn split_zeros(b: &[u8]) -> (r: Vec<Vec<u8>>)
    ensures
        byte_texts(r@) == zero_split(b@),
{
    let mut out: Vec<Vec<u8>> = Vec::new();
    let mut cur: Vec<u8> = Vec::new();
    let mut i: usize = 0;
    proof {
        assert(b@.take(0) =~= Seq::<u8>::empty());
        assert(byte_texts(out@).push(cur@) =~= zero_split(b@.take(0)));
    }
    while i < b.len()
        invariant
            i <= b@.len(),
            byte_texts(out@).push(cur@) == zero_split(b@.take(i as int)),
        decreases b@.len() - i,
    {
        let c = b[i];
        let ghost before = byte_texts(out@).push(cur@);
        proof {
            assert(b@.take(i + 1).drop_last() =~= b@.take(i as int));
            assert(b@.take(i + 1).last() == c);
            assert(before.drop_last() =~= byte_texts(out@));
            assert(before.last() == cur@);
        }
        if c == 0 {
            out.push(cur);
            cur = Vec::new();
            proof {
                assert(byte_texts(out@) =~= before);
            }
        } else {
            cur.push(c);
        }
        i = i + 1;
    }
    let ghost prev = out@;
    let ghost last = cur@;
    out.push(cur);
    proof {
        assert(byte_texts(out@) =~= byte_texts(prev).push(last));
        assert(b@.take(b@.len() as int) =~= b@);
    }
    out
}

/// The Steam app that one variable names.
pub open spec fn variable_app(var: Seq<u8>) -> Option<nat> {
    let prefix = encode_utf8("SteamAppId="@);
    if prefix.is_prefix_of(var) {
        let rest = var.skip(prefix.len() as int);
        if valid_utf8(rest) {
            parse_unsigned(trim(decode_utf8(rest)), u32::MAX as nat)
        } else {
            None
        }
    } else {
        None
    }
}

/// The Steam app that the first variable with a readable one names.
pub open spec fn environment_app(vars: Seq<Seq<u8>>) -> Option<nat>
    decreases vars.len(),
{
    if vars.len() == 0 {
        None
    } else {
        match variable_app(vars[0]) {
            Some(id) => Some(id),
            None => environment_app(vars.drop_first()),
        }
    }
}

fn read_variable(var: &[u8]) -> (r: Option<u32>)
    ensures
        match r {
            Some(id) => variable_app(var@) == Some(id as nat),
            None => variable_app(var@) is None,
        },
{
    let prefix = "SteamAppId=".as_bytes();
    if prefix.len() > var.len() {
        return None;
    }
    let n: usize = prefix.len();
    let mut i: usize = 0;
    while i < n
        invariant
            prefix@ == encode_utf8("SteamAppId="@),
            n == prefix@.len(),
            n <= var@.len(),
            i <= n,
            forall|k: int| 0 <= k < i ==> prefix@[k] == var@[k],
        decreases n - i,
    {
        if prefix[i] != var[i] {
            return None;
        }
        i = i + 1;
    }
    proof {
        assert(var@.subrange(0, n as int) =~= prefix@);
    }
    let rest = vstd::slice::slice_subrange(var, n, var.len());
    proof {
        assert(rest@ =~= var@.skip(n as int));
    }
    match crate::text::from_utf8(rest) {
        Some(s) => {
            let t = trimmed(s);
            parse_u32(t.as_str())
        },
        None => None,
    }
}

/// Steam app in the environment of a process.
pub fn parse_steam_appid_env(environ: &[u8]) -> (r: Option<u32>)
    ensures
        match r {
            Some(id) => environment_app(zero_split(environ@)) == Some(id as nat),
            None => environment_app(zero_split(environ@)) is None,
        },
{
    let vars = split_zeros(environ);
    let ghost all = byte_texts(vars@);
    let mut i: usize = 0;
    proof {
        assert(all.skip(0) =~= all);
    }
    while i < vars.len()
        invariant
            all == byte_texts(vars@),
            all == zero_split(environ@),
            i <= vars@.len(),
            environment_app(all) == environment_app(all.skip(i as int)),
        decreases vars@.len() - i,
    {
        proof {
            assert(all.skip(i as int)[0] == vars@[i as int]@);
            assert(all.skip(i as int).drop_first() =~= all.skip(i + 1));
        }
        match read_variable(vars[i].as_slice()) {
            Some(id) => {
                return Some(id);
            },
            None => {},
        }
        i = i + 1;
    }
    None
}

/// The app that one part of a cgroup path names: `app-<id>-...`, where the id
/// holds a dot.
pub open spec fn scope_app(part: Seq<char>) -> Option<Seq<char>> {
    let rest = match strip_prefix(part, "app-flatpak-"@) {
        Some(r) => Some(r),
        None => strip_prefix(part, "app-"@),
    };
    match rest {
        Some(r) => {
            let id = split(r, '-')[0];
            if id.contains('.') {
                Some(id)
            } else {
                None
            }
        },
        None => None,
    }
}

/// The app that the parts of a cgroup path name from the first part on: in a
/// part of its own, or in `app/<id>/...`, the one between `app` and a further
/// part.
pub open spec fn parts_app(parts: Seq<Seq<char>>) -> Option<Seq<char>>
    decreases parts.len(),
{
    if parts.len() == 0 {
        None
    } else if scope_app(parts[0]) is Some {
        scope_app(parts[0])
    } else if parts[0] == "app"@ && parts.len() > 2 && parts[1].contains('.') {
        Some(parts[1])
    } else {
        parts_app(parts.drop_first())
    }
}

/// The app that the first line of a cgroup file with one names.
pub open spec fn cgroup_app(all: Seq<Seq<char>>) -> Option<Seq<char>>
    decreases all.len(),
{
    if all.len() == 0 {
        None
    } else {
        match parts_app(split(all[0], '/')) {
            Some(id) => Some(id),
            None => cgroup_app(all.drop_first()),
        }
    }
}

fn has_dot(s: &str) -> (r: bool)
    ensures
        r == s@.contains('.'),
{
    let cs = chars_of(s);
    crate::text::find_char(cs.as_slice(), '.').is_some()
}

fn app_of_scope(part: &str) -> (r: Option<String>)
    ensures
        opt_text(r) == scope_app(part@),
{
    let rest = match without_prefix(part, "app-flatpak-") {
        Some(r) => Some(r),
        None => without_prefix(part, "app-"),
    };
    match rest {
        Some(r) => {
            let pieces = split_on(r.as_str(), '-');
            proof {
                crate::text::lemma_split_nonempty(r@, '-');
                assert(texts(pieces@).len() == pieces@.len());
                assert(texts(pieces@)[0] == pieces@[0]@);
            }
            if has_dot(pieces[0].as_str()) {
                Some(pieces[0].clone())
            } else {
                None
            }
        },
        None => None,
    }
}

fn app_of_parts(parts: &Vec<String>) -> (r: Option<String>)
    ensures
        opt_text(r) == parts_app(texts(parts@)),
{
    let ghost all = texts(parts@);
    let mut i: usize = 0;
    proof {
        assert(all.skip(0) =~= all);
    }
    while i < parts.len()
        invariant
            all == texts(parts@),
            i <= parts@.len(),
            parts_app(all) == parts_app(all.skip(i as int)),
        decreases parts@.len() - i,
    {
        proof {
            assert(all.skip(i as int)[0] == parts@[i as int]@);
            assert(all.skip(i as int).drop_first() =~= all.skip(i + 1));
            if i + 1 < parts@.len() {
                assert(all.skip(i as int)[1] == parts@[i + 1]@);
            }
        }
        match app_of_scope(parts[i].as_str()) {
            Some(id) => {
                return Some(id);
            },
            None => {},
        }
        if same(parts[i].as_str(), "app") && parts.len() - i > 2 && has_dot(
            parts[i + 1].as_str(),
        ) {
            return Some(parts[i + 1].clone());
        }
        i = i + 1;
    }
    None
}

/// Flatpak app in the cgroup of a process.
pub fn parse_flatpak_id(cgroup: &str) -> (r: Option<String>)
    ensures
        opt_text(r) == cgroup_app(split(cgroup@, '\n')),
{
    let rows = split_on(cgroup, '\n');
    let ghost all = texts(rows@);
    let mut i: usize = 0;
    proof {
        assert(all.skip(0) =~= all);
    }
    while i < rows.len()
        invariant
            all == texts(rows@),
            all == split(cgroup@, '\n'),
            i <= rows@.len(),
            cgroup_app(all) == cgroup_app(all.skip(i as int)),
        decreases rows@.len() - i,
    {
        proof {
            assert(all.skip(i as int)[0] == rows@[i as int]@);
            assert(all.skip(i as int).drop_first() =~= all.skip(i + 1));
        }
        let parts = split_on(rows[i].as_str(), '/');
        match app_of_parts(&parts) {
            Some(id) => {
                return Some(id);
            },
            None => {},
        }
        i = i + 1;
    }
    None
}

// ---------------------------------------------------------------------------
// Steam manifests
// ---------------------------------------------------------------------------
/// The position of the first white space.
pub open spec fn first_white(s: Seq<char>) -> Option<int>
    decreases s.len(),
{
    if s.len() == 0 {
        None
    } else if is_white_space(s[0]) {
        Some(0)
    } else {
        match first_white(s.drop_first()) {
            Some(i) => Some(i + 1),
            None => None,
        }
    }
}

/// `s` without the quotes at its start.
pub open spec fn unquote_start(s: Seq<char>) -> Seq<char>
    decreases s.len(),
{
    if s.len() > 0 && s[0] == '"' {
        unquote_start(s.drop_first())
    } else {
        s
    }
}

/// `s` without the quotes at its end.
pub open spec fn unquote_end(s: Seq<char>) -> Seq<char>
    decreases s.len(),
{
    if s.len() > 0 && s.last() == '"' {
        unquote_end(s.drop_last())
    } else {
        s
    }
}

/// `s` without the quotes around it.
pub open spec fn unquoted(s: Seq<char>) -> Seq<char> {
    unquote_end(unquote_start(s))
}

/// Key and value of a line: what precedes the first white space, and what
/// follows it, without white space around them.
pub open spec fn line_pair(line: Seq<char>) -> Option<(Seq<char>, Seq<char>)> {
    let t = trim(line);
    match first_white(t) {
        Some(i) => Some((trim(t.take(i)), trim(t.skip(i + 1)))),
        None => None,
    }
}

/// `s` without the quotes around it.
pub fn unquote(s: &str) -> (r: String)
    ensures
        r@ == unquoted(s@),
{
    let cs = chars_of(s);
    let mut i: usize = 0;
    proof {
        assert(cs@.skip(0) =~= cs@);
    }
    while i < cs.len() && cs[i] == '"'
        invariant
            i <= cs@.len(),
            unquote_start(cs@) == unquote_start(cs@.skip(i as int)),
        decreases cs@.len() - i,
    {
        proof {
            assert(cs@.skip(i as int).drop_first() =~= cs@.skip(i + 1));
        }
        i = i + 1;
    }
    let mut j: usize = cs.len();
    proof {
        assert(cs@.skip(i as int) =~= cs@.subrange(i as int, j as int));
    }
    while j > i && cs[j - 1] == '"'
        invariant
            i <= j <= cs@.len(),
            unquoted(cs@) == unquote_end(cs@.subrange(i as int, j as int)),
        decreases j,
    {
        proof {
            assert(cs@.subrange(i as int, j as int).drop_last() =~= cs@.subrange(
                i as int,
                j - 1,
            ));
        }
        j = j - 1;
    }
    text_of(cs.as_slice(), i, j)
}

fn find_white(s: &[char]) -> (r: Option<usize>)
    ensures
        match r {
            Some(i) => first_white(s@) == Some(i as int) && i < s@.len(),
            None => first_white(s@) is None,
        },
{
    let mut i: usize = 0;
    proof {
        assert(s@.skip(0) =~= s@);
    }
    while i < s.len()
        invariant
            i <= s@.len(),
            first_white(s@) == (match first_white(s@.skip(i as int)) {
                Some(k) => Some(k + i),
                None => None::<int>,
            }),
        decreases s@.len() - i,
    {
        if white_space(s[i]) {
            return Some(i);
        }
        proof {
            assert(s@.skip(i as int).drop_first() =~= s@.skip(i + 1));
        }
        i = i + 1;
    }
    None
}

/// Key and value of a line.
pub fn split_pair(line: &str) -> (r: Option<(String, String)>)
    ensures
        match r {
            Some(p) => line_pair(line@) == Some((p.0@, p.1@)),
            None => line_pair(line@) is None,
        },
{
    let t = trimmed(line);
    let cs = chars_of(t.as_str());
    let n: usize = cs.len();
    match find_white(cs.as_slice()) {
        Some(i) => {
            let k = text_of(cs.as_slice(), 0, i);
            let v = text_of(cs.as_slice(), i + 1, n);
            proof {
                assert(cs@.subrange(0, i as int) =~= cs@.take(i as int));
                assert(cs@.subrange(i + 1, n as int) =~= cs@.skip(i + 1));
            }
            Some((trimmed(k.as_str()), trimmed(v.as_str())))
        },
        None => None,
    }
}

/// App and name that a manifest has given so far.
pub struct AcfModel {
    pub appid: Option<nat>,
    pub name: Option<Seq<char>>,
}

/// What one more line gives. A later line replaces an earlier one, also with nothing.
pub open spec fn acf_line(a: AcfModel, line: Seq<char>) -> AcfModel {
    match line_pair(line) {
        None => a,
        Some((k, v)) => {
            let value = unquoted(v);
            if unquoted(k) == "appid"@ {
                AcfModel { appid: parse_unsigned(value, u32::MAX as nat), ..a }
            } else if unquoted(k) == "name"@ {
                AcfModel {
                    name: if value.len() > 0 {
                        Some(value)
                    } else {
                        None
                    },
                    ..a
                }
            } else {
                a
            }
        },
    }
}

/// What the lines of a manifest give.
pub open spec fn acf_lines(all: Seq<Seq<char>>) -> AcfModel
    decreases all.len(),
{
    if all.len() == 0 {
        AcfModel { appid: None, name: None }
    } else {
        acf_line(acf_lines(all.drop_last()), all.last())
    }
}

/// The app and name of a Steam manifest that has both.
pub fn parse_acf(text: &str) -> (r: Option<(u32, String)>)
    ensures
        ({
            let a = acf_lines(lines(text@));
            match r {
                Some((id, name)) => a.appid == Some(id as nat) && a.name == Some(name@),
                None => a.appid is None || a.name is None,
            }
        }),
{
    let rows = lines_of(text);
    let ghost all = texts(rows@);
    let mut appid: Option<u32> = None;
    let mut name: Option<String> = None;
    let mut i: usize = 0;
    proof {
        assert(all.take(0) =~= Seq::<Seq<char>>::empty());
    }
    while i < rows.len()
        invariant
            all == texts(rows@),
            i <= rows@.len(),
            acf_lines(all.take(i as int)).name == opt_text(name),
            match appid {
                Some(id) => acf_lines(all.take(i as int)).appid == Some(id as nat),
                None => acf_lines(all.take(i as int)).appid is None,
            },
        decreases rows@.len() - i,
    {
        proof {
            assert(all.take(i + 1).drop_last() =~= all.take(i as int));
            assert(all.take(i + 1).last() == rows@[i as int]@);
        }
        match split_pair(rows[i].as_str()) {
            Some((k, v)) => {
                let key = unquote(k.as_str());
                let value = unquote(v.as_str());
                if same(key.as_str(), "appid") {
                    appid = parse_u32(value.as_str());
                } else if same(key.as_str(), "name") {
                    if value.as_str().is_empty() {
                        name = None;
                    } else {
                        name = Some(value);
                    }
                }
            },
            None => {},
        }
        i = i + 1;
    }
    proof {
        assert(all.take(all.len() as int) =~= all);
    }
    match (appid, name) {
        (Some(id), Some(n)) => Some((id, n)),
        _ => None,
    }
}

/// `s` with each pair of backslashes made one.
pub open spec fn unescaped(s: Seq<char>) -> Seq<char>
    decreases s.len(),
{
    if s.len() == 0 {
        s
    } else if s.len() >= 2 && s[0] == '\\' && s[1] == '\\' {
        seq!['\\'] + unescaped(s.skip(2))
    } else {
        seq![s[0]] + unescaped(s.skip(1))
    }
}

/// `s` with each pair of backslashes made one.
pub fn unescape(s: &str) -> (r: String)
    ensures
        r@ == unescaped(s@),
{
    let cs = chars_of(s);
    let mut r: String = String::new();
    let mut i: usize = 0;
    proof {
        assert(cs@.skip(0) =~= cs@);
        assert(r@ + unescaped(cs@) =~= unescaped(cs@));
    }
    while i < cs.len()
        invariant
            cs@ == s@,
            i <= cs@.len(),
            r@ + unescaped(cs@.skip(i as int)) == unescaped(s@),
        decreases cs@.len() - i,
    {
        let ghost before = r@;
        let ghost rest = cs@.skip(i as int);
        if i < cs.len() - 1 && cs[i] == '\\' && cs[i + 1] == '\\' {
            r.push('\\');
            proof {
                assert(rest.skip(2) =~= cs@.skip(i + 2));
                assert(r@ + unescaped(cs@.skip(i + 2)) =~= before + (seq!['\\'] + unescaped(
                    cs@.skip(i + 2),
                )));
            }
            i = i + 2;
        } else {
            r.push(cs[i]);
            proof {
                assert(rest.skip(1) =~= cs@.skip(i + 1));
                assert(r@ + unescaped(cs@.skip(i + 1)) =~= before + (seq![rest[0]] + unescaped(
                    cs@.skip(i + 1),
                )));
            }
            i = i + 1;
        }
    }
    proof {
        assert(cs@.skip(cs@.len() as int) =~= Seq::<char>::empty());
        assert(r@ + unescaped(cs@.skip(cs@.len() as int)) =~= r@);
    }
    r
}

/// A list of paths has one that is the same path.
pub open spec fn has_path(paths: Seq<Seq<char>>, p: Seq<char>) -> bool {
    exists|i: int| 0 <= i < paths.len() && path_key(#[trigger] paths[i]) == path_key(p)
}

/// A path more, where the list does not have it.
pub open spec fn with_path(paths: Seq<Seq<char>>, p: Seq<char>) -> Seq<Seq<char>> {
    if has_path(paths, p) {
        paths
    } else {
        paths.push(p)
    }
}

/// The path that one line of a list of libraries gives.
pub open spec fn library_line(line: Seq<char>) -> Option<Seq<char>> {
    match line_pair(line) {
        Some((k, v)) => if unquoted(k) == "path"@ {
            Some(unescaped(unquoted(v)))
        } else {
            None
        },
        None => None,
    }
}

/// The libraries that the lines of a list give, in order, none twice.
pub open spec fn library_lines(all: Seq<Seq<char>>) -> Seq<Seq<char>>
    decreases all.len(),
{
    if all.len() == 0 {
        Seq::empty()
    } else {
        let init = library_lines(all.drop_last());
        match library_line(all.last()) {
            Some(p) => with_path(init, p),
            None => init,
        }
    }
}

/// Adds a path to a list that does not have it.
pub fn add_path(paths: &mut Vec<String>, p: String)
    ensures
        texts(final(paths)@) == with_path(texts(old(paths)@), p@),
{
    let ghost before = texts(paths@);
    let mut i: usize = 0;
    while i < paths.len()
        invariant
            before == texts(paths@),
            i <= paths@.len(),
            forall|k: int| 0 <= k < i ==> path_key(#[trigger] before[k]) != path_key(p@),
        decreases paths@.len() - i,
    {
        proof {
            assert(before[i as int] == paths@[i as int]@);
        }
        if same_path(paths[i].as_str(), p.as_str()) {
            return;
        }
        i = i + 1;
    }
    proof {
        assert(!has_path(before, p@));
    }
    let ghost added = p@;
    paths.push(p);
    proof {
        assert(texts(paths@) =~= before.push(added));
    }
}

/// Steam libraries of a list, in order, none twice.
pub fn parse_libraryfolders(text: &str) -> (r: Vec<String>)
    ensures
        texts(r@) == library_lines(lines(text@)),
{
    let rows = lines_of(text);
    let ghost all = texts(rows@);
    let mut out: Vec<String> = Vec::new();
    let mut i: usize = 0;
    proof {
        assert(all.take(0) =~= Seq::<Seq<char>>::empty());
        assert(texts(out@) =~= Seq::<Seq<char>>::empty());
    }
    while i < rows.len()
        invariant
            all == texts(rows@),
            i <= rows@.len(),
            texts(out@) == library_lines(all.take(i as int)),
        decreases rows@.len() - i,
    {
        proof {
            assert(all.take(i + 1).drop_last() =~= all.take(i as int));
            assert(all.take(i + 1).last() == rows@[i as int]@);
        }
        match split_pair(rows[i].as_str()) {
            Some((k, v)) => {
                let key = unquote(k.as_str());
                if same(key.as_str(), "path") {
                    let value = unquote(v.as_str());
                    add_path(&mut out, unescape(value.as_str()));
                }
            },
            None => {},
        }
        i = i + 1;
    }
    proof {
        assert(all.take(all.len() as int) =~= all);
    }
    out
}

/// No two libraries of a list are the same path.
pub proof fn law_libraries_differ(all: Seq<Seq<char>>)
    ensures
        forall|i: int, j: int|
            0 <= i < library_lines(all).len() && 0 <= j < library_lines(all).len() && i != j
                ==> path_key(#[trigger] library_lines(all)[i]) != path_key(
                #[trigger] library_lines(all)[j],
            ),
    decreases all.len(),
{
    if all.len() > 0 {
        law_libraries_differ(all.drop_last());
        let init = library_lines(all.drop_last());
        let out = library_lines(all);
        assert forall|i: int, j: int|
            0 <= i < out.len() && 0 <= j < out.len() && i != j implies path_key(#[trigger] out[i])
            != path_key(#[trigger] out[j]) by {
            if i < init.len() {
                assert(out[i] == init[i]);
            }
            if j < init.len() {
                assert(out[j] == init[j]);
            }
        }
    }
}

/// The name of a Steam manifest file: `appmanifest_<app>.acf`.
pub open spec fn is_manifest(name: Seq<char>) -> bool {
    match strip_prefix(name, "appmanifest_"@) {
        Some(rest) => match crate::text::strip_suffix(rest, ".acf"@) {
            Some(id) => parse_unsigned(id, u32::MAX as nat) is Some,
            None => false,
        },
        None => false,
    }
}

/// Whether a file is a Steam manifest, by its name.
pub fn is_manifest_name(name: &str) -> (r: bool)
    ensures
        r == is_manifest(name@),
{
    match without_prefix(name, "appmanifest_") {
        Some(rest) => match crate::text::without_suffix(rest.as_str(), ".acf") {
            Some(id) => parse_u32(id.as_str()).is_some(),
            None => false,
        },
        None => false,
    }
}

// ---------------------------------------------------------------------------
// Prism and Minecraft
// ---------------------------------------------------------------------------
/// The name that one line of an instance's settings gives.
pub open spec fn instance_line(line: Seq<char>) -> Option<Seq<char>> {
    match strip_prefix(trim(line), "name="@) {
        Some(v) => if trim(v).len() > 0 {
            Some(trim(v))
        } else {
            None
        },
        None => None,
    }
}

/// The first name that an instance's settings give.
pub open spec fn instance_name(all: Seq<Seq<char>>) -> Option<Seq<char>>
    decreases all.len(),
{
    if all.len() == 0 {
        None
    } else {
        match instance_line(all[0]) {
            Some(n) => Some(n),
            None => instance_name(all.drop_first()),
        }
    }
}

/// Name in the settings of a Prism instance.
pub fn parse_prism_instance_cfg(text: &str) -> (r: Option<String>)
    ensures
        opt_text(r) == instance_name(lines(text@)),
{
    let rows = lines_of(text);
    let ghost all = texts(rows@);
    let mut i: usize = 0;
    proof {
        assert(all.skip(0) =~= all);
    }
    while i < rows.len()
        invariant
            all == texts(rows@),
            all == lines(text@),
            i <= rows@.len(),
            instance_name(all) == instance_name(all.skip(i as int)),
        decreases rows@.len() - i,
    {
        proof {
            assert(all.skip(i as int)[0] == rows@[i as int]@);
            assert(all.skip(i as int).drop_first() =~= all.skip(i + 1));
        }
        let t = trimmed(rows[i].as_str());
        match without_prefix(t.as_str(), "name=") {
            Some(v) => {
                let name = trimmed(v.as_str());
                if !name.as_str().is_empty() {
                    return Some(name);
                }
            },
            None => {},
        }
        i = i + 1;
    }
    None
}

/// The name of an instance: the one of its settings, or that of its folder.
pub fn prism_name(instance: &str, settings: Option<&str>) -> (r: String)
    ensures
        r@ == match settings {
            Some(t) => match instance_name(lines(t@)) {
                Some(n) => n,
                None => instance@,
            },
            None => instance@,
        },
{
    match settings {
        Some(t) => match parse_prism_instance_cfg(t) {
            Some(n) => n,
            None => instance.to_owned(),
        },
        None => instance.to_owned(),
    }
}

/// The folder of the instance that a command line starts: the end of the path
/// behind `--gameDir`.
pub open spec fn game_dir(args: Seq<Seq<char>>) -> Option<Seq<char>>
    decreases args.len(),
{
    if args.len() == 0 {
        None
    } else if args[0] == "--gameDir"@ {
        if args.len() > 1 {
            Some(base_name(args[1]))
        } else {
            None
        }
    } else {
        match strip_prefix(args[0], "--gameDir="@) {
            Some(dir) => Some(base_name(dir)),
            None => game_dir(args.drop_first()),
        }
    }
}

/// Folder of the instance that a command line starts.
pub fn parse_prism_game_dir(args: &Vec<String>) -> (r: Option<String>)
    ensures
        opt_text(r) == game_dir(texts(args@)),
{
    let ghost all = texts(args@);
    let mut i: usize = 0;
    proof {
        assert(all.skip(0) =~= all);
    }
    while i < args.len()
        invariant
            all == texts(args@),
            i <= args@.len(),
            game_dir(all) == game_dir(all.skip(i as int)),
        decreases args@.len() - i,
    {
        let a = args[i].as_str();
        proof {
            assert(all.skip(i as int)[0] == a@);
            assert(all.skip(i as int).drop_first() =~= all.skip(i + 1));
            if i + 1 < args@.len() {
                assert(all.skip(i as int)[1] == args@[i + 1]@);
            }
        }
        if same(a, "--gameDir") {
            if i < args.len() - 1 {
                return Some(basename_of(args[i + 1].as_str()));
            }
            return None;
        }
        match without_prefix(a, "--gameDir=") {
            Some(dir) => {
                return Some(basename_of(dir.as_str()));
            },
            None => {},
        }
        i = i + 1;
    }
    None
}

/// A command line that starts Minecraft's main class.
pub open spec fn starts_minecraft(args: Seq<Seq<char>>) -> bool {
    exists|i: int|
        0 <= i < args.len() && contains(#[trigger] args[i], "net.minecraft.client.main.Main"@)
}

/// Whether a command line starts Minecraft's main class.
pub fn is_minecraft_java(args: &Vec<String>) -> (r: bool)
    ensures
        r == starts_minecraft(texts(args@)),
{
    let ghost all = texts(args@);
    let mut i: usize = 0;
    while i < args.len()
        invariant
            all == texts(args@),
            i <= args@.len(),
            forall|k: int|
                0 <= k < i ==> !contains(#[trigger] all[k], "net.minecraft.client.main.Main"@),
        decreases args@.len() - i,
    {
        proof {
            assert(all[i as int] == args@[i as int]@);
        }
        if has(args[i].as_str(), "net.minecraft.client.main.Main") {
            return true;
        }
        i = i + 1;
    }
    false
}

// ---------------------------------------------------------------------------
// Heroic
// ---------------------------------------------------------------------------
/// The title and program of one game of Heroic, where it has a title.
pub open spec fn heroic_game(entry: JsonModel) -> Option<(Seq<char>, Option<Seq<char>>)> {
    let title = match entry.get("title"@) {
        Some(v) => v.as_str(),
        None => None,
    };
    let exe = match entry.get("executable"@) {
        Some(v) => v.as_str(),
        None => None,
    };
    match title {
        Some(t) => if t.len() > 0 {
            Some((t, exe))
        } else {
            None
        },
        None => None,
    }
}

/// The title and program of a game in Heroic's list.
pub open spec fn heroic_entry(read: JsonRead, app_name: Seq<char>) -> Option<
    (Seq<char>, Option<Seq<char>>),
> {
    match read {
        JsonRead::Failure(_) => None,
        JsonRead::Document(doc) => heroic_listed(doc, app_name),
    }
}

/// The title and program of a game in a document of Heroic.
pub open spec fn heroic_listed(doc: JsonModel, app_name: Seq<char>) -> Option<
    (Seq<char>, Option<Seq<char>>),
> {
    match doc.get(app_name) {
        Some(entry) => heroic_game(entry),
        None => None,
    }
}

/// Title and program of a game in a document of Heroic.
pub fn find_heroic_game(doc: &Json, app_name: &str) -> (r: Option<(String, Option<String>)>)
    ensures
        match r {
            Some(g) => heroic_listed(doc@, app_name@) == Some((g.0@, opt_text(g.1))),
            None => heroic_listed(doc@, app_name@) is None,
        },
{
    match doc.get(app_name) {
        Some(entry) => read_heroic_game(entry),
        None => None,
    }
}

/// Title and program of one game of Heroic.
pub fn read_heroic_game(entry: &Json) -> (r: Option<(String, Option<String>)>)
    ensures
        match r {
            Some(g) => heroic_game(entry@) == Some((g.0@, opt_text(g.1))),
            None => heroic_game(entry@) is None,
        },
{
    let title = match entry.get("title") {
        Some(v) => v.as_str(),
        None => None,
    };
    let exe: Option<String> = match entry.get("executable") {
        Some(v) => match v.as_str() {
            Some(s) => Some(s.to_owned()),
            None => None,
        },
        None => None,
    };
    match title {
        Some(t) => {
            if t.is_empty() {
                None
            } else {
                Some((t.to_owned(), exe))
            }
        },
        None => None,
    }
}

/// Title and program of a game in Heroic's list.
pub fn parse_heroic_installed(json: &str, app_name: &str) -> (r: Option<(String, Option<String>)>)
    ensures
        match r {
            Some(g) => heroic_entry(json_parse(json@), app_name@) == Some((g.0@, opt_text(g.1))),
            None => heroic_entry(json_parse(json@), app_name@) is None,
        },
{
    match parse_json(json) {
        Ok(doc) => find_heroic_game(&doc, app_name),
        Err(_) => None,
    }
}

// ---------------------------------------------------------------------------
// Titles
// ---------------------------------------------------------------------------
/// Underscores and hyphens become spaces.
pub open spec fn spaced(s: Seq<char>) -> Seq<char> {
    s.map_values(
        |c: char|
            if c == '_' || c == '-' {
                ' '
            } else {
                c
            },
    )
}

/// Every word capitalized, with a space behind it.
pub open spec fn capital_words(ws: Seq<Seq<char>>) -> Seq<char>
    decreases ws.len(),
{
    if ws.len() == 0 {
        Seq::empty()
    } else {
        (capital_words(ws.drop_last()) + capitalized(ws.last())).push(' ')
    }
}

/// The title that a program's path gives: the words of its name, capitalized.
pub open spec fn program_title(exe: Seq<char>) -> Seq<char> {
    trim_end(capital_words(words(spaced(before_last_dot(leaf_name(exe))))))
}

fn space_out(s: &str) -> (r: String)
    ensures
        r@ == spaced(s@),
{
    let mut r: String = String::new();
    for c in it: s.chars()
        invariant
            it.seq() == s@,
            r@ == spaced(s@.take(it.index())),
    {
        let ghost k = it.index();
        if c == '_' || c == '-' {
            r.push(' ');
        } else {
            r.push(c);
        }
        proof {
            assert(r@ =~= spaced(s@.take(k + 1)));
        }
    }
    proof {
        assert(s@.take(s@.len() as int) =~= s@);
    }
    r
}

/// A text without white space at its end.
pub fn trimmed_end(s: &str) -> (r: String)
    ensures
        r@ == trim_end(s@),
{
    let cs = chars_of(s);
    let mut j: usize = cs.len();
    proof {
        assert(cs@.take(j as int) =~= cs@);
    }
    while j > 0 && white_space(cs[j - 1])
        invariant
            j <= cs@.len(),
            trim_end(cs@) == trim_end(cs@.take(j as int)),
        decreases j,
    {
        proof {
            assert(cs@.take(j as int).drop_last() =~= cs@.take(j - 1));
        }
        j = j - 1;
    }
    proof {
        assert(cs@.subrange(0, j as int) =~= cs@.take(j as int));
    }
    text_of(cs.as_slice(), 0, j)
}

/// Title that a program's path gives.
pub fn title_from_exe(exe: &str) -> (r: String)
    ensures
        r@ == program_title(exe@),
{
    let base = leaf(exe);
    let stem = cut_last_dot(base.as_str());
    let open = space_out(stem.as_str());
    let ws = words_of(open.as_str());
    let ghost all = texts(ws@);
    let mut out: String = String::new();
    let mut i: usize = 0;
    proof {
        assert(all.take(0) =~= Seq::<Seq<char>>::empty());
        assert(out@ =~= capital_words(all.take(0)));
    }
    while i < ws.len()
        invariant
            all == texts(ws@),
            i <= ws@.len(),
            out@ == capital_words(all.take(i as int)),
        decreases ws@.len() - i,
    {
        proof {
            assert(all.take(i + 1).drop_last() =~= all.take(i as int));
            assert(all.take(i + 1).last() == ws@[i as int]@);
        }
        let word = capitalize(ws[i].as_str());
        out.append(word.as_str());
        out.push(' ');
        i = i + 1;
    }
    proof {
        assert(all.take(all.len() as int) =~= all);
    }
    trimmed_end(out.as_str())
}

} // verus!
