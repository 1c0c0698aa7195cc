//! What holds of the names of processes.

use vstd::prelude::*;
use vstd::utf8::is_ascii_chars;

use crate::detect::parsers::{is_no_game, names_helper, names_no_game, BLACKLIST, WINE_HELPERS};
use crate::detect::types::{is_separator, leaf_name, lemma_leaf};
use crate::encoder_tables::strs;
use crate::text::{
    ascii_lower, ascii_upper, ascii_upper_char, is_white_space, lemma_lower_of_upper,
    lemma_lower_parts, lemma_lower_start, lowercase, trim, trim_end, trim_start,
};

verus! {

broadcast use vstd::string::group_string_axioms;

// ---------------------------------------------------------------------------
// Directories
// ---------------------------------------------------------------------------
/// A name without a directory.
pub open spec fn is_bare(name: Seq<char>) -> bool {
    forall|k: int| 0 <= k < name.len() ==> !is_separator(#[trigger] name[k])
}

proof fn lemma_leaf_below(dir: Seq<char>, sep: char, name: Seq<char>)
    requires
        is_separator(sep),
        is_bare(name),
    ensures
        leaf_name(dir.push(sep) + name) == name,
        leaf_name(name) == name,
{
    let s = dir.push(sep) + name;
    assert forall|k: int| dir.len() + 1 <= k < s.len() implies !is_separator(#[trigger] s[k]) by {
        assert(s[k] == name[k - dir.len() - 1]);
    }
    assert(s[dir.len() as int] == sep);
    lemma_leaf(s, dir.len() as int + 1);
    assert(s.skip(dir.len() as int + 1) =~= name);
    lemma_leaf(name, 0);
    assert(name.skip(0) =~= name);
}

/// Only the name decides: a directory before it, with separators of Unix or of
/// Windows, changes nothing.
pub proof fn law_directories_do_not_count(dir: Seq<char>, name: Seq<char>)
    requires
        is_bare(name),
    ensures
        names_no_game(dir + "/"@ + name) == names_no_game(name),
        names_no_game(dir + "\\"@ + name) == names_no_game(name),
        names_helper(dir + "/"@ + name) == names_helper(name),
        names_helper(dir + "\\"@ + name) == names_helper(name),
{
    reveal_strlit("/");
    reveal_strlit("\\");
    assert(dir + "/"@ =~= dir.push('/'));
    assert(dir + "\\"@ =~= dir.push('\\'));
    lemma_leaf_below(dir, '/', name);
    lemma_leaf_below(dir, '\\', name);
}

// ---------------------------------------------------------------------------
// Case
// ---------------------------------------------------------------------------
proof fn lemma_leaf_upper(s: Seq<char>)
    ensures
        leaf_name(ascii_upper(s)) == ascii_upper(leaf_name(s)),
    decreases s.len(),
{
    if s.len() == 0 {
        assert(ascii_upper(s) =~= s);
        assert(ascii_upper(leaf_name(s)) =~= leaf_name(s));
    } else {
        let init = s.drop_last();
        assert(ascii_upper(s).drop_last() =~= ascii_upper(init));
        assert(ascii_upper(s).last() == ascii_upper_char(s.last()));
        lemma_leaf_upper(init);
        if is_separator(s.last()) {
            assert(ascii_upper(leaf_name(s)) =~= Seq::<char>::empty());
        } else {
            assert(leaf_name(s) == leaf_name(init).push(s.last()));
            assert(ascii_upper(leaf_name(s)) =~= ascii_upper(leaf_name(init)).push(
                ascii_upper_char(s.last()),
            ));
        }
    }
}

proof fn lemma_trim_start_upper(s: Seq<char>)
    ensures
        trim_start(ascii_upper(s)) == ascii_upper(trim_start(s)),
    decreases s.len(),
{
    if s.len() > 0 {
        assert(ascii_upper(s).drop_first() =~= ascii_upper(s.drop_first()));
        assert(ascii_upper(s)[0] == ascii_upper_char(s[0]));
        lemma_trim_start_upper(s.drop_first());
    }
}

proof fn lemma_trim_end_upper(s: Seq<char>)
    ensures
        trim_end(ascii_upper(s)) == ascii_upper(trim_end(s)),
    decreases s.len(),
{
    if s.len() > 0 {
        assert(ascii_upper(s).drop_last() =~= ascii_upper(s.drop_last()));
        assert(ascii_upper(s).last() == ascii_upper_char(s.last()));
        lemma_trim_end_upper(s.drop_last());
    }
}

/// The case of a name's ASCII letters does not count.
pub proof fn law_case_does_not_count(name_or_path: Seq<char>)
    ensures
        names_no_game(ascii_upper(name_or_path)) == names_no_game(name_or_path),
        names_helper(ascii_upper(name_or_path)) == names_helper(name_or_path),
{
    let s = name_or_path;
    lemma_leaf_upper(s);
    lemma_lower_of_upper(leaf_name(s));
    lemma_trim_start_upper(leaf_name(s));
    lemma_trim_end_upper(trim_start(leaf_name(s)));
    lemma_lower_of_upper(trim(leaf_name(s)));
}

// ---------------------------------------------------------------------------
// Listed names
// ---------------------------------------------------------------------------
/// A name without directory and white space.
spec fn is_tidy(name: Seq<char>) -> bool {
    forall|k: int|
        0 <= k < name.len() ==> !is_separator(#[trigger] name[k]) && !is_white_space(name[k])
}

proof fn lemma_tidy(name: Seq<char>)
    requires
        is_tidy(name),
    ensures
        leaf_name(name) == name,
        trim(name) == name,
{
    lemma_leaf_below(Seq::empty(), '/', name);
    if name.len() > 0 {
        assert(!is_white_space(name[0]));
        assert(!is_white_space(name[name.len() - 1]));
    }
}

proof fn lemma_tidy_names_1()
    ensures
        forall|i: int| 0 <= i < 12 ==> is_tidy(#[trigger] BLACKLIST@[i]@),
{
    assert(is_tidy(BLACKLIST@[0]@)) by {
        reveal_strlit("moonclip-engine");
    }
    assert(is_tidy(BLACKLIST@[1]@)) by {
        reveal_strlit("moonclip-mux");
    }
    assert(is_tidy(BLACKLIST@[2]@)) by {
        reveal_strlit("moonclip-nvenc-test");
    }
    assert(is_tidy(BLACKLIST@[3]@)) by {
        reveal_strlit("moonclip");
    }
    assert(is_tidy(BLACKLIST@[4]@)) by {
        reveal_strlit("obs");
    }
    assert(is_tidy(BLACKLIST@[5]@)) by {
        reveal_strlit("obs-ffmpeg-mux");
    }
    assert(is_tidy(BLACKLIST@[6]@)) by {
        reveal_strlit("kwin_wayland");
    }
    assert(is_tidy(BLACKLIST@[7]@)) by {
        reveal_strlit("kwin_x11");
    }
    assert(is_tidy(BLACKLIST@[8]@)) by {
        reveal_strlit("gnome-shell");
    }
    assert(is_tidy(BLACKLIST@[9]@)) by {
        reveal_strlit("mutter");
    }
    assert(is_tidy(BLACKLIST@[10]@)) by {
        reveal_strlit("Xwayland");
    }
    assert(is_tidy(BLACKLIST@[11]@)) by {
        reveal_strlit("Xorg");
    }
}

proof fn lemma_tidy_names_2()
    ensures
        forall|i: int| 12 <= i < 24 ==> is_tidy(#[trigger] BLACKLIST@[i]@),
{
    assert(is_tidy(BLACKLIST@[12]@)) by {
        reveal_strlit("plasmashell");
    }
    assert(is_tidy(BLACKLIST@[13]@)) by {
        reveal_strlit("plasma-keyboard");
    }
    assert(is_tidy(BLACKLIST@[14]@)) by {
        reveal_strlit("kded");
    }
    assert(is_tidy(BLACKLIST@[15]@)) by {
        reveal_strlit("kded6");
    }
    assert(is_tidy(BLACKLIST@[16]@)) by {
        reveal_strlit("kglobalacceld");
    }
    assert(is_tidy(BLACKLIST@[17]@)) by {
        reveal_strlit("ksmserver");
    }
    assert(is_tidy(BLACKLIST@[18]@)) by {
        reveal_strlit("kaccess");
    }
    assert(is_tidy(BLACKLIST@[19]@)) by {
        reveal_strlit("systemsettings");
    }
    assert(is_tidy(BLACKLIST@[20]@)) by {
        reveal_strlit("xdg-desktop-portal");
    }
    assert(is_tidy(BLACKLIST@[21]@)) by {
        reveal_strlit("xdg-desktop-portal-kde");
    }
    assert(is_tidy(BLACKLIST@[22]@)) by {
        reveal_strlit("xdg-desktop-portal-gtk");
    }
    assert(is_tidy(BLACKLIST@[23]@)) by {
        reveal_strlit("xdg-desktop-portal-gnome");
    }
}

proof fn lemma_tidy_names_3()
    ensures
        forall|i: int| 24 <= i < 36 ==> is_tidy(#[trigger] BLACKLIST@[i]@),
{
    assert(is_tidy(BLACKLIST@[24]@)) by {
        reveal_strlit("steam");
    }
    assert(is_tidy(BLACKLIST@[25]@)) by {
        reveal_strlit("gamescope");
    }
    assert(is_tidy(BLACKLIST@[26]@)) by {
        reveal_strlit("mangohud");
    }
    assert(is_tidy(BLACKLIST@[27]@)) by {
        reveal_strlit("gameoverlayui");
    }
    assert(is_tidy(BLACKLIST@[28]@)) by {
        reveal_strlit("prismlauncher");
    }
    assert(is_tidy(BLACKLIST@[29]@)) by {
        reveal_strlit("heroic");
    }
    assert(is_tidy(BLACKLIST@[30]@)) by {
        reveal_strlit("lutris");
    }
    assert(is_tidy(BLACKLIST@[31]@)) by {
        reveal_strlit("bottles");
    }
    assert(is_tidy(BLACKLIST@[32]@)) by {
        reveal_strlit("firefox");
    }
    assert(is_tidy(BLACKLIST@[33]@)) by {
        reveal_strlit("firefox-bin");
    }
    assert(is_tidy(BLACKLIST@[34]@)) by {
        reveal_strlit("chrome");
    }
    assert(is_tidy(BLACKLIST@[35]@)) by {
        reveal_strlit("chromium");
    }
}

proof fn lemma_tidy_names_4()
    ensures
        forall|i: int| 36 <= i < 48 ==> is_tidy(#[trigger] BLACKLIST@[i]@),
{
    assert(is_tidy(BLACKLIST@[36]@)) by {
        reveal_strlit("chromium-browser");
    }
    assert(is_tidy(BLACKLIST@[37]@)) by {
        reveal_strlit("google-chrome");
    }
    assert(is_tidy(BLACKLIST@[38]@)) by {
        reveal_strlit("brave");
    }
    assert(is_tidy(BLACKLIST@[39]@)) by {
        reveal_strlit("brave-browser");
    }
    assert(is_tidy(BLACKLIST@[40]@)) by {
        reveal_strlit("vivaldi");
    }
    assert(is_tidy(BLACKLIST@[41]@)) by {
        reveal_strlit("opera");
    }
    assert(is_tidy(BLACKLIST@[42]@)) by {
        reveal_strlit("electron");
    }
    assert(is_tidy(BLACKLIST@[43]@)) by {
        reveal_strlit("discord");
    }
    assert(is_tidy(BLACKLIST@[44]@)) by {
        reveal_strlit("vesktop");
    }
    assert(is_tidy(BLACKLIST@[45]@)) by {
        reveal_strlit("code");
    }
    assert(is_tidy(BLACKLIST@[46]@)) by {
        reveal_strlit("code-oss");
    }
    assert(is_tidy(BLACKLIST@[47]@)) by {
        reveal_strlit("codium");
    }
}

proof fn lemma_tidy_names_5()
    ensures
        forall|i: int| 48 <= i < 60 ==> is_tidy(#[trigger] BLACKLIST@[i]@),
{
    assert(is_tidy(BLACKLIST@[48]@)) by {
        reveal_strlit("steamwebhelper");
    }
    assert(is_tidy(BLACKLIST@[49]@)) by {
        reveal_strlit("WebKitWebProcess");
    }
    assert(is_tidy(BLACKLIST@[50]@)) by {
        reveal_strlit("WebKitNetworkProcess");
    }
    assert(is_tidy(BLACKLIST@[51]@)) by {
        reveal_strlit("qtwebengineprocess");
    }
    assert(is_tidy(BLACKLIST@[52]@)) by {
        reveal_strlit("ffmpeg");
    }
    assert(is_tidy(BLACKLIST@[53]@)) by {
        reveal_strlit("ffplay");
    }
    assert(is_tidy(BLACKLIST@[54]@)) by {
        reveal_strlit("gpu-screen-recorder");
    }
    assert(is_tidy(BLACKLIST@[55]@)) by {
        reveal_strlit("kdenlive");
    }
    assert(is_tidy(BLACKLIST@[56]@)) by {
        reveal_strlit("obs-ffmpeg-mux");
    }
    assert(is_tidy(BLACKLIST@[57]@)) by {
        reveal_strlit("wineserver");
    }
    assert(is_tidy(BLACKLIST@[58]@)) by {
        reveal_strlit("winedevice.exe");
    }
    assert(is_tidy(BLACKLIST@[59]@)) by {
        reveal_strlit("explorer.exe");
    }
}

proof fn lemma_tidy_names_6()
    ensures
        forall|i: int| 60 <= i < 69 ==> is_tidy(#[trigger] BLACKLIST@[i]@),
{
    assert(is_tidy(BLACKLIST@[60]@)) by {
        reveal_strlit("services.exe");
    }
    assert(is_tidy(BLACKLIST@[61]@)) by {
        reveal_strlit("conhost.exe");
    }
    assert(is_tidy(BLACKLIST@[62]@)) by {
        reveal_strlit("plugplay.exe");
    }
    assert(is_tidy(BLACKLIST@[63]@)) by {
        reveal_strlit("wineboot.exe");
    }
    assert(is_tidy(BLACKLIST@[64]@)) by {
        reveal_strlit("steam.exe");
    }
    assert(is_tidy(BLACKLIST@[65]@)) by {
        reveal_strlit("steamservice.exe");
    }
    assert(is_tidy(BLACKLIST@[66]@)) by {
        reveal_strlit("steamerrorreporter.exe");
    }
    assert(is_tidy(BLACKLIST@[67]@)) by {
        reveal_strlit("rundll32.exe");
    }
    assert(is_tidy(BLACKLIST@[68]@)) by {
        reveal_strlit("gfexperience.exe");
    }
}

/// What the list names is never the game.
pub proof fn law_listed_names_are_no_games(i: int)
    requires
        0 <= i < BLACKLIST@.len(),
    ensures
        names_no_game(BLACKLIST@[i]@),
{
    lemma_tidy_names_1();
    lemma_tidy_names_2();
    lemma_tidy_names_3();
    lemma_tidy_names_4();
    lemma_tidy_names_5();
    lemma_tidy_names_6();
    lemma_tidy(BLACKLIST@[i]@);
}

proof fn lemma_trim_end_keeps(s: Seq<char>, n: int)
    requires
        0 < n <= s.len(),
        !is_white_space(s[n - 1]),
    ensures
        trim_end(s).len() >= n,
        trim_end(s).take(n) == s.take(n),
    decreases s.len(),
{
    if is_white_space(s.last()) {
        lemma_trim_end_keeps(s.drop_last(), n);
        assert(s.drop_last().take(n) =~= s.take(n));
    }
}

/// None of our own processes is ever taken for a game, whatever its full name.
pub proof fn law_own_processes_are_no_games(rest: Seq<char>)
    requires
        is_bare(rest),
    ensures
        names_no_game("moonclip"@ + rest),
{
    let own = "moonclip"@;
    let s = own + rest;
    reveal_strlit("moonclip");
    assert forall|k: int| 0 <= k < s.len() implies !is_separator(#[trigger] s[k]) by {
        if k >= 8 {
            assert(s[k] == rest[k - 8]);
        }
    }
    lemma_leaf_below(Seq::empty(), '/', s);
    assert(s[0] == 'm' && s[7] == 'p');
    assert(trim_start(s) == s);
    lemma_trim_end_keeps(s, 8);
    let t = trim(s);
    assert(s.take(8) =~= own);
    assert(is_ascii_chars(own));
    lemma_lower_start(t, 8);
    assert(ascii_lower(own) =~= own);
    assert(lowercase(t).subrange(0, 8) =~= lowercase(t).take(8));
}

// ---------------------------------------------------------------------------
// Wine
// ---------------------------------------------------------------------------
proof fn lemma_helper_names(i: int)
    requires
        0 <= i < WINE_HELPERS@.len(),
    ensures
        ".exe"@.is_suffix_of(WINE_HELPERS@[i]@),
        is_tidy(WINE_HELPERS@[i]@),
        is_no_game(WINE_HELPERS@[i]@),
{
    reveal_strlit(".exe");
    if i == 0 {
        let s = "winedevice.exe"@;
        reveal_strlit("winedevice.exe");
        assert(s.subrange(10, 14) =~= ".exe"@);
        assert(ascii_lower(s) =~= s);
        assert(lowercase(BLACKLIST@[58]@) == s);
    }
    if i == 1 {
        let s = "explorer.exe"@;
        reveal_strlit("explorer.exe");
        assert(s.subrange(8, 12) =~= ".exe"@);
        assert(ascii_lower(s) =~= s);
        assert(lowercase(BLACKLIST@[59]@) == s);
    }
    if i == 2 {
        let s = "services.exe"@;
        reveal_strlit("services.exe");
        assert(s.subrange(8, 12) =~= ".exe"@);
        assert(ascii_lower(s) =~= s);
        assert(lowercase(BLACKLIST@[60]@) == s);
    }
    if i == 3 {
        let s = "conhost.exe"@;
        reveal_strlit("conhost.exe");
        assert(s.subrange(7, 11) =~= ".exe"@);
        assert(ascii_lower(s) =~= s);
        assert(lowercase(BLACKLIST@[61]@) == s);
    }
    if i == 4 {
        let s = "plugplay.exe"@;
        reveal_strlit("plugplay.exe");
        assert(s.subrange(8, 12) =~= ".exe"@);
        assert(ascii_lower(s) =~= s);
        assert(lowercase(BLACKLIST@[62]@) == s);
    }
    if i == 5 {
        let s = "wineboot.exe"@;
        reveal_strlit("wineboot.exe");
        assert(s.subrange(8, 12) =~= ".exe"@);
        assert(ascii_lower(s) =~= s);
        assert(lowercase(BLACKLIST@[63]@) == s);
    }
    if i == 6 {
        let s = "steam.exe"@;
        reveal_strlit("steam.exe");
        assert(s.subrange(5, 9) =~= ".exe"@);
        assert(ascii_lower(s) =~= s);
        assert(lowercase(BLACKLIST@[64]@) == s);
    }
    if i == 7 {
        let s = "steamservice.exe"@;
        reveal_strlit("steamservice.exe");
        assert(s.subrange(12, 16) =~= ".exe"@);
        assert(ascii_lower(s) =~= s);
        assert(lowercase(BLACKLIST@[65]@) == s);
    }
    if i == 8 {
        let s = "steamerrorreporter.exe"@;
        reveal_strlit("steamerrorreporter.exe");
        assert(s.subrange(18, 22) =~= ".exe"@);
        assert(ascii_lower(s) =~= s);
        assert(lowercase(BLACKLIST@[66]@) == s);
    }
    if i == 9 {
        let s = "rundll32.exe"@;
        reveal_strlit("rundll32.exe");
        assert(s.subrange(8, 12) =~= ".exe"@);
        assert(ascii_lower(s) =~= s);
        assert(lowercase(BLACKLIST@[67]@) == s);
    }
}

/// A program that Wine itself runs is never the game, and is a Windows program
/// by its name.
pub proof fn law_wine_helpers_are_no_games(exe: Seq<char>)
    requires
        names_helper(exe),
    ensures
        names_no_game(exe),
        ".exe"@.is_suffix_of(lowercase(exe)),
{
    let name = leaf_name(exe);
    let low = lowercase(name);
    let i = choose|i: int| 0 <= i < strs(WINE_HELPERS@).len() && strs(WINE_HELPERS@)[i] == low;
    lemma_helper_names(i);
    lemma_trimmed_by_lower(name);
    lemma_leaf_is_suffix(exe);
    let from = exe.len() - name.len();
    if from > 0 {
        let dir = exe.take(from - 1);
        let sep = exe[from - 1];
        assert(exe =~= dir.push(sep) + name);
        lemma_lower_parts(dir, sep, name);
        let whole = lowercase(exe);
        reveal_strlit(".exe");
        assert(whole.subrange(whole.len() - 4, whole.len() as int) =~= low.subrange(
            low.len() - 4,
            low.len() as int,
        ));
    } else {
        assert(exe.skip(0) =~= exe);
    }
}

/// White space stays in lower case: a text whose lower case has none at its
/// ends has none itself.
proof fn lemma_trimmed_by_lower(s: Seq<char>)
    requires
        is_tidy(lowercase(s)),
    ensures
        trim(s) == s,
{
    let low = lowercase(s);
    let none = Seq::<char>::empty();
    if s.len() > 0 {
        if is_white_space(s[0]) {
            let rest = s.skip(1);
            assert(s =~= none.push(s[0]) + rest);
            lemma_lower_parts(none, s[0], rest);
            assert(lowercase(none) =~= none);
            assert(low[0] == s[0]);
        }
        let n = s.len() - 1;
        if is_white_space(s[n]) {
            let init = s.take(n);
            assert(s =~= init.push(s[n]) + none);
            lemma_lower_parts(init, s[n], none);
            assert(lowercase(none) =~= none);
            assert(low[low.len() - 1] == s[n]);
        }
    }
}

proof fn lemma_leaf_is_suffix(s: Seq<char>)
    ensures
        leaf_name(s).len() <= s.len(),
        leaf_name(s) == s.skip(s.len() - leaf_name(s).len()),
        leaf_name(s).len() < s.len() ==> is_separator(s[s.len() - leaf_name(s).len() - 1]),
    decreases s.len(),
{
    if s.len() == 0 || is_separator(s.last()) {
        assert(s.skip(s.len() as int) =~= Seq::<char>::empty());
    } else {
        let init = s.drop_last();
        lemma_leaf_is_suffix(init);
        let k = init.len() - leaf_name(init).len();
        assert(s.skip(k) =~= init.skip(k).push(s.last()));
    }
}

// ---------------------------------------------------------------------------
// The names themselves
// ---------------------------------------------------------------------------
/// Programs that run beside games and are none: this one, desktops, launchers,
/// browsers, chats, editors, recorders and the helpers of Wine.
pub open spec fn programs_beside_games() -> Seq<Seq<char>> {
    seq![
        "moonclip-engine"@, "moonclip-mux"@, "moonclip-nvenc-test"@, "moonclip"@, "obs"@,
        "obs-ffmpeg-mux"@, "kwin_wayland"@, "kwin_x11"@, "gnome-shell"@, "mutter"@, "Xwayland"@,
        "Xorg"@, "plasmashell"@, "plasma-keyboard"@, "kded"@, "kded6"@, "kglobalacceld"@,
        "ksmserver"@, "kaccess"@, "systemsettings"@, "xdg-desktop-portal"@,
        "xdg-desktop-portal-kde"@, "xdg-desktop-portal-gtk"@, "xdg-desktop-portal-gnome"@,
        "steam"@, "gamescope"@, "mangohud"@, "gameoverlayui"@, "prismlauncher"@, "heroic"@,
        "lutris"@, "bottles"@, "firefox"@, "firefox-bin"@, "chrome"@, "chromium"@,
        "chromium-browser"@, "google-chrome"@, "brave"@, "brave-browser"@, "vivaldi"@, "opera"@,
        "electron"@, "discord"@, "vesktop"@, "code"@, "code-oss"@, "codium"@, "steamwebhelper"@,
        "WebKitWebProcess"@, "WebKitNetworkProcess"@, "qtwebengineprocess"@, "ffmpeg"@,
        "ffplay"@, "gpu-screen-recorder"@, "kdenlive"@, "obs-ffmpeg-mux"@, "wineserver"@,
        "winedevice.exe"@, "explorer.exe"@, "services.exe"@, "conhost.exe"@, "plugplay.exe"@,
        "wineboot.exe"@, "steam.exe"@, "steamservice.exe"@, "steamerrorreporter.exe"@,
        "rundll32.exe"@, "gfexperience.exe"@,
    ]
}

/// None of these is taken for a game, from whatever directory it runs.
pub proof fn law_programs_beside_games_are_no_games(i: int, dir: Seq<char>)
    requires
        0 <= i < programs_beside_games().len(),
    ensures
        names_no_game(programs_beside_games()[i]),
        is_bare(programs_beside_games()[i]) ==> names_no_game(
            dir + "/"@ + programs_beside_games()[i],
        ),
{
    let t = strs(BLACKLIST@);
    let names = programs_beside_games();
    assert(t.len() == 69 && names.len() == 69);
    assert(t[0] == "moonclip-engine"@);
    assert(t[1] == "moonclip-mux"@);
    assert(t[2] == "moonclip-nvenc-test"@);
    assert(t[3] == "moonclip"@);
    assert(t[4] == "obs"@);
    assert(t[5] == "obs-ffmpeg-mux"@);
    assert(t[6] == "kwin_wayland"@);
    assert(t[7] == "kwin_x11"@);
    assert(t[8] == "gnome-shell"@);
    assert(t[9] == "mutter"@);
    assert(t[10] == "Xwayland"@);
    assert(t[11] == "Xorg"@);
    assert(t[12] == "plasmashell"@);
    assert(t[13] == "plasma-keyboard"@);
    assert(t[14] == "kded"@);
    assert(t[15] == "kded6"@);
    assert(t[16] == "kglobalacceld"@);
    assert(t[17] == "ksmserver"@);
    assert(t[18] == "kaccess"@);
    assert(t[19] == "systemsettings"@);
    assert(t[20] == "xdg-desktop-portal"@);
    assert(t[21] == "xdg-desktop-portal-kde"@);
    assert(t[22] == "xdg-desktop-portal-gtk"@);
    assert(t[23] == "xdg-desktop-portal-gnome"@);
    assert(t[24] == "steam"@);
    assert(t[25] == "gamescope"@);
    assert(t[26] == "mangohud"@);
    assert(t[27] == "gameoverlayui"@);
    assert(t[28] == "prismlauncher"@);
    assert(t[29] == "heroic"@);
    assert(t[30] == "lutris"@);
    assert(t[31] == "bottles"@);
    assert(t[32] == "firefox"@);
    assert(t[33] == "firefox-bin"@);
    assert(t[34] == "chrome"@);
    assert(t[35] == "chromium"@);
    assert(t[36] == "chromium-browser"@);
    assert(t[37] == "google-chrome"@);
    assert(t[38] == "brave"@);
    assert(t[39] == "brave-browser"@);
    assert(t[40] == "vivaldi"@);
    assert(t[41] == "opera"@);
    assert(t[42] == "electron"@);
    assert(t[43] == "discord"@);
    assert(t[44] == "vesktop"@);
    assert(t[45] == "code"@);
    assert(t[46] == "code-oss"@);
    assert(t[47] == "codium"@);
    assert(t[48] == "steamwebhelper"@);
    assert(t[49] == "WebKitWebProcess"@);
    assert(t[50] == "WebKitNetworkProcess"@);
    assert(t[51] == "qtwebengineprocess"@);
    assert(t[52] == "ffmpeg"@);
    assert(t[53] == "ffplay"@);
    assert(t[54] == "gpu-screen-recorder"@);
    assert(t[55] == "kdenlive"@);
    assert(t[56] == "obs-ffmpeg-mux"@);
    assert(t[57] == "wineserver"@);
    assert(t[58] == "winedevice.exe"@);
    assert(t[59] == "explorer.exe"@);
    assert(t[60] == "services.exe"@);
    assert(t[61] == "conhost.exe"@);
    assert(t[62] == "plugplay.exe"@);
    assert(t[63] == "wineboot.exe"@);
    assert(t[64] == "steam.exe"@);
    assert(t[65] == "steamservice.exe"@);
    assert(t[66] == "steamerrorreporter.exe"@);
    assert(t[67] == "rundll32.exe"@);
    assert(t[68] == "gfexperience.exe"@);
    assert(t =~= names);
    assert(t[i] == BLACKLIST@[i]@);
    law_listed_names_are_no_games(i);
    if is_bare(names[i]) {
        law_directories_do_not_count(dir, names[i]);
    }
}

/// The programs that Wine itself runs.
pub open spec fn programs_of_wine() -> Seq<Seq<char>> {
    seq![
        "winedevice.exe"@, "explorer.exe"@, "services.exe"@, "conhost.exe"@, "plugplay.exe"@,
        "wineboot.exe"@, "steam.exe"@, "steamservice.exe"@, "steamerrorreporter.exe"@,
        "rundll32.exe"@,
    ]
}

/// A program is a helper of Wine exactly where its name, in lower case, is one
/// of those.
pub proof fn law_helpers_of_wine(exe: Seq<char>)
    ensures
        names_helper(exe) <==> programs_of_wine().contains(lowercase(leaf_name(exe))),
{
    let h = strs(WINE_HELPERS@);
    assert(h.len() == 10);
    assert(h[0] == "winedevice.exe"@);
    assert(h[1] == "explorer.exe"@);
    assert(h[2] == "services.exe"@);
    assert(h[3] == "conhost.exe"@);
    assert(h[4] == "plugplay.exe"@);
    assert(h[5] == "wineboot.exe"@);
    assert(h[6] == "steam.exe"@);
    assert(h[7] == "steamservice.exe"@);
    assert(h[8] == "steamerrorreporter.exe"@);
    assert(h[9] == "rundll32.exe"@);
    assert(h =~= programs_of_wine());
}

} // verus!
