//! What is read of the files and environments of launchers, line by line.

use vstd::prelude::*;
use vstd::utf8::{encode_utf8, encode_utf8_decode_utf8, encode_utf8_valid_utf8};

use crate::detect::parsers::{
    acf_line, acf_lines, capital_words, environment_app, first_white, game_dir, has_path,
    heroic_game, heroic_listed, instance_line, instance_name, is_manifest, is_wine_process,
    library_line, library_lines, line_pair, parts_app, program_title, scope_app, spaced, unescaped,
    unquote_end, unquote_start, unquoted, variable_app, AcfModel,
};
use crate::detect::types::{
    before_last_dot, capitalized, is_separator, leaf_name, lemma_leaf, title_of_name,
};
use crate::json::JsonModel;
use crate::linux::scan::with_heroic;
use crate::paths::{base_name, path_key};
use crate::text::{
    ascii_upper_char, contains, decimal, is_digit, is_white_space, lemma_decimal_digits,
    lemma_parse_decimal, lemma_trim_clean, lemma_trim_decimal, lowercase, split, trim_end, words,
};
use crate::text_laws::{
    is_blank, is_solid, lacks, law_first_piece, law_first_word, law_last_place, lemma_trim_around,
};

verus! {

broadcast use vstd::string::group_string_axioms;

// ---------------------------------------------------------------------------
// Lines of Steam
// ---------------------------------------------------------------------------
/// A text between quotes.
pub open spec fn quoted(s: Seq<char>) -> Seq<char> {
    seq!['"'] + s + seq!['"']
}

/// A line of Steam's files: a key and a value between quotes, with white space
/// before, between and behind them.
pub open spec fn steam_line(
    indent: Seq<char>,
    key: Seq<char>,
    gap: Seq<char>,
    value: Seq<char>,
    end: Seq<char>,
) -> Seq<char> {
    indent + (quoted(key) + gap + quoted(value)) + end
}

/// The parts of such a line are what they are called.
pub open spec fn is_steam_line(
    indent: Seq<char>,
    key: Seq<char>,
    gap: Seq<char>,
    value: Seq<char>,
    end: Seq<char>,
) -> bool {
    &&& is_blank(indent) && is_blank(gap) && is_blank(end)
    &&& gap.len() > 0
    &&& is_solid(key) && lacks(key, '"')
    &&& lacks(value, '"')
}

proof fn lemma_unquoted(s: Seq<char>)
    requires
        lacks(s, '"'),
    ensures
        unquoted(quoted(s)) == s,
{
    let q = quoted(s);
    let rest = s + seq!['"'];
    assert(q.drop_first() =~= rest);
    assert(unquote_start(q) == unquote_start(rest));
    if s.len() > 0 {
        assert(rest[0] == s[0]);
        assert(unquote_start(rest) == rest);
        assert(rest.last() == '"');
        assert(rest.drop_last() =~= s);
        assert(s[s.len() - 1] != '"');
        assert(unquote_end(rest) == unquote_end(s));
        assert(unquote_end(s) == s);
    } else {
        let none = Seq::<char>::empty();
        assert(rest.drop_first() =~= none);
        assert(unquote_start(rest) == unquote_start(none));
        assert(unquote_start(none) == none);
        assert(unquote_end(none) == none);
        assert(s =~= none);
    }
}

proof fn lemma_first_white(a: Seq<char>, c: char, b: Seq<char>)
    requires
        is_solid(a),
        is_white_space(c),
    ensures
        first_white(a + seq![c] + b) == Some(a.len() as int),
    decreases a.len(),
{
    let s = a + seq![c] + b;
    if a.len() == 0 {
        assert(s[0] == c);
    } else {
        let rest = a.drop_first();
        assert forall|k: int| 0 <= k < rest.len() implies !is_white_space(#[trigger] rest[k]) by {
            assert(rest[k] == a[k + 1]);
        }
        lemma_first_white(rest, c, b);
        assert(s[0] == a[0]);
        assert(s.drop_first() =~= rest + seq![c] + b);
    }
}

proof fn lemma_steam_line(
    indent: Seq<char>,
    key: Seq<char>,
    gap: Seq<char>,
    value: Seq<char>,
    end: Seq<char>,
)
    requires
        is_steam_line(indent, key, gap, value, end),
    ensures
        line_pair(steam_line(indent, key, gap, value, end)) == Some((quoted(key), quoted(value))),
{
    let k = quoted(key);
    let v = quoted(value);
    let t = k + gap + v;
    assert(k[0] == '"' && k.last() == '"' && v[0] == '"' && v.last() == '"');
    assert(t[0] == '"' && t.last() == '"');
    lemma_trim_around(indent, t, end);
    assert forall|i: int| 0 <= i < k.len() implies !is_white_space(#[trigger] k[i]) by {
        if 0 < i < k.len() - 1 {
            assert(k[i] == key[i - 1]);
        }
    }
    let rest = gap.drop_first() + v;
    assert(is_white_space(gap[0]));
    assert(t =~= k + seq![gap[0]] + rest);
    lemma_first_white(k, gap[0], rest);
    let n = k.len() as int;
    assert(t.take(n) =~= k);
    assert(t.skip(n + 1) =~= rest);
    lemma_trim_clean(k);
    let left = gap.drop_first();
    assert forall|i: int| 0 <= i < left.len() implies is_white_space(#[trigger] left[i]) by {
        assert(left[i] == gap[i + 1]);
    }
    lemma_trim_around(left, v, Seq::empty());
    assert(left + v + Seq::<char>::empty() =~= rest);
}

/// A line of a manifest gives the number of the app or the name of the game, and
/// no other line gives either.
pub proof fn law_manifest_lines(
    a: AcfModel,
    indent: Seq<char>,
    key: Seq<char>,
    gap: Seq<char>,
    value: Seq<char>,
    end: Seq<char>,
    n: nat,
)
    requires
        is_steam_line(indent, key, gap, value, end),
        n <= 0xffff_ffff,
    ensures
        ({
            let b = acf_line(a, steam_line(indent, key, gap, value, end));
            &&& key == "appid"@ && value == decimal(n) ==> b.appid == Some(n) && b.name == a.name
            &&& key == "name"@ && value.len() > 0 ==> b.name == Some(value) && b.appid == a.appid
            &&& key != "appid"@ && key != "name"@ ==> b == a
        }),
{
    lemma_steam_line(indent, key, gap, value, end);
    lemma_unquoted(key);
    lemma_unquoted(value);
    lemma_parse_decimal(n, u32::MAX as nat);
    reveal_strlit("appid");
    reveal_strlit("name");
    assert("appid"@.len() == 5 && "name"@.len() == 4);
}

/// A line of the list of libraries gives the folder of one where its key says
/// so, and no other line does.
pub proof fn law_library_lines(
    indent: Seq<char>,
    key: Seq<char>,
    gap: Seq<char>,
    value: Seq<char>,
    end: Seq<char>,
)
    requires
        is_steam_line(indent, key, gap, value, end),
    ensures
        key == "path"@ ==> library_line(steam_line(indent, key, gap, value, end)) == Some(
            unescaped(value),
        ),
        key != "path"@ ==> library_line(steam_line(indent, key, gap, value, end)) is None,
{
    lemma_steam_line(indent, key, gap, value, end);
    lemma_unquoted(key);
    lemma_unquoted(value);
}

/// Two backslashes stand for one, and everything else for itself.
pub proof fn law_backslashes(a: Seq<char>, b: Seq<char>)
    requires
        lacks(a, '\\'),
    ensures
        unescaped(a) == a,
        unescaped(a + seq!['\\', '\\'] + b) == a + seq!['\\'] + unescaped(b),
    decreases a.len(),
{
    let s = a + seq!['\\', '\\'] + b;
    if a.len() == 0 {
        assert(a =~= Seq::<char>::empty());
        assert(s[0] == '\\' && s[1] == '\\');
        assert(s.skip(2) =~= b);
        assert(unescaped(s) =~= a + seq!['\\'] + unescaped(b));
    } else {
        let rest = a.drop_first();
        assert forall|i: int| 0 <= i < rest.len() implies #[trigger] rest[i] != '\\' by {
            assert(rest[i] == a[i + 1]);
        }
        law_backslashes(rest, b);
        assert(a[0] != '\\');
        assert(a.skip(1) =~= rest);
        assert(unescaped(a) == seq![a[0]] + unescaped(rest));
        assert(unescaped(a) =~= a);
        assert(s[0] == a[0]);
        assert(s.skip(1) =~= rest + seq!['\\', '\\'] + b);
        assert(unescaped(s) =~= a + seq!['\\'] + unescaped(b));
    }
}

/// A manifest is a file that is named after a number.
pub proof fn law_manifests_are_numbered(n: nat)
    ensures
        is_manifest("appmanifest_"@ + decimal(n) + ".acf"@) <==> n <= 0xffff_ffff,
{
    reveal_strlit("appmanifest_");
    reveal_strlit(".acf");
    let d = decimal(n);
    let name = "appmanifest_"@ + d + ".acf"@;
    let rest = d + ".acf"@;
    assert("appmanifest_"@.is_prefix_of(name));
    assert(name.skip(12) =~= rest);
    assert(".acf"@.is_suffix_of(rest));
    assert(rest.take(rest.len() - 4) =~= d);
    lemma_decimal_digits(n);
    assert(is_digit(d[0]));
    if n <= 0xffff_ffff {
        lemma_parse_decimal(n, u32::MAX as nat);
    }
}

/// The variable of Steam's app gives its number, also where white space stands
/// behind it; the first variable that gives one counts.
pub proof fn law_app_of_the_environment(n: nat, rest: Seq<Seq<u8>>)
    requires
        n <= 0xffff_ffff,
    ensures
        ({
            let var = encode_utf8("SteamAppId="@) + encode_utf8(decimal(n));
            &&& variable_app(var) == Some(n)
            &&& environment_app(seq![var] + rest) == Some(n)
        }),
{
    let prefix = encode_utf8("SteamAppId="@);
    let text = encode_utf8(decimal(n));
    let var = prefix + text;
    assert(prefix.is_prefix_of(var));
    assert(var.skip(prefix.len() as int) =~= text);
    encode_utf8_valid_utf8(decimal(n));
    encode_utf8_decode_utf8(decimal(n));
    lemma_trim_decimal(n);
    lemma_parse_decimal(n, u32::MAX as nat);
    assert((seq![var] + rest)[0] == var);
}

/// A variable that gives no app is passed over.
pub proof fn law_other_variables_give_no_app(var: Seq<u8>, rest: Seq<Seq<u8>>)
    ensures
        !encode_utf8("SteamAppId="@).is_prefix_of(var) ==> variable_app(var) is None
            && environment_app(seq![var] + rest) == environment_app(rest),
{
    assert((seq![var] + rest).drop_first() =~= rest);
    assert((seq![var] + rest)[0] == var);
}

// ---------------------------------------------------------------------------
// Minecraft and Heroic
// ---------------------------------------------------------------------------
/// The name of an instance is what follows its key, trimmed, where it is not blank.
pub proof fn law_instance_lines(indent: Seq<char>, value: Seq<char>, end: Seq<char>)
    requires
        is_blank(indent),
        is_blank(end),
        value.len() > 0,
        !is_white_space(value[0]),
        !is_white_space(value.last()),
    ensures
        instance_line(indent + ("name="@ + value) + end) == Some(value),
{
    reveal_strlit("name=");
    let t = "name="@ + value;
    assert(t[0] == 'n' && t.last() == value.last());
    lemma_trim_around(indent, t, end);
    assert("name="@.is_prefix_of(t));
    assert(t.skip(5) =~= value);
    lemma_trim_clean(value);
}

/// An argument that gives the folder of the game.
pub open spec fn gives_folder(arg: Seq<char>) -> bool {
    arg == "--gameDir"@ || "--gameDir="@.is_prefix_of(arg)
}

/// The instance is named by the last part of the folder that is given, whether
/// it follows its option or stands behind an equals sign; the first counts.
pub proof fn law_instance_of_the_arguments(args: Seq<Seq<char>>, i: int, dir: Seq<char>)
    requires
        0 <= i < args.len(),
        forall|j: int| 0 <= j < i ==> !gives_folder(#[trigger] args[j]),
    ensures
        args[i] == "--gameDir"@ && i + 1 < args.len() && args[i + 1] == dir ==> game_dir(args)
            == Some(base_name(dir)),
        args[i] == "--gameDir="@ + dir ==> game_dir(args) == Some(base_name(dir)),
    decreases args.len(),
{
    reveal_strlit("--gameDir");
    reveal_strlit("--gameDir=");
    if i > 0 {
        let rest = args.drop_first();
        assert(!gives_folder(args[0]));
        assert forall|j: int| 0 <= j < i - 1 implies !gives_folder(#[trigger] rest[j]) by {
            assert(rest[j] == args[j + 1]);
        }
        law_instance_of_the_arguments(rest, i - 1, dir);
        assert(rest[i - 1] == args[i]);
        if i + 1 < args.len() {
            assert(rest[i] == args[i + 1]);
        }
    } else if args[0] == "--gameDir="@ + dir {
        assert(args[0].len() >= 10 && "--gameDir"@.len() == 9);
        assert("--gameDir="@.is_prefix_of(args[0]));
        assert(args[0].skip(10) =~= dir);
    }
}

/// A game of Heroic has the title and the program of its entry, and none without
/// a title is one.
pub proof fn law_heroic_entries(entry: JsonModel, title: Seq<char>)
    ensures
        entry.get("title"@) == Some(JsonModel::Str(title)) && title.len() > 0 ==> {
            &&& heroic_game(entry) matches Some((t, exe)) && t == title && match entry.get(
                "executable"@,
            ) {
                Some(JsonModel::Str(e)) => exe == Some(e),
                _ => exe is None,
            }
        },
        entry.get("title"@) is None ==> heroic_game(entry) is None,
        entry.get("title"@) == Some(JsonModel::Str(Seq::empty())) ==> heroic_game(entry) is None,
{
}

/// The app of a scope is named between its prefix and the next hyphen.
pub proof fn law_app_of_a_scope(id: Seq<char>, rest: Seq<char>)
    requires
        lacks(id, '-'),
        id.contains('.'),
    ensures
        scope_app("app-flatpak-"@ + id + "-"@ + rest) == Some(id),
        scope_app("app-"@ + id + "-"@ + rest) == Some(id),
{
    reveal_strlit("app-flatpak-");
    reveal_strlit("app-");
    reveal_strlit("-");
    assert("-"@ =~= seq!['-']);
    let tail = id + "-"@ + rest;
    law_first_piece(id, '-', rest);
    assert(split(tail, '-')[0] == id);
    let a = "app-flatpak-"@ + id + "-"@ + rest;
    assert("app-flatpak-"@.is_prefix_of(a));
    assert(a.skip(12) =~= tail);
    let b = "app-"@ + id + "-"@ + rest;
    assert("app-"@.is_prefix_of(b));
    assert(b.skip(4) =~= tail);
    if "app-flatpak-"@.is_prefix_of(b) {
        let f = "app-flatpak-"@;
        assert forall|k: int| 0 <= k < 12 implies #[trigger] f[k] == b[k] by {}
        assert(f[11] == '-' && f[10] == 'k' && f[9] == 'a' && f[8] == 'p' && f[7] == 't' && f[6] == 'a'
            && f[5] == 'l' && f[4] == 'f');
        if id.len() > 7 {
            assert(b[11] == id[7]);
        } else if id.len() < 7 {
            let n = id.len() as int;
            assert(b[4 + n] == '-');
            assert(f[4 + n] == '-');
        }
        let k = choose|k: int| 0 <= k < id.len() && id[k] == '.';
        assert(b[4 + k] == id[k]);
        assert(f[4 + k] == b[4 + k]);
    }
}

// ---------------------------------------------------------------------------
// Names
// ---------------------------------------------------------------------------
/// A process runs below Wine where its binary is one of Wine or of its container
/// or a Windows program, or where its first argument is one.
pub proof fn law_processes_below_wine(exe: Seq<char>, cmdline: Seq<Seq<char>>)
    ensures
        ({
            let name = lowercase(leaf_name(exe));
            is_wine_process(exe, cmdline) <==> "wine"@.is_prefix_of(name) || contains(
                name,
                "pressure-vessel"@,
            ) || ".exe"@.is_suffix_of(name) || (cmdline.len() > 0 && ".exe"@.is_suffix_of(
                lowercase(cmdline[0]),
            ))
        }),
{
}

/// A word of ASCII without what parts words or names.
pub open spec fn is_plain_word(w: Seq<char>) -> bool {
    w.len() > 0 && forall|k: int|
        0 <= k < w.len() ==> {
            &&& '!' <= #[trigger] w[k] <= '~'
            &&& w[k] != '_' && w[k] != '-' && w[k] != '.' && w[k] != '/' && w[k] != '\\'
        }
}

/// A word with its first letter in upper case.
pub open spec fn with_capital(w: Seq<char>) -> Seq<char> {
    seq![ascii_upper_char(w[0])] + w.skip(1)
}

proof fn lemma_plain_word(w: Seq<char>)
    requires
        is_plain_word(w),
    ensures
        is_solid(w),
        capitalized(w) == with_capital(w),
        with_capital(w).len() == w.len(),
        !is_white_space(with_capital(w).last()),
        spaced(w) == w,
{
    assert('!' <= w[0] <= '~');
    assert forall|k: int| 0 <= k < w.len() implies !is_white_space(#[trigger] w[k]) by {
        assert('!' <= w[k] <= '~');
    }
    let c = with_capital(w);
    if w.len() > 1 {
        assert(c.last() == w[w.len() - 1]);
    } else {
        assert(c.last() == ascii_upper_char(w[0]));
    }
    assert forall|k: int| 0 <= k < w.len() implies #[trigger] spaced(w)[k] == w[k] by {
        assert(w[k] != '_' && w[k] != '-');
    }
    assert(spaced(w) =~= w);
}

/// The title of a program is its name without directory and extension, with
/// spaces for what joins its words and capitals at their starts.
pub proof fn law_title_of_a_program(dir: Seq<char>, a: Seq<char>, b: Seq<char>)
    requires
        is_plain_word(a),
        is_plain_word(b),
    ensures
        program_title(dir + "\\"@ + a + ".exe"@) == with_capital(a),
        program_title(dir + "/"@ + a + "_"@ + b + ".exe"@) == with_capital(a) + " "@ + with_capital(
            b,
        ),
{
    reveal_strlit("\\");
    reveal_strlit("/");
    reveal_strlit("_");
    reveal_strlit(" ");
    reveal_strlit(".exe");
    lemma_plain_word(a);
    lemma_plain_word(b);
    let none = Seq::<Seq<char>>::empty();
    assert(capital_words(none) =~= Seq::<char>::empty());
    // One word.
    let s = dir + "\\"@ + a + ".exe"@;
    lemma_program_stem(dir, '\\', a);
    assert(s =~= dir + seq!['\\'] + a + ".exe"@);
    law_first_word(a, ' ', Seq::empty());
    let one = seq![a];
    assert(one.drop_last() =~= none);
    assert(capital_words(one) =~= with_capital(a).push(' '));
    assert(with_capital(a).push(' ').drop_last() =~= with_capital(a));
    assert(trim_end(with_capital(a).push(' ')) == trim_end(with_capital(a)));
    assert(trim_end(with_capital(a)) == with_capital(a));
    // Two words.
    let both = a + "_"@ + b;
    let t = dir + "/"@ + a + "_"@ + b + ".exe"@;
    assert(t =~= dir + seq!['/'] + both + ".exe"@);
    assert forall|k: int| 0 <= k < both.len() implies #[trigger] both[k] != '.' && both[k] != '/'
        && both[k] != '\\' by {
        if k < a.len() {
            assert(both[k] == a[k]);
        } else if k > a.len() {
            assert(both[k] == b[k - a.len() - 1]);
        }
    }
    lemma_stem(dir, '/', both);
    assert(spaced(both) =~= a + seq![' '] + b) by {
        assert forall|k: int| 0 <= k < both.len() implies #[trigger] spaced(both)[k] == (a
            + seq![' '] + b)[k] by {
            if k < a.len() {
                assert(both[k] == a[k]);
                assert(spaced(a)[k] == a[k]);
            } else if k > a.len() {
                assert(both[k] == b[k - a.len() - 1]);
                assert(spaced(b)[k - a.len() - 1] == b[k - a.len() - 1]);
            }
        }
    }
    law_first_word(a, ' ', b);
    law_first_word(b, ' ', Seq::empty());
    let two = seq![a] + seq![b];
    assert(two.drop_last() =~= one);
    assert(two.last() == b);
    let whole = with_capital(a) + " "@ + with_capital(b);
    assert(capital_words(two) =~= whole.push(' '));
    assert(whole.push(' ').drop_last() =~= whole);
    assert(whole.last() == with_capital(b).last());
    assert(trim_end(whole.push(' ')) == trim_end(whole));
    assert(trim_end(whole) == whole);
}

proof fn lemma_program_stem(dir: Seq<char>, sep: char, a: Seq<char>)
    requires
        is_plain_word(a),
        is_separator(sep),
    ensures
        before_last_dot(leaf_name(dir + seq![sep] + a + ".exe"@)) == a,
{
    assert forall|k: int| 0 <= k < a.len() implies #[trigger] a[k] != '.' && a[k] != '/' && a[k]
        != '\\' by {
        assert('!' <= a[k] <= '~');
    }
    lemma_stem(dir, sep, a);
}

proof fn lemma_stem(dir: Seq<char>, sep: char, stem: Seq<char>)
    requires
        is_separator(sep),
        forall|k: int|
            0 <= k < stem.len() ==> #[trigger] stem[k] != '.' && stem[k] != '/' && stem[k] != '\\',
    ensures
        before_last_dot(leaf_name(dir + seq![sep] + stem + ".exe"@)) == stem,
{
    reveal_strlit(".exe");
    let s = dir + seq![sep] + stem + ".exe"@;
    let n = dir.len() as int + 1;
    assert(s[n - 1] == sep);
    assert forall|k: int| n <= k < s.len() implies !is_separator(#[trigger] s[k]) by {
        if k < n + stem.len() {
            assert(s[k] == stem[k - n]);
        } else {
            assert(s[k] == ".exe"@[k - n - stem.len()]);
        }
    }
    lemma_leaf(s, n);
    let name = s.skip(n);
    let ext = seq!['e', 'x', 'e'];
    assert(name =~= stem + seq!['.'] + ext);
    law_last_place(stem, '.', ext);
    assert(name.take(stem.len() as int) =~= stem);
}

/// The title of a process that nobody knows is its name without extension, with
/// a capital; without a name it is unknown.
pub proof fn law_title_of_a_name(stem: Seq<char>, extension: Seq<char>)
    requires
        is_plain_word(stem),
        lacks(extension, '.'),
    ensures
        title_of_name(stem + "."@ + extension) == with_capital(stem),
        title_of_name("."@ + extension) == "Unknown"@,
{
    reveal_strlit(".");
    assert("."@ =~= seq!['.']);
    lemma_plain_word(stem);
    law_last_place(stem, '.', extension);
    assert((stem + "."@ + extension).take(stem.len() as int) =~= stem);
    let none = Seq::<char>::empty();
    law_last_place(none, '.', extension);
    assert(none + seq!['.'] + extension =~= "."@ + extension);
    assert(("."@ + extension).take(0) =~= none);
}

// ---------------------------------------------------------------------------
// Files as a whole
// ---------------------------------------------------------------------------
/// A manifest that gives both gives the number and the name, whatever stands
/// before them.
pub proof fn law_manifest_gives_number_and_name(
    before: Seq<Seq<char>>,
    indent: Seq<char>,
    gap: Seq<char>,
    name: Seq<char>,
    end: Seq<char>,
    n: nat,
)
    requires
        is_blank(indent),
        is_blank(gap),
        is_blank(end),
        gap.len() > 0,
        lacks(name, '"'),
        name.len() > 0,
        n <= 0xffff_ffff,
    ensures
        ({
            let id = steam_line(indent, "appid"@, gap, decimal(n), end);
            let title = steam_line(indent, "name"@, gap, name, end);
            let a = acf_lines(before.push(id).push(title));
            let b = acf_lines(before.push(title).push(id));
            &&& a.appid == Some(n) && a.name == Some(name)
            &&& b.appid == Some(n) && b.name == Some(name)
        }),
{
    reveal_strlit("appid");
    reveal_strlit("name");
    let k = "appid"@;
    let l = "name"@;
    assert(k[0] == 'a' && k[1] == 'p' && k[2] == 'p' && k[3] == 'i' && k[4] == 'd');
    assert(l[0] == 'n' && l[1] == 'a' && l[2] == 'm' && l[3] == 'e');
    assert(is_solid(k) && lacks(k, '"') && is_solid(l) && lacks(l, '"'));
    lemma_decimal_digits(n);
    assert forall|i: int| 0 <= i < decimal(n).len() implies #[trigger] decimal(n)[i] != '"' by {
        assert(is_digit(decimal(n)[i]));
    }
    let id = steam_line(indent, k, gap, decimal(n), end);
    let title = steam_line(indent, l, gap, name, end);
    let x = before.push(id);
    let y = before.push(title);
    assert(x.drop_last() =~= before && y.drop_last() =~= before);
    assert(x.push(title).drop_last() =~= x && y.push(id).drop_last() =~= y);
    law_manifest_lines(acf_lines(before), indent, k, gap, decimal(n), end, n);
    law_manifest_lines(acf_lines(x), indent, l, gap, name, end, n);
    law_manifest_lines(acf_lines(before), indent, l, gap, name, end, n);
    law_manifest_lines(acf_lines(y), indent, k, gap, decimal(n), end, n);
}

/// The first line that names an instance names it.
pub proof fn law_first_name_of_an_instance(all: Seq<Seq<char>>)
    ensures
        match instance_name(all) {
            Some(n) => exists|i: int|
                0 <= i < all.len() && instance_line(#[trigger] all[i]) == Some(n) && forall|j: int|
                    0 <= j < i ==> instance_line(#[trigger] all[j]) is None,
            None => forall|j: int| 0 <= j < all.len() ==> instance_line(#[trigger] all[j]) is None,
        },
    decreases all.len(),
{
    if all.len() > 0 {
        let rest = all.drop_first();
        law_first_name_of_an_instance(rest);
        if instance_line(all[0]) is Some {
            assert(instance_line(all[0]) == instance_name(all));
        } else {
            match instance_name(rest) {
                Some(n) => {
                    let i = choose|i: int|
                        0 <= i < rest.len() && instance_line(#[trigger] rest[i]) == Some(n)
                            && forall|j: int| 0 <= j < i ==> instance_line(#[trigger] rest[j]) is None;
                    assert(instance_line(all[i + 1]) == Some(n));
                    assert forall|j: int| 0 <= j < i + 1 implies instance_line(#[trigger] all[j])
                        is None by {
                        if j > 0 {
                            assert(rest[j - 1] == all[j]);
                        }
                    }
                },
                None => {
                    assert forall|j: int| 0 <= j < all.len() implies instance_line(#[trigger] all[j])
                        is None by {
                        if j > 0 {
                            assert(rest[j - 1] == all[j]);
                        }
                    }
                },
            }
        }
    }
}

/// A game of Heroic is looked up by the name of its program in lower case; the
/// others stay.
pub proof fn law_heroic_titles_go_by_program(
    titles: Map<Seq<char>, Seq<char>>,
    games: Seq<(Seq<char>, JsonModel)>,
    app: Seq<char>,
    entry: JsonModel,
    title: Seq<char>,
    exe: Seq<char>,
    other: Seq<char>,
)
    requires
        entry.get("title"@) == Some(JsonModel::Str(title)),
        entry.get("executable"@) == Some(JsonModel::Str(exe)),
        title.len() > 0,
    ensures
        ({
            let before = with_heroic(titles, games);
            let after = with_heroic(titles, games.push((app, entry)));
            let name = lowercase(leaf_name(exe));
            &&& after.contains_key(name) && after[name] == title
            &&& other != name ==> after.contains_key(other) == before.contains_key(other)
            &&& other != name && before.contains_key(other) ==> after[other] == before[other]
        }),
        with_heroic(titles, Seq::empty()) == titles,
{
    assert(games.push((app, entry)).drop_last() =~= games);
}

/// An app of Heroic is found under its own name.
pub proof fn law_heroic_app_is_found_by_name(doc: JsonModel, app: Seq<char>)
    ensures
        doc.get(app) is None ==> heroic_listed(doc, app) is None,
        doc.get(app) matches Some(e) ==> heroic_listed(doc, app) == heroic_game(e),
{
}

/// A library that a list names is among those that are found, once.
pub proof fn law_libraries_are_found(
    before: Seq<Seq<char>>,
    indent: Seq<char>,
    gap: Seq<char>,
    value: Seq<char>,
    end: Seq<char>,
)
    requires
        is_blank(indent),
        is_blank(gap),
        is_blank(end),
        gap.len() > 0,
        lacks(value, '"'),
        lacks(value, '\\'),
    ensures
        ({
            let found = library_lines(before.push(steam_line(indent, "path"@, gap, value, end)));
            &&& exists|i: int| 0 <= i < found.len() && path_key(#[trigger] found[i]) == path_key(value)
            &&& found.len() <= library_lines(before).len() + 1
            &&& library_lines(before).is_prefix_of(found)
        }),
{
    reveal_strlit("path");
    let k = "path"@;
    assert(k[0] == 'p' && k[1] == 'a' && k[2] == 't' && k[3] == 'h');
    assert(is_solid(k) && lacks(k, '"'));
    let line = steam_line(indent, k, gap, value, end);
    law_library_lines(indent, k, gap, value, end);
    law_backslashes(value, Seq::empty());
    let all = before.push(line);
    assert(all.drop_last() =~= before);
    let old_ones = library_lines(before);
    let found = library_lines(all);
    if has_path(old_ones, value) {
        let i = choose|i: int|
            0 <= i < old_ones.len() && path_key(#[trigger] old_ones[i]) == path_key(value);
        assert(path_key(found[i]) == path_key(value));
    } else {
        assert(path_key(found[found.len() - 1]) == path_key(value));
    }
}

/// The app of a group is named between a part called app and a further part.
pub proof fn law_app_of_a_group(id: Seq<char>, rest: Seq<Seq<char>>)
    requires
        id.contains('.'),
        rest.len() > 0,
    ensures
        parts_app(seq!["app"@, id] + rest) == Some(id),
{
    reveal_strlit("app");
    reveal_strlit("app-");
    reveal_strlit("app-flatpak-");
    let parts = seq!["app"@, id] + rest;
    assert(parts[0] == "app"@ && parts[1] == id);
    assert("app"@.len() == 3 && "app-"@.len() == 4 && "app-flatpak-"@.len() == 12);
    assert(scope_app("app"@) is None);
}

} // verus!
