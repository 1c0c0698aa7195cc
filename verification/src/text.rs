//! Text as sequences of characters.
//!
//! Every rule of the recorder that reads or writes text (settings, manifests,
//! command lines, generated configuration files) is stated over `Seq<char>`.
//! The functions here are the executable counterparts of those statements.

use vstd::prelude::*;
use vstd::string::StringExecFns;
use vstd::string::StrSliceExecFns;
use vstd::utf8::{decode_utf8, encode_utf8, is_ascii_chars, valid_utf8};

verus! {

broadcast use vstd::string::group_string_axioms;

// ---------------------------------------------------------------------------
// Characters
// ---------------------------------------------------------------------------
/// The characters of the Unicode `White_Space` property.
pub open spec fn is_white_space(c: char) -> bool {
    ||| '\u{9}' <= c <= '\u{d}'
    ||| c == ' '
    ||| c == '\u{85}'
    ||| c == '\u{a0}'
    ||| c == '\u{1680}'
    ||| '\u{2000}' <= c <= '\u{200a}'
    ||| c == '\u{2028}'
    ||| c == '\u{2029}'
    ||| c == '\u{202f}'
    ||| c == '\u{205f}'
    ||| c == '\u{3000}'
}

/// Decides `is_white_space`.
pub fn white_space(c: char) -> (r: bool)
    ensures
        r == is_white_space(c),
{
    ('\u{9}' <= c && c <= '\u{d}') || c == ' ' || c == '\u{85}' || c == '\u{a0}' || c == '\u{1680}'
        || ('\u{2000}' <= c && c <= '\u{200a}') || c == '\u{2028}' || c == '\u{2029}' || c
        == '\u{202f}' || c == '\u{205f}' || c == '\u{3000}'
}

/// `c` with an ASCII upper case letter turned to lower case.
pub open spec fn ascii_lower_char(c: char) -> char {
    if 'A' <= c <= 'Z' {
        (c as u8 + 32) as u8 as char
    } else {
        c
    }
}

/// `c` with an ASCII lower case letter turned to upper case.
pub open spec fn ascii_upper_char(c: char) -> char {
    if 'a' <= c <= 'z' {
        (c as u8 - 32) as u8 as char
    } else {
        c
    }
}

/// `s` with each ASCII letter in lower case.
pub open spec fn ascii_lower(s: Seq<char>) -> Seq<char> {
    s.map_values(|c: char| ascii_lower_char(c))
}

/// `s` with each ASCII letter in upper case.
pub open spec fn ascii_upper(s: Seq<char>) -> Seq<char> {
    s.map_values(|c: char| ascii_upper_char(c))
}

/// Computes `ascii_lower_char`.
pub fn lower_char(c: char) -> (r: char)
    ensures
        r == ascii_lower_char(c),
{
    if 'A' <= c && c <= 'Z' {
        (c as u8 + 32) as char
    } else {
        c
    }
}

/// Computes `ascii_upper_char`.
pub fn upper_char(c: char) -> (r: char)
    ensures
        r == ascii_upper_char(c),
{
    if 'a' <= c && c <= 'z' {
        (c as u8 - 32) as char
    } else {
        c
    }
}

// ---------------------------------------------------------------------------
// Case mappings beyond ASCII
// ---------------------------------------------------------------------------
/// What `str::to_lowercase` makes of a word, whose ASCII letters are in lower
/// case, from its first character beyond ASCII on.
pub uninterp spec fn unicode_lowercase(word: Seq<char>) -> Seq<char>;

/// The upper case mapping that `str::to_uppercase` gives a text that is not all ASCII.
pub uninterp spec fn unicode_uppercase(s: Seq<char>) -> Seq<char>;

/// The upper case mapping that `char::to_uppercase` gives a character that is not ASCII.
pub uninterp spec fn unicode_uppercase_char(c: char) -> Seq<char>;

/// `c` stands between words: white space or a separator of paths. No letter
/// beside it has a say in the case of a letter on its other side.
pub open spec fn ends_word(c: char) -> bool {
    c == '/' || c == '\\' || is_white_space(c)
}

/// Where the last word of `s` starts.
pub open spec fn word_start(s: Seq<char>) -> int
    decreases s.len(),
{
    if s.len() == 0 || ends_word(s.last()) {
        s.len() as int
    } else {
        word_start(s.drop_last())
    }
}

/// How many ASCII characters `s` starts with.
pub open spec fn ascii_length(s: Seq<char>) -> int
    decreases s.len(),
{
    if s.len() == 0 || !('\0' <= s[0] <= '\u{7f}') {
        0
    } else {
        1 + ascii_length(s.drop_first())
    }
}

/// A word in lower case.
pub open spec fn lower_word(word: Seq<char>) -> Seq<char> {
    if is_ascii_chars(word) {
        ascii_lower(word)
    } else {
        ascii_lower(word.take(ascii_length(word))) + unicode_lowercase(ascii_lower(word))
    }
}

/// `s` in lower case: an ASCII text letter by letter, any other text word by
/// word.
pub open spec fn lowercase(s: Seq<char>) -> Seq<char>
    decreases s.len(),
{
    let i = word_start(s);
    if is_ascii_chars(s) {
        ascii_lower(s)
    } else if 0 < i <= s.len() {
        lowercase(s.take(i - 1)).push(s[i - 1]) + lower_word(s.skip(i))
    } else {
        lower_word(s)
    }
}

/// `s` in upper case.
pub open spec fn uppercase(s: Seq<char>) -> Seq<char> {
    if is_ascii_chars(s) {
        ascii_upper(s)
    } else {
        unicode_uppercase(s)
    }
}

/// `c` in upper case.
pub open spec fn uppercase_char(c: char) -> Seq<char> {
    if (c as u32) < 128 {
        seq![ascii_upper_char(c)]
    } else {
        unicode_uppercase_char(c)
    }
}

/// `str::to_lowercase`, by the lower case of Unicode. ASCII characters change
/// letter by letter. So do the ASCII characters that a word starts with; what a
/// word holds from its first other character on follows the Unicode tables,
/// which do not tell ASCII letters apart by their case. White space and the
/// separators of paths stay as they are, and the letters beyond them do not
/// count: only the letters of its own word decide between the two forms of a
/// final sigma.
pub assume_specification[ str::to_lowercase ](s: &str) -> (r: String)
    ensures
        r@ == lowercase(s@),
        word_start(s@) == 0 && !is_ascii_chars(s@) ==> r@ == ascii_lower(
            s@.take(ascii_length(s@)),
        ) + unicode_lowercase(ascii_lower(s@)),
;

/// `str::to_uppercase`: an ASCII text changes letter by letter, any other text
/// follows the Unicode tables.
pub assume_specification[ str::to_uppercase ](s: &str) -> (r: String)
    ensures
        r@ == (if is_ascii_chars(s@) {
            ascii_upper(s@)
        } else {
            unicode_uppercase(s@)
        }),
;

/// `char::to_uppercase`, collected into a text: one character or more. An ASCII
/// character gives one character, any other follows the Unicode tables.
#[verifier::external_body]
pub(crate) fn upper_text(c: char) -> (r: String)
    ensures
        r@ == (if (c as u32) < 128 {
            seq![ascii_upper_char(c)]
        } else {
            unicode_uppercase_char(c)
        }),
        r@.len() >= 1,
{
    c.to_uppercase().to_string()
}

/// `String::push`: one character more at the end.
pub assume_specification[ String::push ](s: &mut String, c: char)
    ensures
        final(s)@ == old(s)@.push(c),
;

// ---------------------------------------------------------------------------
// Bytes
// ---------------------------------------------------------------------------
/// What `String::from_utf8_lossy` makes of bytes that are not UTF-8.
pub uninterp spec fn utf8_repaired(bytes: Seq<u8>) -> Seq<char>;

/// The text of `bytes`, with what is not UTF-8 replaced.
pub open spec fn lossy_text(bytes: Seq<u8>) -> Seq<char> {
    if valid_utf8(bytes) {
        decode_utf8(bytes)
    } else {
        utf8_repaired(bytes)
    }
}

/// `String::from_utf8_lossy`: UTF-8 is decoded as it stands, other bytes are
/// repaired with replacement characters.
#[verifier::external_body]
pub(crate) fn from_utf8_lossy(bytes: &[u8]) -> (r: String)
    ensures
        r@ == (if valid_utf8(bytes@) {
            decode_utf8(bytes@)
        } else {
            utf8_repaired(bytes@)
        }),
{
    String::from_utf8_lossy(bytes).into_owned()
}

/// `std::str::from_utf8`: the text exactly when the bytes are UTF-8.
#[verifier::external_body]
pub(crate) fn from_utf8(bytes: &[u8]) -> (r: Option<&str>)
    ensures
        r is Some <==> valid_utf8(bytes@),
        r is Some ==> r->0@ == decode_utf8(bytes@),
{
    std::str::from_utf8(bytes).ok()
}

// ---------------------------------------------------------------------------
// Whole texts
// ---------------------------------------------------------------------------
/// The contents of a list of texts.
pub open spec fn texts(v: Seq<String>) -> Seq<Seq<char>> {
    v.map_values(|s: String| s@)
}

/// The content of an optional text.
pub open spec fn opt_text(s: Option<String>) -> Option<Seq<char>> {
    match s {
        Some(t) => Some(t@),
        None => None,
    }
}

/// Two texts have the same characters.
pub fn same(a: &str, b: &str) -> (r: bool)
    ensures
        r == (a@ == b@),
{
    broadcast use vstd::utf8::encode_utf8_decode_utf8;

    let x = a.as_bytes();
    let y = b.as_bytes();
    if x.len() != y.len() {
        return false;
    }
    let mut i: usize = 0;
    while i < x.len()
        invariant
            x@ == encode_utf8(a@),
            y@ == encode_utf8(b@),
            x@.len() == y@.len(),
            i <= x@.len(),
            forall|k: int| 0 <= k < i ==> x@[k] == y@[k],
        decreases x@.len() - i,
    {
        if x[i] != y[i] {
            return false;
        }
        i = i + 1;
    }
    proof {
        assert(x@ =~= y@);
        assert(decode_utf8(encode_utf8(a@)) == decode_utf8(encode_utf8(b@)));
    }
    true
}

/// The characters of a text.
pub fn chars_of(s: &str) -> (v: Vec<char>)
    ensures
        v@ == s@,
{
    let mut v: Vec<char> = Vec::new();
    for c in it: s.chars()
        invariant
            v@ == it.seq().take(it.index()),
            it.seq() == s@,
    {
        v.push(c);
    }
    v
}

/// The text of the characters from `from` up to `to`.
pub fn text_of(v: &[char], from: usize, to: usize) -> (s: String)
    requires
        from <= to <= v@.len(),
    ensures
        s@ == v@.subrange(from as int, to as int),
{
    let mut s: String = String::new();
    let mut i: usize = from;
    while i < to
        invariant
            from <= i <= to <= v@.len(),
            s@ == v@.subrange(from as int, i as int),
        decreases to - i,
    {
        s.push(v[i]);
        proof {
            assert(v@.subrange(from as int, i + 1) =~= v@.subrange(from as int, i as int).push(
                v@[i as int],
            ));
        }
        i = i + 1;
    }
    s
}

/// `a` followed by `b`.
pub fn cat(a: &str, b: &str) -> (r: String)
    ensures
        r@ == a@ + b@,
{
    let mut r: String = a.to_owned();
    r.append(b);
    r
}

/// `a`, `b` and `c` in a row.
pub fn cat3(a: &str, b: &str, c: &str) -> (r: String)
    ensures
        r@ == a@ + b@ + c@,
{
    let mut r: String = a.to_owned();
    r.append(b);
    r.append(c);
    r
}

/// `a`, `b`, `c`, `d` and `e` in a row.
pub fn cat5(a: &str, b: &str, c: &str, d: &str, e: &str) -> (r: String)
    ensures
        r@ == a@ + b@ + c@ + d@ + e@,
{
    let mut r: String = a.to_owned();
    r.append(b);
    r.append(c);
    r.append(d);
    r.append(e);
    r
}

/// A copy of an optional text.
pub fn clone_opt(s: &Option<String>) -> (r: Option<String>)
    ensures
        opt_text(r) == opt_text(*s),
{
    match s {
        Some(t) => Some(t.clone()),
        None => None,
    }
}

/// The position of the first `c` in `s`, if there is one.
pub open spec fn first_index(s: Seq<char>, c: char) -> Option<int>
    decreases s.len(),
{
    if s.len() == 0 {
        None
    } else if s[0] == c {
        Some(0)
    } else {
        match first_index(s.drop_first(), c) {
            Some(i) => Some(i + 1),
            None => None,
        }
    }
}

/// The position of the last `c` in `s`, if there is one.
pub open spec fn last_index(s: Seq<char>, c: char) -> Option<int>
    decreases s.len(),
{
    if s.len() == 0 {
        None
    } else if s.last() == c {
        Some(s.len() - 1)
    } else {
        last_index(s.drop_last(), c)
    }
}

/// The pieces of `s` between the separators `sep`.
pub open spec fn split(s: Seq<char>, sep: char) -> Seq<Seq<char>>
    decreases s.len(),
{
    if s.len() == 0 {
        seq![Seq::<char>::empty()]
    } else {
        let rest = split(s.drop_last(), sep);
        if s.last() == sep {
            rest.push(Seq::empty())
        } else {
            rest.drop_last().push(rest.last().push(s.last()))
        }
    }
}

pub proof fn lemma_split_nonempty(s: Seq<char>, sep: char)
    ensures
        split(s, sep).len() >= 1,
    decreases s.len(),
{
    if s.len() > 0 {
        lemma_split_nonempty(s.drop_last(), sep);
    }
}

/// Every piece of a text occurs in it, and the last one ends it.
pub proof fn lemma_pieces_occur(s: Seq<char>, sep: char)
    ensures
        split(s, sep).len() >= 1,
        split(s, sep).last().len() <= s.len(),
        occurs_at(s, split(s, sep).last(), s.len() - split(s, sep).last().len()),
        forall|k: int|
            0 <= k < split(s, sep).len() ==> contains(s, #[trigger] split(s, sep)[k]),
    decreases s.len(),
{
    let all = split(s, sep);
    if s.len() == 0 {
        assert(s.subrange(0, 0) =~= all[0]);
        assert(occurs_at(s, all[0], 0));
    } else {
        let t = s.drop_last();
        let rest = split(t, sep);
        lemma_pieces_occur(t, sep);
        let from = s.len() - all.last().len();
        assert(s.subrange(from as int, s.len() as int) =~= all.last());
        assert(occurs_at(s, all.last(), from as int));
        assert forall|k: int| 0 <= k < all.len() implies contains(s, #[trigger] all[k]) by {
            if k < all.len() - 1 {
                assert(all[k] == rest[k]);
                let i = choose|i: int| #[trigger] occurs_at(t, rest[k], i);
                assert(s.subrange(i, i + rest[k].len()) =~= t.subrange(i, i + rest[k].len()));
                assert(occurs_at(s, all[k], i));
            }
        }
    }
}

/// The pieces of a text between separators.
pub fn split_on(s: &str, sep: char) -> (r: Vec<String>)
    ensures
        texts(r@) == split(s@, sep),
{
    let cs: Vec<char> = chars_of(s);
    let mut out: Vec<String> = Vec::new();
    let mut cur: String = String::new();
    let mut i: usize = 0;
    proof {
        assert(cs@.take(0) =~= Seq::<char>::empty());
        assert(texts(out@).push(cur@) =~= split(cs@.take(0), sep));
    }
    while i < cs.len()
        invariant
            cs@ == s@,
            i <= cs@.len(),
            texts(out@).push(cur@) == split(cs@.take(i as int), sep),
        decreases cs@.len() - i,
    {
        let c = cs[i];
        let ghost before = texts(out@).push(cur@);
        proof {
            assert(cs@.take(i + 1).drop_last() =~= cs@.take(i as int));
            assert(cs@.take(i + 1).last() == c);
            assert(before.drop_last() =~= texts(out@));
            assert(before.last() == cur@);
        }
        if c == sep {
            let ghost prev = out@;
            out.push(cur);
            cur = String::new();
            proof {
                assert(texts(out@) =~= before);
            }
        } else {
            cur.push(c);
        }
        i = i + 1;
    }
    let ghost prev = out@;
    out.push(cur);
    proof {
        assert(texts(out@) =~= texts(prev).push(cur@));
        assert(cs@.take(cs@.len() as int) =~= s@);
    }
    out
}

/// `needle` stands somewhere in `s`.
pub open spec fn contains(s: Seq<char>, needle: Seq<char>) -> bool {
    exists|i: int| #[trigger] occurs_at(s, needle, i)
}

/// `needle` stands in `s` at `i`.
pub open spec fn occurs_at(s: Seq<char>, needle: Seq<char>, i: int) -> bool {
    0 <= i && i + needle.len() <= s.len() && s.subrange(i, i + needle.len()) == needle
}

/// `needle` stands in `s` at `i`.
pub fn chars_at(s: &[char], needle: &[char], i: usize) -> (r: bool)
    ensures
        r == occurs_at(s@, needle@, i as int),
{
    if needle.len() > s.len() || i > s.len() - needle.len() {
        return false;
    }
    let n: usize = s.len();
    let mut k: usize = 0;
    while k < needle.len()
        invariant
            n == s@.len(),
            i + needle@.len() <= n,
            k <= needle@.len(),
            forall|j: int| 0 <= j < k ==> s@[i + j] == needle@[j],
        decreases needle@.len() - k,
    {
        if s[i + k] != needle[k] {
            proof {
                assert(s@.subrange(i as int, i + needle@.len())[k as int] == s@[i + k]);
            }
            return false;
        }
        k = k + 1;
    }
    proof {
        assert(s@.subrange(i as int, i + needle@.len()) =~= needle@);
    }
    true
}

/// A text holds another.
pub fn has(s: &str, needle: &str) -> (r: bool)
    ensures
        r == contains(s@, needle@),
{
    let cs: Vec<char> = chars_of(s);
    let ns: Vec<char> = chars_of(needle);
    if ns.len() > cs.len() {
        proof {
            assert forall|i: int| !#[trigger] occurs_at(s@, needle@, i) by {}
        }
        return false;
    }
    let mut i: usize = 0;
    while i <= cs.len() - ns.len()
        invariant
            cs@ == s@,
            ns@ == needle@,
            ns@.len() <= cs@.len(),
            i <= cs@.len() - ns@.len() + 1,
            forall|k: int| 0 <= k < i ==> !#[trigger] occurs_at(s@, needle@, k),
        decreases cs@.len() + 1 - i,
    {
        if chars_at(cs.as_slice(), ns.as_slice(), i) {
            return true;
        }
        if i == usize::MAX {
            return false;
        }
        i = i + 1;
    }
    proof {
        assert forall|k: int| !#[trigger] occurs_at(s@, needle@, k) by {}
    }
    false
}

/// A text begins with another.
pub fn starts_with(s: &str, prefix: &str) -> (r: bool)
    ensures
        r == prefix@.is_prefix_of(s@),
{
    let cs: Vec<char> = chars_of(s);
    let ps: Vec<char> = chars_of(prefix);
    chars_at(cs.as_slice(), ps.as_slice(), 0)
}

/// A text ends with another.
pub fn ends_with(s: &str, suffix: &str) -> (r: bool)
    ensures
        r == suffix@.is_suffix_of(s@),
{
    let cs: Vec<char> = chars_of(s);
    let ps: Vec<char> = chars_of(suffix);
    if ps.len() > cs.len() {
        return false;
    }
    chars_at(cs.as_slice(), ps.as_slice(), cs.len() - ps.len())
}

/// What follows `prefix` in `s`, where `s` begins with it.
pub open spec fn strip_prefix(s: Seq<char>, prefix: Seq<char>) -> Option<Seq<char>> {
    if prefix.is_prefix_of(s) {
        Some(s.skip(prefix.len() as int))
    } else {
        None
    }
}

/// What precedes `suffix` in `s`, where `s` ends with it.
pub open spec fn strip_suffix(s: Seq<char>, suffix: Seq<char>) -> Option<Seq<char>> {
    if suffix.is_suffix_of(s) {
        Some(s.take(s.len() - suffix.len()))
    } else {
        None
    }
}

/// A text without its prefix.
pub fn without_prefix(s: &str, prefix: &str) -> (r: Option<String>)
    ensures
        opt_text(r) == strip_prefix(s@, prefix@),
{
    if starts_with(s, prefix) {
        let n = s.unicode_len();
        Some(s.substring_char(prefix.unicode_len(), n).to_owned())
    } else {
        None
    }
}

/// A text without its suffix.
pub fn without_suffix(s: &str, suffix: &str) -> (r: Option<String>)
    ensures
        opt_text(r) == strip_suffix(s@, suffix@),
{
    if ends_with(s, suffix) {
        let n = s.unicode_len();
        Some(s.substring_char(0, n - suffix.unicode_len()).to_owned())
    } else {
        None
    }
}

/// The position of the first `c`.
pub fn find_char(s: &[char], c: char) -> (r: Option<usize>)
    ensures
        match r {
            Some(i) => first_index(s@, c) == Some(i as int) && i < s@.len() && s@[i as int] == c,
            None => first_index(s@, c) is None,
        },
        r is None ==> !s@.contains(c),
{
    let mut i: usize = 0;
    proof {
        assert(s@.skip(0) =~= s@);
    }
    while i < s.len()
        invariant
            i <= s@.len(),
            forall|k: int| 0 <= k < i ==> s@[k] != c,
            first_index(s@, c) == (match first_index(s@.skip(i as int), c) {
                Some(k) => Some(k + i),
                None => None::<int>,
            }),
        decreases s@.len() - i,
    {
        if s[i] == c {
            return Some(i);
        }
        proof {
            assert(s@.skip(i as int).drop_first() =~= s@.skip(i + 1));
        }
        i = i + 1;
    }
    None
}

/// The position of the last `c`.
pub fn rfind_char(s: &[char], c: char) -> (r: Option<usize>)
    ensures
        match r {
            Some(i) => last_index(s@, c) == Some(i as int) && i < s@.len() && s@[i as int] == c,
            None => last_index(s@, c) is None,
        },
{
    let mut n: usize = s.len();
    proof {
        assert(s@.take(n as int) =~= s@);
    }
    while n > 0
        invariant
            n <= s@.len(),
            last_index(s@, c) == last_index(s@.take(n as int), c),
        decreases n,
    {
        proof {
            assert(s@.take(n as int).drop_last() =~= s@.take(n - 1));
        }
        if s[n - 1] == c {
            return Some(n - 1);
        }
        n = n - 1;
    }
    None
}

// ---------------------------------------------------------------------------
// Trimming
// ---------------------------------------------------------------------------
/// `s` without its leading white space.
pub open spec fn trim_start(s: Seq<char>) -> Seq<char>
    decreases s.len(),
{
    if s.len() > 0 && is_white_space(s[0]) {
        trim_start(s.drop_first())
    } else {
        s
    }
}

/// `s` without its trailing white space.
pub open spec fn trim_end(s: Seq<char>) -> Seq<char>
    decreases s.len(),
{
    if s.len() > 0 && is_white_space(s.last()) {
        trim_end(s.drop_last())
    } else {
        s
    }
}

/// `s` without white space at either end.
pub open spec fn trim(s: Seq<char>) -> Seq<char> {
    trim_end(trim_start(s))
}

/// A text without white space at either end.
pub fn trimmed(s: &str) -> (r: String)
    ensures
        r@ == trim(s@),
{
    let cs: Vec<char> = chars_of(s);
    let mut i: usize = 0;
    proof {
        assert(cs@.skip(0) =~= cs@);
    }
    while i < cs.len() && white_space(cs[i])
        invariant
            i <= cs@.len(),
            trim_start(cs@) == trim_start(cs@.skip(i as int)),
        decreases cs@.len() - i,
    {
        proof {
            assert(cs@.skip(i as int).drop_first() =~= cs@.skip(i + 1));
        }
        i = i + 1;
    }
    let mut j: usize = cs.len();
    proof {
        assert(cs@.skip(i as int) =~= cs@.subrange(i as int, j as int));
    }
    while j > i && white_space(cs[j - 1])
        invariant
            i <= j <= cs@.len(),
            trim(cs@) == trim_end(cs@.subrange(i as int, j as int)),
        decreases j,
    {
        proof {
            assert(cs@.subrange(i as int, j as int).drop_last() =~= cs@.subrange(
                i as int,
                j - 1,
            ));
        }
        j = j - 1;
    }
    text_of(cs.as_slice(), i, j)
}

pub proof fn lemma_trim_start_fixed(s: Seq<char>)
    ensures
        trim_start(trim_start(s)) == trim_start(s),
        trim_start(s).len() > 0 ==> !is_white_space(trim_start(s)[0]),
    decreases s.len(),
{
    if s.len() > 0 && is_white_space(s[0]) {
        lemma_trim_start_fixed(s.drop_first());
    }
}

pub proof fn lemma_trim_end_fixed(s: Seq<char>)
    ensures
        trim_end(trim_end(s)) == trim_end(s),
        trim_end(s).len() > 0 ==> trim_end(s)[0] == s[0],
    decreases s.len(),
{
    if s.len() > 0 && is_white_space(s.last()) {
        lemma_trim_end_fixed(s.drop_last());
    }
}

/// Trimming twice is trimming once.
pub proof fn lemma_trim_idempotent(s: Seq<char>)
    ensures
        trim(trim(s)) == trim(s),
{
    lemma_trim_start_fixed(s);
    lemma_trim_end_fixed(trim_start(s));
}

proof fn lemma_word_start(s: Seq<char>)
    ensures
        0 <= word_start(s) <= s.len(),
        word_start(s) > 0 ==> ends_word(s[word_start(s) - 1]),
        forall|k: int| word_start(s) <= k < s.len() ==> !ends_word(#[trigger] s[k]),
    decreases s.len(),
{
    if s.len() > 0 && !ends_word(s.last()) {
        let init = s.drop_last();
        lemma_word_start(init);
        assert forall|k: int| word_start(s) <= k < s.len() implies !ends_word(#[trigger] s[k]) by {
            if k < init.len() {
                assert(s[k] == init[k]);
            }
        }
    }
}

proof fn lemma_word_starts_at(s: Seq<char>, i: int)
    requires
        0 <= i <= s.len(),
        i > 0 ==> ends_word(s[i - 1]),
        forall|k: int| i <= k < s.len() ==> !ends_word(#[trigger] s[k]),
    ensures
        word_start(s) == i,
{
    lemma_word_start(s);
    let j = word_start(s);
    if j < i {
        assert(!ends_word(s[i - 1]));
    } else if j > i {
        assert(!ends_word(s[j - 1]));
    }
}

proof fn lemma_ascii_length(s: Seq<char>)
    ensures
        0 <= ascii_length(s) <= s.len(),
        is_ascii_chars(s.take(ascii_length(s))),
        ascii_length(s) < s.len() ==> !('\0' <= s[ascii_length(s)] <= '\u{7f}'),
    decreases s.len(),
{
    if s.len() > 0 && '\0' <= s[0] <= '\u{7f}' {
        let rest = s.drop_first();
        lemma_ascii_length(rest);
        let n = ascii_length(rest);
        assert forall|k: int| 0 <= k < n + 1 implies '\0' <= #[trigger] s.take(n + 1)[k]
            <= '\u{7f}' by {
            if k > 0 {
                let before = rest.take(n);
                assert('\0' <= before[k - 1] <= '\u{7f}');
                assert(s.take(n + 1)[k] == before[k - 1]);
            } else {
                assert(s.take(n + 1)[0] == s[0]);
            }
        }
        if n < rest.len() {
            assert(rest[n] == s[n + 1]);
        }
    }
}

/// The last word of a text comes last in its lower case too.
proof fn lemma_lower_last_word(s: Seq<char>)
    ensures
        word_start(s) > 0 ==> lowercase(s) == lowercase(s.take(word_start(s) - 1)).push(
            s[word_start(s) - 1],
        ) + lower_word(s.skip(word_start(s))),
        word_start(s) == 0 ==> lowercase(s) == lower_word(s),
{
    lemma_word_start(s);
    let i = word_start(s);
    if is_ascii_chars(s) && i > 0 {
        let head = s.take(i - 1);
        let tail = s.skip(i);
        assert forall|k: int| 0 <= k < head.len() implies '\0' <= #[trigger] head[k] <= '\u{7f}' by {
            assert(head[k] == s[k]);
        }
        assert forall|k: int| 0 <= k < tail.len() implies '\0' <= #[trigger] tail[k] <= '\u{7f}' by {
            assert(tail[k] == s[i + k]);
        }
        assert(ascii_lower(s) =~= ascii_lower(head).push(s[i - 1]) + ascii_lower(tail));
    }
}

/// What stands between words parts a text: its two sides turn to lower case by
/// themselves.
pub proof fn lemma_lower_parts(a: Seq<char>, b: char, c: Seq<char>)
    requires
        ends_word(b),
    ensures
        lowercase(a.push(b) + c) == lowercase(a).push(b) + lowercase(c),
    decreases c.len(),
{
    let s = a.push(b) + c;
    lemma_word_start(c);
    let j = word_start(c);
    let n = a.len() as int + 1;
    assert forall|k: int| n + j <= k < s.len() implies !ends_word(#[trigger] s[k]) by {
        assert(s[k] == c[k - n]);
    }
    assert(s[n - 1] == b);
    if j > 0 {
        assert(s[n + j - 1] == c[j - 1]);
    }
    lemma_word_starts_at(s, n + j);
    lemma_lower_last_word(s);
    lemma_lower_last_word(c);
    assert(s.skip(n + j) =~= c.skip(j));
    if j == 0 {
        assert(s.take(n - 1) =~= a);
        assert(c.skip(0) =~= c);
    } else {
        let d = c.take(j - 1);
        assert(s.take(n + j - 1) =~= a.push(b) + d);
        lemma_lower_parts(a, b, d);
        assert(lowercase(s) =~= lowercase(a).push(b) + lowercase(c));
    }
}

/// The case of ASCII letters does not count for the lower case of a text.
pub proof fn lemma_lower_of_upper(s: Seq<char>)
    ensures
        lowercase(ascii_upper(s)) == lowercase(s),
    decreases s.len(),
{
    let u = ascii_upper(s);
    lemma_word_start(s);
    let i = word_start(s);
    assert forall|k: int| 0 <= k < s.len() implies ends_word(#[trigger] u[k]) == ends_word(s[k]) by {}
    lemma_word_starts_at(u, i);
    lemma_lower_last_word(s);
    lemma_lower_last_word(u);
    lemma_word_of_upper(s.skip(i));
    assert(u.skip(i) =~= ascii_upper(s.skip(i)));
    if i > 0 {
        assert(u.take(i - 1) =~= ascii_upper(s.take(i - 1)));
        lemma_lower_of_upper(s.take(i - 1));
        assert(u[i - 1] == s[i - 1]);
    } else {
        assert(s.skip(0) =~= s);
        assert(u.skip(0) =~= u);
    }
}

proof fn lemma_word_of_upper(w: Seq<char>)
    ensures
        lower_word(ascii_upper(w)) == lower_word(w),
{
    let u = ascii_upper(w);
    assert(ascii_lower(u) =~= ascii_lower(w));
    lemma_ascii_length_of_upper(w);
    lemma_ascii_length(w);
    let n = ascii_length(w);
    assert(u.take(n) =~= ascii_upper(w.take(n)));
    assert(ascii_lower(u.take(n)) =~= ascii_lower(w.take(n)));
    assert(is_ascii_chars(u) == is_ascii_chars(w)) by {
        assert forall|k: int| 0 <= k < w.len() implies (#[trigger] u[k] <= '\u{7f}') == (w[k]
            <= '\u{7f}') by {}
        if is_ascii_chars(u) {
            assert forall|k: int| 0 <= k < w.len() implies '\0' <= #[trigger] w[k] <= '\u{7f}' by {
                assert(u[k] <= '\u{7f}');
            }
        }
        if is_ascii_chars(w) {
            assert forall|k: int| 0 <= k < u.len() implies '\0' <= #[trigger] u[k] <= '\u{7f}' by {
                assert(w[k] <= '\u{7f}');
            }
        }
    }
}

proof fn lemma_ascii_length_of_upper(w: Seq<char>)
    ensures
        ascii_length(ascii_upper(w)) == ascii_length(w),
    decreases w.len(),
{
    if w.len() > 0 {
        assert(ascii_upper(w).drop_first() =~= ascii_upper(w.drop_first()));
        assert(ascii_upper(w)[0] == ascii_upper_char(w[0]));
        lemma_ascii_length_of_upper(w.drop_first());
    }
}

/// ASCII characters that a text starts with turn to lower case one by one.
pub proof fn lemma_lower_start(s: Seq<char>, k: int)
    requires
        0 <= k <= s.len(),
        is_ascii_chars(s.take(k)),
    ensures
        lowercase(s).len() >= k,
        lowercase(s).take(k) == ascii_lower(s.take(k)),
    decreases s.len(),
{
    lemma_word_start(s);
    lemma_lower_last_word(s);
    let i = word_start(s);
    assert forall|j: int| 0 <= j < k implies '\0' <= #[trigger] s[j] <= '\u{7f}' by {
        assert(s[j] == s.take(k)[j]);
    }
    if i == 0 {
        lemma_lower_word_start(s, k);
    } else if k <= i - 1 {
        let head = s.take(i - 1);
        assert(head.take(k) =~= s.take(k));
        lemma_lower_start(head, k);
        assert(lowercase(s).take(k) =~= lowercase(head).take(k));
    } else {
        let head = s.take(i - 1);
        let tail = s.skip(i);
        assert(head.take(i - 1) =~= head);
        assert forall|j: int| 0 <= j < head.len() implies '\0' <= #[trigger] head[j] <= '\u{7f}' by {
            assert(head[j] == s[j]);
        }
        assert(lowercase(head) == ascii_lower(head));
        if k >= i {
            assert forall|j: int| 0 <= j < k - i implies '\0' <= #[trigger] tail.take(k - i)[j]
                <= '\u{7f}' by {
                assert(tail.take(k - i)[j] == s[i + j]);
            }
            lemma_lower_word_start(tail, k - i);
            let low = lowercase(s);
            assert forall|j: int| 0 <= j < k implies #[trigger] low[j] == ascii_lower_char(s[j]) by {
                if j >= i {
                    assert(low[j] == lower_word(tail)[j - i]);
                    assert(lower_word(tail).take(k - i)[j - i] == ascii_lower(tail.take(k - i))[j
                        - i]);
                }
            }
        }
        assert(lowercase(s).take(k) =~= ascii_lower(s.take(k)));
    }
}

proof fn lemma_lower_word_start(w: Seq<char>, k: int)
    requires
        0 <= k <= w.len(),
        is_ascii_chars(w.take(k)),
    ensures
        lower_word(w).len() >= k,
        lower_word(w).take(k) == ascii_lower(w.take(k)),
{
    if is_ascii_chars(w) {
        assert(lower_word(w).take(k) =~= ascii_lower(w.take(k)));
    } else {
        lemma_ascii_length(w);
        let n = ascii_length(w);
        if n < k {
            assert(w[n] == w.take(k)[n]);
        }
        assert(lower_word(w).take(k) =~= ascii_lower(w.take(k)));
    }
}

/// The texts in a row with `sep` between them.
pub open spec fn joined(parts: Seq<Seq<char>>, sep: Seq<char>) -> Seq<char>
    decreases parts.len(),
{
    if parts.len() == 0 {
        Seq::empty()
    } else if parts.len() == 1 {
        parts[0]
    } else {
        joined(parts.drop_last(), sep) + sep + parts.last()
    }
}

/// The first `n` texts in a row with `sep` between them.
pub fn join_first(parts: &Vec<String>, n: usize, sep: &str) -> (r: String)
    requires
        n <= parts@.len(),
    ensures
        r@ == joined(texts(parts@).take(n as int), sep@),
{
    let ghost all = texts(parts@);
    let mut r: String = String::new();
    let mut i: usize = 0;
    proof {
        assert(all.take(0) =~= Seq::<Seq<char>>::empty());
        assert(r@ =~= joined(all.take(0), sep@));
    }
    while i < n
        invariant
            all == texts(parts@),
            i <= n <= parts@.len(),
            r@ == joined(all.take(i as int), sep@),
        decreases n - i,
    {
        proof {
            assert(all.take(i + 1).drop_last() =~= all.take(i as int));
            assert(all.take(i + 1).last() == parts@[i as int]@);
        }
        if i == 0 {
            r = parts[0].clone();
        } else {
            r.append(sep);
            r.append(parts[i].as_str());
        }
        i = i + 1;
    }
    r
}

// ---------------------------------------------------------------------------
// Words
// ---------------------------------------------------------------------------
/// The words of `s`, and the word that its end leaves open.
pub open spec fn word_split(s: Seq<char>) -> (Seq<Seq<char>>, Seq<char>)
    decreases s.len(),
{
    if s.len() == 0 {
        (Seq::empty(), Seq::empty())
    } else {
        let (done, open) = word_split(s.drop_last());
        if !is_white_space(s.last()) {
            (done, open.push(s.last()))
        } else if open.len() > 0 {
            (done.push(open), Seq::empty())
        } else {
            (done, open)
        }
    }
}

/// The words of `s`: what stands between white space.
pub open spec fn words(s: Seq<char>) -> Seq<Seq<char>> {
    let (done, open) = word_split(s);
    if open.len() > 0 {
        done.push(open)
    } else {
        done
    }
}

/// The words of a text.
pub fn words_of(s: &str) -> (r: Vec<String>)
    ensures
        texts(r@) == words(s@),
{
    let cs: Vec<char> = chars_of(s);
    let mut out: Vec<String> = Vec::new();
    let mut cur: String = String::new();
    let mut i: usize = 0;
    proof {
        assert(cs@.take(0) =~= Seq::<char>::empty());
        assert(texts(out@) =~= Seq::<Seq<char>>::empty());
    }
    while i < cs.len()
        invariant
            cs@ == s@,
            i <= cs@.len(),
            (texts(out@), cur@) == word_split(cs@.take(i as int)),
        decreases cs@.len() - i,
    {
        let c = cs[i];
        proof {
            assert(cs@.take(i + 1).drop_last() =~= cs@.take(i as int));
            assert(cs@.take(i + 1).last() == c);
        }
        if !white_space(c) {
            cur.push(c);
        } else if !cur.as_str().is_empty() {
            let ghost before = out@;
            let ghost word = cur@;
            out.push(cur);
            cur = String::new();
            proof {
                assert(texts(out@) =~= texts(before).push(word));
            }
        }
        i = i + 1;
    }
    proof {
        assert(cs@.take(cs@.len() as int) =~= s@);
    }
    if !cur.as_str().is_empty() {
        let ghost before = out@;
        let ghost word = cur@;
        out.push(cur);
        proof {
            assert(texts(out@) =~= texts(before).push(word));
        }
    }
    out
}

// ---------------------------------------------------------------------------
// Lines
// ---------------------------------------------------------------------------
/// A line without the carriage return that ends it.
pub open spec fn without_cr(line: Seq<char>) -> Seq<char> {
    if line.len() > 0 && line.last() == '\r' {
        line.drop_last()
    } else {
        line
    }
}

/// The lines of `s`: what stands between line feeds, each without a carriage
/// return at its end. A line feed at the end of `s` opens no further line, and
/// a text that ends without one keeps a carriage return there.
pub open spec fn lines(s: Seq<char>) -> Seq<Seq<char>> {
    let pieces = split(s, '\n');
    let closed = pieces.drop_last().map_values(|l: Seq<char>| without_cr(l));
    if pieces.last().len() == 0 {
        closed
    } else {
        closed.push(pieces.last())
    }
}

/// The lines of a text.
pub fn lines_of(s: &str) -> (r: Vec<String>)
    ensures
        texts(r@) == lines(s@),
{
    let mut pieces: Vec<String> = split_on(s, '\n');
    let ghost all = texts(pieces@);
    proof {
        lemma_split_nonempty(s@, '\n');
        assert(all.len() == pieces@.len());
    }
    let mut out: Vec<String> = Vec::new();
    let mut i: usize = 0;
    let n: usize = pieces.len();
    while i < n - 1
        invariant
            all == texts(pieces@),
            n == pieces@.len(),
            i <= n - 1,
            texts(out@) == all.drop_last().map_values(|l: Seq<char>| without_cr(l)).take(i as int),
        decreases n - i,
    {
        let piece = &pieces[i];
        let ghost before = out@;
        let len = piece.as_str().unicode_len();
        if len > 0 && piece.as_str().get_char(len - 1) == '\r' {
            out.push(piece.as_str().substring_char(0, len - 1).to_owned());
            proof {
                assert(out@.last()@ =~= piece@.drop_last());
            }
        } else {
            out.push(piece.clone());
        }
        proof {
            let target = all.drop_last().map_values(|l: Seq<char>| without_cr(l));
            assert(out@.last()@ == without_cr(all[i as int]));
            assert(target[i as int] == without_cr(all[i as int]));
            assert(texts(out@) =~= texts(before).push(out@.last()@));
            assert(target.take(i + 1) =~= target.take(i as int).push(target[i as int]));
        }
        i = i + 1;
    }
    let ghost before = out@;
    proof {
        assert(texts(before) =~= all.drop_last().map_values(|l: Seq<char>| without_cr(l)));
    }
    let last = &pieces[n - 1];
    if !last.as_str().is_empty() {
        out.push(last.clone());
        proof {
            assert(texts(out@) =~= texts(before).push(all.last()));
        }
    }
    out
}

// ---------------------------------------------------------------------------
// Numbers
// ---------------------------------------------------------------------------
/// The decimal digit `d`.
pub open spec fn digit(d: nat) -> char {
    (48 + d) as u8 as char
}

/// `n` in decimal, without leading zeros.
pub open spec fn decimal(n: nat) -> Seq<char>
    decreases n,
{
    if n < 10 {
        seq![digit(n)]
    } else {
        decimal(n / 10).push(digit(n % 10))
    }
}

/// `n` in decimal, with a sign where it is negative.
pub open spec fn decimal_int(n: int) -> Seq<char> {
    if n < 0 {
        seq!['-'] + decimal((-n) as nat)
    } else {
        decimal(n as nat)
    }
}

/// `n` in decimal.
pub fn decimal_of(n: u64) -> (r: String)
    ensures
        r@ == decimal(n as nat),
    decreases n,
{
    let c: char = (48 + (n % 10) as u8) as char;
    if n < 10 {
        let mut r: String = String::new();
        r.push(c);
        proof {
            assert(r@ =~= decimal(n as nat));
        }
        r
    } else {
        let mut r: String = decimal_of(n / 10);
        r.push(c);
        r
    }
}

/// `n` in decimal.
pub fn decimal_of_int(n: i64) -> (r: String)
    ensures
        r@ == decimal_int(n as int),
{
    if n < 0 {
        let m: u64 = if n == i64::MIN {
            9223372036854775808u64
        } else {
            (-n) as u64
        };
        let mut r: String = String::new();
        r.push('-');
        let tail = decimal_of(m);
        r.append(tail.as_str());
        proof {
            assert(r@ =~= decimal_int(n as int));
        }
        r
    } else {
        decimal_of(n as u64)
    }
}

/// `c` is a decimal digit.
pub open spec fn is_digit(c: char) -> bool {
    '0' <= c <= '9'
}

/// Every character of `s` is a decimal digit.
pub open spec fn all_digits(s: Seq<char>) -> bool {
    forall|i: int| 0 <= i < s.len() ==> is_digit(#[trigger] s[i])
}

/// The number that the digits `s` write.
pub open spec fn digits_value(s: Seq<char>) -> nat
    decreases s.len(),
{
    if s.len() == 0 {
        0
    } else {
        digits_value(s.drop_last()) * 10 + (s.last() as nat - 48) as nat
    }
}

/// The number that `s` writes, when it writes one in `0..=max`: digits, at
/// least one, with an optional `+` before them.
pub open spec fn parse_unsigned(s: Seq<char>, max: nat) -> Option<nat> {
    let body = if s.len() > 0 && s[0] == '+' {
        s.drop_first()
    } else {
        s
    };
    if body.len() > 0 && all_digits(body) && digits_value(body) <= max {
        Some(digits_value(body))
    } else {
        None
    }
}

/// The number that `s` writes, when it writes one in the range of `i64`:
/// digits, at least one, with an optional sign before them.
pub open spec fn parse_signed(s: Seq<char>) -> Option<int> {
    if s.len() > 0 && s[0] == '-' {
        let body = s.drop_first();
        if body.len() > 0 && all_digits(body) && digits_value(body) <= 0x8000_0000_0000_0000 {
            Some(-(digits_value(body) as int))
        } else {
            None
        }
    } else {
        match parse_unsigned(s, i64::MAX as nat) {
            Some(n) => Some(n as int),
            None => None,
        }
    }
}

proof fn lemma_digits_value_monotone(s: Seq<char>, n: int)
    requires
        0 <= n <= s.len(),
        all_digits(s),
    ensures
        digits_value(s.take(n)) <= digits_value(s),
    decreases s.len() - n,
{
    if n == s.len() {
        assert(s.take(n) =~= s);
    } else {
        lemma_digits_value_monotone(s, n + 1);
        assert(s.take(n + 1).drop_last() =~= s.take(n));
        assert(is_digit(s[n]));
    }
}

/// The number that the characters from `from` on write in digits, if it is at most `max`.
fn parse_digits(cs: &[char], from: usize, max: u64) -> (r: Option<u64>)
    requires
        from <= cs@.len(),
    ensures
        ({
            let body = cs@.skip(from as int);
            if body.len() > 0 && all_digits(body) && digits_value(body) <= max {
                r == Some(digits_value(body) as u64)
            } else {
                r is None
            }
        }),
{
    let ghost body = cs@.skip(from as int);
    if from == cs.len() {
        return None;
    }
    let mut acc: u64 = 0;
    let mut i: usize = from;
    proof {
        assert(body.take(0) =~= Seq::<char>::empty());
    }
    while i < cs.len()
        invariant
            from <= i <= cs@.len(),
            body == cs@.skip(from as int),
            acc == digits_value(body.take(i - from)),
            acc <= max,
            forall|k: int| 0 <= k < i - from ==> is_digit(#[trigger] body[k]),
        decreases cs@.len() - i,
    {
        let c = cs[i];
        proof {
            assert(body[i - from] == c);
            assert(body.take(i - from + 1).drop_last() =~= body.take(i - from));
            assert(body.take(i - from + 1).last() == c);
        }
        if c < '0' || '9' < c {
            return None;
        }
        let d: u64 = (c as u32 - 48) as u64;
        let next: u128 = acc as u128 * 10 + d as u128;
        if next > max as u128 {
            proof {
                if all_digits(body) {
                    lemma_digits_value_monotone(body, i - from + 1);
                }
            }
            return None;
        }
        acc = next as u64;
        i = i + 1;
    }
    proof {
        assert(body.take(body.len() as int) =~= body);
    }
    Some(acc)
}

/// The number that a text writes, when it writes one in `0..=max`.
pub fn parse_u64(s: &str, max: u64) -> (r: Option<u64>)
    ensures
        match r {
            Some(n) => parse_unsigned(s@, max as nat) == Some(n as nat),
            None => parse_unsigned(s@, max as nat) is None,
        },
{
    let cs: Vec<char> = chars_of(s);
    proof {
        assert(cs@.skip(0) =~= cs@);
    }
    if cs.len() > 0 && cs[0] == '+' {
        proof {
            assert(cs@.skip(1) =~= cs@.drop_first());
        }
        parse_digits(cs.as_slice(), 1, max)
    } else {
        parse_digits(cs.as_slice(), 0, max)
    }
}

/// The number that a text writes, when it writes a `u32`.
pub fn parse_u32(s: &str) -> (r: Option<u32>)
    ensures
        match r {
            Some(n) => parse_unsigned(s@, u32::MAX as nat) == Some(n as nat),
            None => parse_unsigned(s@, u32::MAX as nat) is None,
        },
{
    match parse_u64(s, 0xffff_ffff) {
        Some(n) => Some(n as u32),
        None => None,
    }
}

/// The number that a text writes, when it writes an `i64`.
pub fn parse_i64(s: &str) -> (r: Option<i64>)
    ensures
        match r {
            Some(n) => parse_signed(s@) == Some(n as int),
            None => parse_signed(s@) is None,
        },
{
    let cs: Vec<char> = chars_of(s);
    if cs.len() > 0 && cs[0] == '-' {
        proof {
            assert(cs@.skip(1) =~= cs@.drop_first());
        }
        match parse_digits(cs.as_slice(), 1, 0x8000_0000_0000_0000) {
            Some(m) => {
                if m == 0x8000_0000_0000_0000 {
                    Some(i64::MIN)
                } else {
                    Some(-(m as i64))
                }
            },
            None => None,
        }
    } else {
        match parse_u64(s, 0x7fff_ffff_ffff_ffff) {
            Some(n) => Some(n as i64),
            None => None,
        }
    }
}

pub proof fn lemma_decimal_digits(n: nat)
    ensures
        decimal(n).len() > 0,
        all_digits(decimal(n)),
        digits_value(decimal(n)) == n,
    decreases n,
{
    if n < 10 {
        assert(decimal(n).drop_last() =~= Seq::<char>::empty());
        assert(digits_value(decimal(n).drop_last()) == 0);
        assert(decimal(n).last() == digit(n));
    } else {
        lemma_decimal_digits(n / 10);
        let s = decimal(n);
        assert(s.drop_last() =~= decimal(n / 10));
        assert(s.last() == digit(n % 10));
        assert forall|i: int| 0 <= i < s.len() implies is_digit(#[trigger] s[i]) by {
            if i < s.len() - 1 {
                assert(s[i] == decimal(n / 10)[i]);
            }
        }
    }
}

/// Reading back a number that was written gives the number.
pub proof fn lemma_parse_decimal(n: nat, max: nat)
    requires
        n <= max,
    ensures
        parse_unsigned(decimal(n), max) == Some(n),
{
    lemma_decimal_digits(n);
    assert(is_digit(decimal(n)[0]));
}

/// A text that neither starts nor ends with white space is trimmed already.
pub proof fn lemma_trim_clean(s: Seq<char>)
    requires
        s.len() > 0,
        !is_white_space(s[0]),
        !is_white_space(s.last()),
    ensures
        trim(s) == s,
{
}

/// A number as it is written is trimmed already.
pub proof fn lemma_trim_decimal(n: nat)
    ensures
        decimal(n).len() > 0,
        trim(decimal(n)) == decimal(n),
{
    lemma_decimal_digits(n);
    let s = decimal(n);
    assert(is_digit(s[0]) && is_digit(s[s.len() - 1]));
    lemma_trim_clean(s);
}

/// A number that was written with its sign reads back.
pub proof fn law_written_number_reads_back(n: i64)
    ensures
        parse_signed(decimal_int(n as int)) == Some(n as int),
{
    if n < 0 {
        lemma_decimal_digits((-n) as nat);
        assert(decimal_int(n as int).drop_first() =~= decimal((-n) as nat));
    } else {
        lemma_decimal_digits(n as nat);
        assert(is_digit(decimal(n as nat)[0]));
        lemma_parse_decimal(n as nat, i64::MAX as nat);
    }
}

/// Two different numbers are never written alike.
pub proof fn lemma_decimal_injective(a: nat, b: nat)
    requires
        decimal(a) == decimal(b),
    ensures
        a == b,
{
    lemma_decimal_digits(a);
    lemma_decimal_digits(b);
}

/// Lower casing the ASCII letters of a text.
pub fn ascii_lowered(s: &str) -> (r: String)
    ensures
        r@ == ascii_lower(s@),
{
    let mut r: String = String::new();
    for c in it: s.chars()
        invariant
            it.seq() == s@,
            r@ == ascii_lower(s@.take(it.index())),
    {
        let ghost k = it.index();
        r.push(lower_char(c));
        proof {
            assert(r@ =~= ascii_lower(s@.take(k + 1)));
        }
    }
    proof {
        assert(s@.take(s@.len() as int) =~= s@);
    }
    r
}

/// Upper casing the ASCII letters of a text.
pub fn ascii_uppered(s: &str) -> (r: String)
    ensures
        r@ == ascii_upper(s@),
{
    let mut r: String = String::new();
    for c in it: s.chars()
        invariant
            it.seq() == s@,
            r@ == ascii_upper(s@.take(it.index())),
    {
        let ghost k = it.index();
        r.push(upper_char(c));
        proof {
            assert(r@ =~= ascii_upper(s@.take(k + 1)));
        }
    }
    proof {
        assert(s@.take(s@.len() as int) =~= s@);
    }
    r
}

} // verus!
