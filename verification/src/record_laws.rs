//! What holds of records that are read by their places or by their names.

use vstd::prelude::*;

use crate::json::{JsonModel, JsonRead};
use crate::obs_files::{live_token_of, profile_with_token};
use crate::profile::ProfileModel;
use crate::records::{
    between, items_in, nesting, outer_pieces, place_after, text_field, whole_field, Place,
};
use crate::text::{is_white_space, split, trim};
use crate::text_laws::{is_blank, lacks, lemma_trim_around};

verus! {

broadcast use vstd::string::group_string_axioms;

/// A text without quotes and brackets.
pub open spec fn is_flat(s: Seq<char>) -> bool {
    lacks(s, '"') && lacks(s, '[') && lacks(s, ']') && lacks(s, '{') && lacks(s, '}')
}

proof fn lemma_flat_init(s: Seq<char>)
    requires
        is_flat(s),
        s.len() > 0,
    ensures
        is_flat(s.drop_last()),
        s.last() != '"' && s.last() != '[' && s.last() != ']' && s.last() != '{' && s.last() != '}',
{
    let init = s.drop_last();
    assert forall|i: int| 0 <= i < init.len() implies #[trigger] init[i] == s[i] by {}
    assert(s[s.len() - 1] == s.last());
}

proof fn lemma_flat(s: Seq<char>)
    requires
        is_flat(s),
    ensures
        place_after(s) == (Place { depth: 0, quoted: false, escaped: false }),
        nesting(s) == 0,
    decreases s.len(),
{
    if s.len() > 0 {
        lemma_flat_init(s);
        lemma_flat(s.drop_last());
    }
}

/// Without quotes and brackets a text is cut at every separator, and nothing in
/// it is nested.
pub proof fn law_flat_text_is_cut_everywhere(s: Seq<char>, sep: char)
    requires
        is_flat(s),
    ensures
        outer_pieces(s, sep) == split(s, sep),
        nesting(s) == 0,
    decreases s.len(),
{
    lemma_flat(s);
    if s.len() > 0 {
        lemma_flat_init(s);
        lemma_flat(s.drop_last());
        law_flat_text_is_cut_everywhere(s.drop_last(), sep);
    }
}

proof fn lemma_inside_quotes(s: Seq<char>, n: int)
    requires
        lacks(s, '"'),
        lacks(s, '\\'),
        0 <= n <= s.len(),
    ensures
        place_after(seq!['"'] + s.take(n)) == (Place { depth: 0, quoted: true, escaped: false }),
    decreases n,
{
    let t = seq!['"'] + s.take(n);
    if n == 0 {
        assert(t.drop_last() =~= Seq::<char>::empty());
        assert(t.last() == '"');
        assert(place_after(t.drop_last()) == (Place { depth: 0, quoted: false, escaped: false }));
    } else {
        lemma_inside_quotes(s, n - 1);
        assert(t.drop_last() =~= seq!['"'] + s.take(n - 1));
        assert(t.last() == s[n - 1]);
    }
}

proof fn lemma_quoted_piece(s: Seq<char>, sep: char, n: int)
    requires
        lacks(s, '"'),
        lacks(s, '\\'),
        sep != '"',
        0 <= n <= s.len(),
    ensures
        outer_pieces(seq!['"'] + s.take(n), sep) == seq![seq!['"'] + s.take(n)],
    decreases n,
{
    let t = seq!['"'] + s.take(n);
    if n == 0 {
        let none = Seq::<char>::empty();
        assert(t.drop_last() =~= none);
        assert(outer_pieces(none, sep) =~= seq![none]);
        assert(t.last() == '"');
        assert(none.push('"') =~= t);
        assert(outer_pieces(t, sep) =~= seq![t]);
    } else {
        lemma_quoted_piece(s, sep, n - 1);
        lemma_inside_quotes(s, n - 1);
        let before = seq!['"'] + s.take(n - 1);
        assert(t.drop_last() =~= before);
        assert(before.push(t.last()) =~= t);
        assert(outer_pieces(t, sep) =~= seq![t]);
    }
}

/// A separator within a text between quotes cuts nothing, and neither do
/// brackets there nest anything.
pub proof fn law_quoted_text_is_not_cut(s: Seq<char>, sep: char)
    requires
        lacks(s, '"'),
        lacks(s, '\\'),
        sep != '"',
    ensures
        outer_pieces(seq!['"'] + s + seq!['"'], sep) == seq![seq!['"'] + s + seq!['"']],
        place_after(seq!['"'] + s + seq!['"']) == (Place {
            depth: 0,
            quoted: false,
            escaped: false,
        }),
{
    let t = seq!['"'] + s + seq!['"'];
    let n = s.len() as int;
    assert(s.take(n) =~= s);
    lemma_quoted_piece(s, sep, n);
    lemma_inside_quotes(s, n);
    let before = seq!['"'] + s;
    assert(t.drop_last() =~= before);
    assert(t.last() == '"');
    assert(before.push('"') =~= t);
    assert(outer_pieces(t, sep) =~= seq![t]);
}

/// What stands between brackets is found whatever white space stands around
/// them, and a blank holds no items.
pub proof fn law_brackets(a: Seq<char>, inner: Seq<char>, b: Seq<char>, open: char, close: char)
    requires
        is_blank(a),
        is_blank(b),
        !is_white_space(open),
        !is_white_space(close),
    ensures
        between(a + (seq![open] + inner + seq![close]) + b, open, close) == Some(inner),
        trim(inner).len() == 0 ==> items_in(inner).len() == 0,
        trim(inner).len() > 0 ==> items_in(inner) == outer_pieces(inner, ','),
{
    let t = seq![open] + inner + seq![close];
    assert(t[0] == open && t.last() == close);
    lemma_trim_around(a, t, b);
    assert(t.subrange(1, t.len() - 1) =~= inner);
}

/// A field is a text or a number exactly where it holds one.
pub proof fn law_fields(s: Seq<char>, n: int)
    ensures
        text_field(Some(JsonRead::Document(JsonModel::Str(s)))) == Some(s),
        text_field(Some(JsonRead::Document(JsonModel::Int(n)))) is None,
        text_field(None) is None,
        0 <= n <= u32::MAX ==> whole_field(Some(JsonRead::Document(JsonModel::Int(n)))) == Some(n),
        n < 0 || n > u32::MAX ==> whole_field(Some(JsonRead::Document(JsonModel::Int(n)))) is None,
        whole_field(Some(JsonRead::Document(JsonModel::Str(s)))) is None,
        whole_field(None) is None,
{
}

/// The token of a running source is the text under its key, unless that is empty.
pub proof fn law_token_of_a_running_source(settings: JsonModel, token: Seq<char>)
    ensures
        settings.get("RestoreToken"@) == Some(JsonModel::Str(token)) && token.len() > 0
            ==> live_token_of(settings) == Some(token),
        settings.get("RestoreToken"@) == Some(JsonModel::Str(Seq::empty())) ==> live_token_of(
            settings,
        ) is None,
        settings.get("RestoreToken"@) is None ==> live_token_of(settings) is None,
{
}

/// A kept token changes nothing but the settings of the captured source, and
/// those only where they have none.
pub proof fn law_kept_token_changes_nothing_else(p: ProfileModel, kept: Option<Seq<char>>)
    ensures
        ({
            let q = profile_with_token(p, kept);
            &&& q == (ProfileModel { video_settings: q.video_settings, ..p })
            &&& kept is None ==> q == p
            &&& crate::obs_files::has_token(p) ==> q == p
            &&& kept is Some && !crate::obs_files::has_token(p) ==> q.video_settings
                == p.video_settings.push(("RestoreToken"@, JsonModel::Str(kept->0)))
        }),
{
}

} // verus!
