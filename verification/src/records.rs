//! Records: JSON texts that are read into a fixed set of fields.
//!
//! A record is an object with its fields under their keys, or an array with
//! its fields in order. Keys that the record does not know are skipped, without
//! a look at what stands under them. A field may stand only once.

use vstd::prelude::*;

use crate::encoder_tables::strs;
use crate::json::{json_parse, parse_json, read_model, Json, JsonModel, JsonRead};
use crate::text::{chars_of, opt_text, same, text_of, texts, trim, trimmed};

verus! {

broadcast use vstd::string::group_string_axioms;

// ---------------------------------------------------------------------------
// Syntax
// ---------------------------------------------------------------------------
/// Whether `serde_json::from_str` skips a text whole as `serde::de::IgnoredAny`:
/// it is one value by the syntax of JSON, whatever its numbers, its escapes and
/// its depth are.
pub uninterp spec fn json_skips(text: Seq<char>) -> bool;

/// `serde_json::from_str` into `serde::de::IgnoredAny`: whether the text is one
/// value by the syntax of JSON.
#[verifier::external_body]
fn skips_text(text: &str) -> (r: bool)
    ensures
        r == json_skips(text@),
{
    serde_json::from_str::<serde::de::IgnoredAny>(text).is_ok()
}

/// Where a reader of JSON stands.
pub struct Place {
    /// How many arrays and objects are open.
    pub depth: int,
    /// Inside a text.
    pub quoted: bool,
    /// Behind the backslash of a text.
    pub escaped: bool,
}

/// Where a reader stands one character further on.
pub open spec fn next_place(p: Place, c: char) -> Place {
    if p.quoted {
        if p.escaped {
            Place { escaped: false, ..p }
        } else if c == '\\' {
            Place { escaped: true, ..p }
        } else if c == '"' {
            Place { quoted: false, ..p }
        } else {
            p
        }
    } else if c == '"' {
        Place { quoted: true, ..p }
    } else if c == '[' || c == '{' {
        Place { depth: p.depth + 1, ..p }
    } else if c == ']' || c == '}' {
        Place { depth: p.depth - 1, ..p }
    } else {
        p
    }
}

/// Where a reader stands behind a text.
pub open spec fn place_after(s: Seq<char>) -> Place
    decreases s.len(),
{
    if s.len() == 0 {
        Place { depth: 0, quoted: false, escaped: false }
    } else {
        next_place(place_after(s.drop_last()), s.last())
    }
}

/// The pieces of `s` between the separators that stand outside of every text,
/// array and object in it.
pub open spec fn outer_pieces(s: Seq<char>, sep: char) -> Seq<Seq<char>>
    decreases s.len(),
{
    if s.len() == 0 {
        seq![Seq::<char>::empty()]
    } else {
        let rest = outer_pieces(s.drop_last(), sep);
        let p = place_after(s.drop_last());
        if s.last() == sep && p.depth == 0 && !p.quoted {
            rest.push(Seq::empty())
        } else {
            rest.drop_last().push(rest.last().push(s.last()))
        }
    }
}

fn split_outer(s: &str, sep: char) -> (r: Vec<String>)
    ensures
        texts(r@) == outer_pieces(s@, sep),
        r@.len() >= 1,
{
    let cs: Vec<char> = chars_of(s);
    let mut out: Vec<String> = Vec::new();
    let mut cur: String = String::new();
    let mut at = Cursor::start();
    let mut i: usize = 0;
    proof {
        assert(cs@.take(0) =~= Seq::<char>::empty());
        assert(texts(out@).push(cur@) =~= outer_pieces(cs@.take(0), sep));
    }
    while i < cs.len()
        invariant
            cs@ == s@,
            i <= cs@.len(),
            -(i as int) <= at.depth <= i,
            at.place() == place_after(cs@.take(i as int)),
            texts(out@).push(cur@) == outer_pieces(cs@.take(i as int), sep),
        decreases cs@.len() - i,
    {
        let c = cs[i];
        let ghost before = texts(out@).push(cur@);
        proof {
            assert(cs@.take(i + 1).drop_last() =~= cs@.take(i as int));
            assert(cs@.take(i + 1).last() == c);
            assert(before.drop_last() =~= texts(out@));
            assert(before.last() == cur@);
        }
        if c == sep && at.depth == 0 && !at.quoted {
            out.push(cur);
            cur = String::new();
            proof {
                assert(texts(out@) =~= before);
            }
        } else {
            cur.push(c);
        }
        at = at.next(c);
        i = i + 1;
    }
    let ghost prev = out@;
    out.push(cur);
    proof {
        assert(texts(out@) =~= texts(prev).push(cur@));
        assert(cs@.take(cs@.len() as int) =~= s@);
    }
    out
}

/// How deep the arrays and objects in a text are nested.
pub open spec fn nesting(s: Seq<char>) -> int
    decreases s.len(),
{
    if s.len() == 0 {
        0
    } else {
        let before = nesting(s.drop_last());
        let here = place_after(s).depth;
        if here > before {
            here
        } else {
            before
        }
    }
}

/// How many arrays and objects a reader of JSON opens one inside the other, at
/// the most.
pub const NESTING_LIMIT: i128 = 127;

/// What comes of reading a text that stands inside `around` arrays and objects.
pub open spec fn read_inside(text: Seq<char>, around: nat) -> JsonRead {
    if nesting(text) + around <= NESTING_LIMIT {
        json_parse(text)
    } else {
        JsonRead::Failure("recursion limit exceeded"@)
    }
}

/// Where a reader stands, in machine integers.
#[derive(Clone, Copy)]
struct Cursor {
    depth: i128,
    quoted: bool,
    escaped: bool,
}

impl Cursor {
    spec fn place(self) -> Place {
        Place { depth: self.depth as int, quoted: self.quoted, escaped: self.escaped }
    }

    fn start() -> (r: Cursor)
        ensures
            r.place() == place_after(Seq::empty()),
            r.depth == 0,
    {
        Cursor { depth: 0, quoted: false, escaped: false }
    }

    fn next(self, c: char) -> (r: Cursor)
        requires
            -0x1_0000_0000_0000_0000 <= self.depth <= 0x1_0000_0000_0000_0000,
        ensures
            r.place() == next_place(self.place(), c),
            self.depth - 1 <= r.depth <= self.depth + 1,
    {
        if self.quoted {
            if self.escaped {
                Cursor { escaped: false, ..self }
            } else if c == '\\' {
                Cursor { escaped: true, ..self }
            } else if c == '"' {
                Cursor { quoted: false, ..self }
            } else {
                self
            }
        } else if c == '"' {
            Cursor { quoted: true, ..self }
        } else if c == '[' || c == '{' {
            Cursor { depth: self.depth + 1, ..self }
        } else if c == ']' || c == '}' {
            Cursor { depth: self.depth - 1, ..self }
        } else {
            self
        }
    }
}

fn nesting_of(s: &str) -> (r: i128)
    ensures
        r == nesting(s@),
        0 <= r <= usize::MAX,
{
    let cs: Vec<char> = chars_of(s);
    let mut at = Cursor::start();
    let mut deepest: i128 = 0;
    let mut i: usize = 0;
    proof {
        assert(cs@.take(0) =~= Seq::<char>::empty());
    }
    while i < cs.len()
        invariant
            cs@ == s@,
            i <= cs@.len(),
            -(i as int) <= at.depth <= i,
            0 <= deepest <= i,
            at.place() == place_after(cs@.take(i as int)),
            deepest == nesting(cs@.take(i as int)),
        decreases cs@.len() - i,
    {
        proof {
            assert(cs@.take(i + 1).drop_last() =~= cs@.take(i as int));
            assert(cs@.take(i + 1).last() == cs@[i as int]);
        }
        at = at.next(cs[i]);
        if at.depth > deepest {
            deepest = at.depth;
        }
        i = i + 1;
    }
    proof {
        assert(cs@.take(cs@.len() as int) =~= s@);
    }
    deepest
}

/// Reads a text that stands inside `around` arrays and objects.
pub fn parse_inside(text: &str, around: usize) -> (r: Result<Json, String>)
    ensures
        read_model(r) == read_inside(text@, around as nat),
{
    if nesting_of(text) + around as i128 <= NESTING_LIMIT {
        parse_json(text)
    } else {
        Err("recursion limit exceeded".to_owned())
    }
}

/// What stands between the brackets of a text that is an array or an object.
pub open spec fn between(text: Seq<char>, open: char, close: char) -> Option<Seq<char>> {
    let t = trim(text);
    if t.len() >= 2 && t[0] == open && t.last() == close {
        Some(t.subrange(1, t.len() - 1))
    } else {
        None
    }
}

fn text_between(text: &str, open: char, close: char) -> (r: Option<String>)
    ensures
        opt_text(r) == between(text@, open, close),
{
    let t = trimmed(text);
    let cs = chars_of(t.as_str());
    let n: usize = cs.len();
    if n >= 2 && cs[0] == open && cs[n - 1] == close {
        Some(text_of(cs.as_slice(), 1, n - 1))
    } else {
        None
    }
}

/// The items between two brackets.
pub open spec fn items_in(inner: Seq<char>) -> Seq<Seq<char>> {
    if trim(inner).len() == 0 {
        Seq::empty()
    } else {
        outer_pieces(inner, ',')
    }
}

fn split_items(inner: &str) -> (r: Vec<String>)
    ensures
        texts(r@) == items_in(inner@),
{
    if trimmed(inner).as_str().is_empty() {
        let r: Vec<String> = Vec::new();
        proof {
            assert(texts(r@) =~= Seq::<Seq<char>>::empty());
        }
        r
    } else {
        split_outer(inner, ',')
    }
}

/// The items of a text that is an array, by the syntax of JSON.
pub open spec fn array_items(text: Seq<char>) -> Option<Seq<Seq<char>>> {
    if json_skips(text) && between(text, '[', ']') is Some {
        Some(items_in(between(text, '[', ']')->0))
    } else {
        None
    }
}

/// Items of a text that is an array.
pub fn split_array(text: &str) -> (r: Option<Vec<String>>)
    ensures
        match r {
            Some(v) => array_items(text@) == Some(texts(v@)),
            None => array_items(text@) is None,
        },
{
    if !skips_text(text) {
        return None;
    }
    match text_between(text, '[', ']') {
        Some(inner) => Some(split_items(inner.as_str())),
        None => None,
    }
}

// ---------------------------------------------------------------------------
// Members of an object
// ---------------------------------------------------------------------------
/// The key of a member, where it can be read.
pub open spec fn member_key(member: Seq<char>) -> Option<Seq<char>> {
    match json_parse(outer_pieces(member, ':')[0]) {
        JsonRead::Document(JsonModel::Str(k)) => Some(k),
        _ => None,
    }
}

/// The text of a member's value.
pub open spec fn member_value(member: Seq<char>) -> Seq<char> {
    let pieces = outer_pieces(member, ':');
    if pieces.len() > 1 {
        pieces[1]
    } else {
        Seq::empty()
    }
}

/// The texts that stand under a key, in their order.
pub open spec fn values_under(members: Seq<Seq<char>>, key: Seq<char>) -> Seq<Seq<char>>
    decreases members.len(),
{
    if members.len() == 0 {
        Seq::empty()
    } else {
        let init = values_under(members.drop_last(), key);
        if member_key(members.last()) == Some(key) {
            init.push(member_value(members.last()))
        } else {
            init
        }
    }
}

/// Every member has a key that can be read, and none of the fields stands twice.
pub open spec fn members_fit(members: Seq<Seq<char>>, names: Seq<Seq<char>>) -> bool {
    &&& forall|i: int| 0 <= i < members.len() ==> member_key(#[trigger] members[i]) is Some
    &&& forall|i: int|
        0 <= i < names.len() ==> values_under(members, #[trigger] names[i]).len() <= 1
}

/// The field under a key: nothing where it is missing.
pub open spec fn field_under(members: Seq<Seq<char>>, key: Seq<char>, around: nat) -> Option<
    JsonRead,
> {
    let values = values_under(members, key);
    if values.len() == 0 {
        None
    } else {
        Some(read_inside(values[0], around))
    }
}

/// The fields of a record by the order of their names, each as it reads in its
/// place: nothing for a field that is missing. `None` where the text is no
/// record with these fields. `around` counts the arrays and objects that are
/// open around the fields, the record itself among them.
pub open spec fn record_fields(text: Seq<char>, names: Seq<Seq<char>>, around: nat) -> Option<
    Seq<Option<JsonRead>>,
> {
    if !json_skips(text) {
        None
    } else {
        match between(text, '[', ']') {
            Some(inner) => {
                let items = items_in(inner);
                if items.len() <= names.len() {
                    Some(
                        Seq::new(
                            names.len(),
                            |i: int|
                                if i < items.len() {
                                    Some(read_inside(items[i], around))
                                } else {
                                    None
                                },
                        ),
                    )
                } else {
                    None
                }
            },
            None => match between(text, '{', '}') {
                Some(inner) => {
                    let members = items_in(inner);
                    if members_fit(members, names) {
                        Some(Seq::new(names.len(), |i: int| field_under(members, names[i], around)))
                    } else {
                        None
                    }
                },
                None => None,
            },
        }
    }
}

/// What fields that were read stand for.
pub open spec fn field_models(v: Seq<Option<Result<Json, String>>>) -> Seq<Option<JsonRead>> {
    v.map_values(
        |f: Option<Result<Json, String>>|
            match f {
                Some(r) => Some(read_model(r)),
                None => None,
            },
    )
}

fn key_of(member: &str) -> (r: Option<String>)
    ensures
        opt_text(r) == member_key(member@),
{
    let pieces = split_outer(member, ':');
    proof {
        assert(texts(pieces@)[0] == pieces@[0]@);
    }
    match parse_json(pieces[0].as_str()) {
        Ok(doc) => {
            proof {
                crate::json::lemma_json_view(doc);
            }
            match doc {
                Json::Str(k) => Some(k),
                _ => None,
            }
        },
        Err(_) => None,
    }
}

fn value_of(member: &str) -> (r: String)
    ensures
        r@ == member_value(member@),
{
    let pieces = split_outer(member, ':');
    proof {
        assert(texts(pieces@).len() == pieces@.len());
    }
    if pieces.len() > 1 {
        proof {
            assert(texts(pieces@)[1] == pieces@[1]@);
        }
        pieces[1].clone()
    } else {
        String::new()
    }
}

/// The keys of members, as they were read.
spec fn keys_read(members: Seq<Seq<char>>, keys: Seq<String>) -> bool {
    keys.len() == members.len() && forall|i: int|
        0 <= i < members.len() ==> member_key(#[trigger] members[i]) == Some(keys[i]@)
}

fn read_keys(members: &Vec<String>) -> (r: Option<Vec<String>>)
    ensures
        match r {
            Some(keys) => keys_read(texts(members@), keys@),
            None => exists|i: int|
                0 <= i < members@.len() && member_key(#[trigger] texts(members@)[i]) is None,
        },
{
    let ghost all = texts(members@);
    let mut keys: Vec<String> = Vec::new();
    let mut i: usize = 0;
    while i < members.len()
        invariant
            all == texts(members@),
            i <= members@.len(),
            keys@.len() == i,
            forall|k: int| 0 <= k < i ==> member_key(#[trigger] all[k]) == Some(keys@[k]@),
        decreases members@.len() - i,
    {
        proof {
            assert(all[i as int] == members@[i as int]@);
        }
        match key_of(members[i].as_str()) {
            Some(k) => {
                keys.push(k);
            },
            None => {
                return None;
            },
        }
        i = i + 1;
    }
    Some(keys)
}

fn read_under(members: &Vec<String>, keys: &Vec<String>, name: &str) -> (r: Vec<String>)
    requires
        keys_read(texts(members@), keys@),
    ensures
        texts(r@) == values_under(texts(members@), name@),
{
    let ghost all = texts(members@);
    let mut out: Vec<String> = Vec::new();
    let mut i: usize = 0;
    proof {
        assert(all.take(0) =~= Seq::<Seq<char>>::empty());
        assert(texts(out@) =~= Seq::<Seq<char>>::empty());
    }
    while i < members.len()
        invariant
            all == texts(members@),
            keys_read(all, keys@),
            i <= members@.len(),
            texts(out@) == values_under(all.take(i as int), name@),
        decreases members@.len() - i,
    {
        proof {
            assert(all[i as int] == members@[i as int]@);
            assert(all.take(i + 1).drop_last() =~= all.take(i as int));
            assert(all.take(i + 1).last() == all[i as int]);
        }
        if same(keys[i].as_str(), name) {
            let ghost before = out@;
            out.push(value_of(members[i].as_str()));
            proof {
                assert(texts(out@) =~= texts(before).push(member_value(all[i as int])));
            }
        }
        i = i + 1;
    }
    proof {
        assert(all.take(all.len() as int) =~= all);
    }
    out
}

fn read_members(members: &Vec<String>, names: &[&'static str], around: usize) -> (r: Option<
    Vec<Option<Result<Json, String>>>,
>)
    ensures
        match r {
            Some(fields) => members_fit(texts(members@), strs(names@)) && field_models(fields@)
                == Seq::new(
                strs(names@).len(),
                |i: int| field_under(texts(members@), strs(names@)[i], around as nat),
            ),
            None => !members_fit(texts(members@), strs(names@)),
        },
{
    let ghost all = texts(members@);
    let ghost wanted = strs(names@);
    let keys = match read_keys(members) {
        Some(keys) => keys,
        None => {
            return None;
        },
    };
    let mut out: Vec<Option<Result<Json, String>>> = Vec::new();
    let mut i: usize = 0;
    while i < names.len()
        invariant
            all == texts(members@),
            wanted == strs(names@),
            wanted.len() == names@.len(),
            keys_read(all, keys@),
            i <= names@.len(),
            out@.len() == i,
            forall|k: int| 0 <= k < i ==> values_under(all, #[trigger] wanted[k]).len() <= 1,
            forall|k: int|
                0 <= k < i ==> #[trigger] field_models(out@)[k] == field_under(all, wanted[k], around as nat),
        decreases names@.len() - i,
    {
        proof {
            assert(wanted[i as int] == names@[i as int]@);
        }
        let values = read_under(members, &keys, names[i]);
        proof {
            assert(texts(values@).len() == values@.len());
        }
        if values.len() > 1 {
            return None;
        }
        let ghost before = out@;
        if values.len() == 0 {
            out.push(None);
        } else {
            proof {
                assert(texts(values@)[0] == values@[0]@);
            }
            out.push(Some(parse_inside(values[0].as_str(), around)));
        }
        proof {
            assert forall|k: int| 0 <= k < i + 1 implies #[trigger] field_models(out@)[k]
                == field_under(all, wanted[k], around as nat) by {
                if k < i {
                    assert(out@[k] == before[k]);
                    assert(field_models(before)[k] == field_under(all, wanted[k], around as nat));
                }
            }
        }
        i = i + 1;
    }
    proof {
        assert(field_models(out@) =~= Seq::new(wanted.len(), |i: int| field_under(all, wanted[i], around as nat)));
    }
    Some(out)
}

/// Fields of a record by the order of their names, with `around` arrays and
/// objects open around them.
pub fn read_record(text: &str, names: &[&'static str], around: usize) -> (r: Option<
    Vec<Option<Result<Json, String>>>,
>)
    ensures
        match r {
            Some(fields) => record_fields(text@, strs(names@), around as nat) == Some(field_models(fields@)),
            None => record_fields(text@, strs(names@), around as nat) is None,
        },
{
    if !skips_text(text) {
        return None;
    }
    match text_between(text, '[', ']') {
        Some(inner) => {
            let items = split_items(inner.as_str());
            let ghost all = texts(items@);
            proof {
                assert(all.len() == items@.len());
                assert(strs(names@).len() == names@.len());
            }
            if items.len() > names.len() {
                return None;
            }
            let mut out: Vec<Option<Result<Json, String>>> = Vec::new();
            let mut i: usize = 0;
            while i < names.len()
                invariant
                    all == texts(items@),
                    i <= names@.len(),
                    out@.len() == i,
                    forall|k: int|
                        0 <= k < i ==> #[trigger] field_models(out@)[k] == (if k < all.len() {
                            Some(read_inside(all[k], around as nat))
                        } else {
                            None
                        }),
                decreases names@.len() - i,
            {
                let ghost before = out@;
                if i < items.len() {
                    proof {
                        assert(all[i as int] == items@[i as int]@);
                    }
                    out.push(Some(parse_inside(items[i].as_str(), around)));
                } else {
                    out.push(None);
                }
                proof {
                    assert forall|k: int| 0 <= k < i implies #[trigger] field_models(out@)[k]
                        == field_models(before)[k] by {
                        assert(out@[k] == before[k]);
                    }
                }
                i = i + 1;
            }
            proof {
                let wanted = record_fields(text@, strs(names@), around as nat)->0;
                assert(field_models(out@) =~= wanted);
            }
            Some(out)
        },
        None => match text_between(text, '{', '}') {
            Some(inner) => {
                let members = split_items(inner.as_str());
                read_members(&members, names, around)
            },
            None => None,
        },
    }
}

// ---------------------------------------------------------------------------
// Fields
// ---------------------------------------------------------------------------
/// A field that must be a text.
pub open spec fn text_field(field: Option<JsonRead>) -> Option<Seq<char>> {
    match field {
        Some(JsonRead::Document(v)) => v.as_str(),
        _ => None,
    }
}

/// A field that must be a whole number of 32 bits.
pub open spec fn whole_field(field: Option<JsonRead>) -> Option<int> {
    match field {
        Some(JsonRead::Document(v)) => match v.as_u64() {
            Some(n) => if n <= u32::MAX {
                Some(n)
            } else {
                None
            },
            None => None,
        },
        _ => None,
    }
}

/// Field that must be a text.
pub fn text_at(fields: &Vec<Option<Result<Json, String>>>, i: usize) -> (r: Option<String>)
    requires
        i < fields@.len(),
    ensures
        opt_text(r) == text_field(field_models(fields@)[i as int]),
{
    match &fields[i] {
        Some(Ok(v)) => match v.as_str() {
            Some(s) => Some(s.to_owned()),
            None => None,
        },
        _ => None,
    }
}

/// Field that must be a whole number of 32 bits.
pub fn whole_at(fields: &Vec<Option<Result<Json, String>>>, i: usize) -> (r: Option<u32>)
    requires
        i < fields@.len(),
    ensures
        match r {
            Some(n) => whole_field(field_models(fields@)[i as int]) == Some(n as int),
            None => whole_field(field_models(fields@)[i as int]) is None,
        },
{
    match &fields[i] {
        Some(Ok(v)) => match v.as_u64() {
            Some(n) => {
                if n <= 0xffff_ffff {
                    Some(n as u32)
                } else {
                    None
                }
            },
            None => None,
        },
        _ => None,
    }
}

} // verus!
