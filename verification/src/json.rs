//! JSON documents.
//!
//! `Json` is the value that the rules of this library read and build, and
//! `JsonModel` is what such a value stands for. The text form belongs to
//! `serde_json`: `parse_json` reads it and `pretty_json` writes it.

use vstd::prelude::*;

use crate::text::{decimal, decimal_of, digit, same};

verus! {

broadcast use vstd::string::group_string_axioms;

/// What a JSON value stands for.
pub enum JsonModel {
    Null,
    Bool(bool),
    /// A number written without fraction or exponent.
    Int(int),
    /// Any other number, as the shortest text that writes it.
    Float(Seq<char>),
    Str(Seq<char>),
    Array(Seq<JsonModel>),
    Object(Map<Seq<char>, JsonModel>),
}

/// A JSON value. Where an object repeats a key, the later entry counts.
pub enum Json {
    Null,
    Bool(bool),
    Unsigned(u64),
    Signed(i64),
    Float(String),
    Str(String),
    Array(Vec<Json>),
    Object(Vec<(String, Json)>),
}

/// The map that a list of entries writes: a later entry replaces an earlier one.
pub open spec fn object_map<V>(entries: Seq<(Seq<char>, V)>) -> Map<Seq<char>, V>
    decreases entries.len(),
{
    if entries.len() == 0 {
        Map::empty()
    } else {
        object_map(entries.drop_last()).insert(entries.last().0, entries.last().1)
    }
}

/// What a JSON value stands for.
pub open spec fn model_of(j: Json) -> JsonModel
    decreases j,
{
    match j {
        Json::Null => JsonModel::Null,
        Json::Bool(b) => JsonModel::Bool(b),
        Json::Unsigned(n) => JsonModel::Int(n as int),
        Json::Signed(n) => JsonModel::Int(n as int),
        Json::Float(t) => JsonModel::Float(t@),
        Json::Str(s) => JsonModel::Str(s@),
        Json::Array(items) => JsonModel::Array(models_of_items(items@)),
        Json::Object(entries) => JsonModel::Object(object_map(models_of_entries(entries@))),
    }
}

/// What a list of values stands for.
pub open spec fn models_of_items(items: Seq<Json>) -> Seq<JsonModel>
    decreases items,
{
    Seq::new(
        items.len(),
        |i: int|
            if 0 <= i < items.len() {
                model_of(items[i])
            } else {
                JsonModel::Null
            },
    )
}

/// What a list of entries stands for.
pub open spec fn models_of_entries(entries: Seq<(String, Json)>) -> Seq<(Seq<char>, JsonModel)>
    decreases entries,
{
    Seq::new(
        entries.len(),
        |i: int|
            if 0 <= i < entries.len() {
                (entries[i].0@, model_of(entries[i].1))
            } else {
                (Seq::<char>::empty(), JsonModel::Null)
            },
    )
}

impl View for Json {
    type V = JsonModel;

    open spec fn view(&self) -> JsonModel {
        model_of(*self)
    }
}

/// What a list of values stands for.
pub open spec fn json_items(items: Seq<Json>) -> Seq<JsonModel> {
    items.map_values(|j: Json| j@)
}

/// What a list of entries stands for.
pub open spec fn json_entries(entries: Seq<(String, Json)>) -> Seq<(Seq<char>, JsonModel)> {
    entries.map_values(|e: (String, Json)| (e.0@, e.1@))
}

pub proof fn lemma_json_view(j: Json)
    ensures
        j matches Json::Array(items) ==> j@ == JsonModel::Array(json_items(items@)),
        j matches Json::Object(entries) ==> j@ == JsonModel::Object(
            object_map(json_entries(entries@)),
        ),
{
    match j {
        Json::Array(items) => {
            assert(models_of_items(items@) =~= json_items(items@));
        },
        Json::Object(entries) => {
            assert(models_of_entries(entries@) =~= json_entries(entries@));
        },
        _ => {},
    }
}

/// A key of an object's map is the key of an entry, and holds the value of the last such entry.
pub proof fn lemma_object_map<V>(entries: Seq<(Seq<char>, V)>)
    ensures
        object_map(entries).dom().finite(),
        forall|k: Seq<char>| #[trigger]
            object_map(entries).contains_key(k) ==> exists|i: int|
                0 <= i < entries.len() && (#[trigger] entries[i]).0 == k && entries[i].1
                    == object_map(entries)[k] && forall|j: int|
                    i < j < entries.len() ==> (#[trigger] entries[j]).0 != k,
        forall|i: int|
            0 <= i < entries.len() ==> object_map(entries).contains_key((#[trigger] entries[i]).0),
    decreases entries.len(),
{
    if entries.len() > 0 {
        let init = entries.drop_last();
        lemma_object_map(init);
        assert forall|k: Seq<char>| #[trigger] object_map(entries).contains_key(k) implies exists|
            i: int,
        |
            0 <= i < entries.len() && (#[trigger] entries[i]).0 == k && entries[i].1 == object_map(
                entries,
            )[k] && forall|j: int| i < j < entries.len() ==> (#[trigger] entries[j]).0 != k by {
            if k == entries.last().0 {
                let i = entries.len() - 1;
                assert(entries[i].0 == k);
            } else {
                assert(object_map(init).contains_key(k));
                let i = choose|i: int|
                    0 <= i < init.len() && (#[trigger] init[i]).0 == k && init[i].1 == object_map(
                        init,
                    )[k] && forall|j: int| i < j < init.len() ==> (#[trigger] init[j]).0 != k;
                assert(entries[i] == init[i]);
                assert forall|j: int| i < j < entries.len() implies (#[trigger] entries[j]).0
                    != k by {
                    if j < entries.len() - 1 {
                        assert(init[j] == entries[j]);
                    }
                }
            }
        }
        assert forall|i: int| 0 <= i < entries.len() implies object_map(entries).contains_key(
            (#[trigger] entries[i]).0,
        ) by {
            if i < entries.len() - 1 {
                assert(init[i] == entries[i]);
            }
        }
    }
}

proof fn lemma_item_below(j: Json, items: Vec<Json>, i: int)
    requires
        j == Json::Array(items),
        0 <= i < items@.len(),
    ensures
        decreases_to!(j => items@[i]),
{
    match j {
        Json::Array(v) => {
            assert(decreases_to!(j => v));
            assert(decreases_to!(v => v@));
            assert(decreases_to!(v@ => v@[i]));
        },
        _ => {},
    }
}

proof fn lemma_entry_below(j: Json, entries: Vec<(String, Json)>, i: int)
    requires
        j == Json::Object(entries),
        0 <= i < entries@.len(),
    ensures
        decreases_to!(j => entries@[i].1),
{
    match j {
        Json::Object(v) => {
            assert(decreases_to!(j => v));
            assert(decreases_to!(v => v@));
            assert(decreases_to!(v@ => v@[i]));
            assert(decreases_to!(v@[i] => v@[i].1));
        },
        _ => {},
    }
}

impl JsonModel {
    /// The value under `key`, when this is an object that has it.
    pub open spec fn get(self, key: Seq<char>) -> Option<JsonModel> {
        match self {
            JsonModel::Object(m) => if m.contains_key(key) {
                Some(m[key])
            } else {
                None
            },
            _ => None,
        }
    }

    /// The text, when this is one.
    pub open spec fn as_str(self) -> Option<Seq<char>> {
        match self {
            JsonModel::Str(s) => Some(s),
            _ => None,
        }
    }

    /// The entries, when this is an object.
    pub open spec fn as_object(self) -> Option<Map<Seq<char>, JsonModel>> {
        match self {
            JsonModel::Object(m) => Some(m),
            _ => None,
        }
    }

    /// The items, when this is a list.
    pub open spec fn as_array(self) -> Option<Seq<JsonModel>> {
        match self {
            JsonModel::Array(items) => Some(items),
            _ => None,
        }
    }

    /// The truth value, when this is one.
    pub open spec fn as_bool(self) -> Option<bool> {
        match self {
            JsonModel::Bool(b) => Some(b),
            _ => None,
        }
    }

    /// The whole number, when this is one that an `i64` holds.
    pub open spec fn as_i64(self) -> Option<int> {
        match self {
            JsonModel::Int(n) => if i64::MIN <= n <= i64::MAX {
                Some(n)
            } else {
                None
            },
            _ => None,
        }
    }

    /// The whole number, when this is one that a `u64` holds.
    pub open spec fn as_u64(self) -> Option<int> {
        match self {
            JsonModel::Int(n) => if 0 <= n <= u64::MAX {
                Some(n)
            } else {
                None
            },
            _ => None,
        }
    }
}

/// The value that counts for `key` in a list of entries.
pub open spec fn entry_of(entries: Seq<(Seq<char>, JsonModel)>, key: Seq<char>) -> Option<JsonModel> {
    JsonModel::Object(object_map(entries)).get(key)
}

/// The value that counts for `key` in a list of entries.
pub fn entry_value<'a>(entries: &'a Vec<(String, Json)>, key: &str) -> (r: Option<&'a Json>)
    ensures
        match r {
            Some(v) => entry_of(json_entries(entries@), key@) == Some(v@) && exists|i: int|
                0 <= i < entries@.len() && entries@[i].1 == *v,
            None => entry_of(json_entries(entries@), key@) is None,
        },
{
    let ghost es = json_entries(entries@);
    proof {
        lemma_object_map(es);
    }
    let mut n: usize = entries.len();
    while n > 0
        invariant
            n <= entries@.len(),
            es == json_entries(entries@),
            forall|j: int| n <= j < es.len() ==> (#[trigger] es[j]).0 != key@,
            forall|k: Seq<char>| #[trigger]
                object_map(es).contains_key(k) ==> exists|i: int|
                    0 <= i < es.len() && (#[trigger] es[i]).0 == k && es[i].1 == object_map(es)[k]
                        && forall|j: int| i < j < es.len() ==> (#[trigger] es[j]).0 != k,
            forall|i: int|
                0 <= i < es.len() ==> object_map(es).contains_key((#[trigger] es[i]).0),
        decreases n,
    {
        let e = &entries[n - 1];
        proof {
            assert(es[n - 1] == (entries@[n - 1].0@, entries@[n - 1].1@));
        }
        if same(e.0.as_str(), key) {
            proof {
                assert(object_map(es).contains_key(key@));
                let i = choose|i: int|
                    0 <= i < es.len() && (#[trigger] es[i]).0 == key@ && es[i].1 == object_map(
                        es,
                    )[key@] && forall|j: int| i < j < es.len() ==> (#[trigger] es[j]).0 != key@;
                assert(i == n - 1);
                assert(entries@[n - 1].1 == e.1);
            }
            return Some(&e.1);
        }
        n = n - 1;
    }
    None
}

/// A list of entries that stands for the same.
pub fn copy_entries(entries: &Vec<(String, Json)>) -> (r: Vec<(String, Json)>)
    ensures
        json_entries(r@) == json_entries(entries@),
        entries_writable(entries@) ==> entries_writable(r@),
{
    let mut out: Vec<(String, Json)> = Vec::new();
    let mut i: usize = 0;
    while i < entries.len()
        invariant
            i <= entries@.len(),
            json_entries(out@) =~= json_entries(entries@).take(i as int),
            entries_writable(entries@) ==> entries_writable(out@),
        decreases entries@.len() - i,
    {
        let c = entries[i].1.copy();
        let ghost before = out@;
        out.push((entries[i].0.clone(), c));
        proof {
            assert(entries_writable(entries@) ==> writable(entries@[i as int].1));
            assert(json_entries(out@) =~= json_entries(before).push((entries@[i as int].0@, c@)));
        }
        i = i + 1;
    }
    proof {
        assert(json_entries(out@) =~= json_entries(entries@));
    }
    out
}

impl Json {
    /// The value under `key`, when this is an object that has it.
    pub fn get(&self, key: &str) -> (r: Option<&Json>)
        ensures
            match r {
                Some(v) => self@.get(key@) == Some(v@),
                None => self@.get(key@) is None,
            },
            r is Some && canonical(*self) ==> canonical(*r->0),
    {
        proof {
            lemma_json_view(*self);
        }
        match self {
            Json::Object(entries) => {
                let r = entry_value(entries, key);
                proof {
                    if r is Some && canonical(*self) {
                        let i = choose|i: int| 0 <= i < entries@.len() && entries@[i].1 == *r->0;
                        lemma_canonical(*self, i);
                    }
                }
                r
            },
            _ => None,
        }
    }

    /// The text, when this is one.
    pub fn as_str(&self) -> (r: Option<&str>)
        ensures
            match r {
                Some(s) => self@.as_str() == Some(s@),
                None => self@.as_str() is None,
            },
    {
        match self {
            Json::Str(s) => Some(s.as_str()),
            _ => None,
        }
    }

    /// The entries, when this is an object.
    pub fn as_object(&self) -> (r: Option<&Vec<(String, Json)>>)
        ensures
            match r {
                Some(es) => self@.as_object() == Some(object_map(json_entries(es@))) && (canonical(
                    *self,
                ) ==> keys_ascend(json_entries(es@))),
                None => self@.as_object() is None,
            },
    {
        proof {
            lemma_json_view(*self);
        }
        match self {
            Json::Object(es) => Some(es),
            _ => None,
        }
    }

    /// The items, when this is a list.
    pub fn as_array(&self) -> (r: Option<&Vec<Json>>)
        ensures
            match r {
                Some(items) => self@.as_array() == Some(json_items(items@)),
                None => self@.as_array() is None,
            },
    {
        proof {
            lemma_json_view(*self);
        }
        match self {
            Json::Array(items) => Some(items),
            _ => None,
        }
    }

    /// The truth value, when this is one.
    pub fn as_bool(&self) -> (r: Option<bool>)
        ensures
            r == self@.as_bool(),
    {
        match self {
            Json::Bool(b) => Some(*b),
            _ => None,
        }
    }

    /// The whole number, when this is one that an `i64` holds.
    pub fn as_i64(&self) -> (r: Option<i64>)
        ensures
            match r {
                Some(n) => self@.as_i64() == Some(n as int),
                None => self@.as_i64() is None,
            },
    {
        match self {
            Json::Unsigned(n) => {
                if *n <= 0x7fff_ffff_ffff_ffff {
                    Some(*n as i64)
                } else {
                    None
                }
            },
            Json::Signed(n) => Some(*n),
            _ => None,
        }
    }

    /// The whole number, when this is one that a `u64` holds.
    pub fn as_u64(&self) -> (r: Option<u64>)
        ensures
            match r {
                Some(n) => self@.as_u64() == Some(n as int),
                None => self@.as_u64() is None,
            },
    {
        match self {
            Json::Unsigned(n) => Some(*n),
            Json::Signed(n) => {
                if *n >= 0 {
                    Some(*n as u64)
                } else {
                    None
                }
            },
            _ => None,
        }
    }

    /// A value that stands for the same.
    pub fn copy(&self) -> (r: Json)
        ensures
            r@ == self@,
            writable(*self) ==> writable(r),
        decreases self,
    {
        match self {
            Json::Null => Json::Null,
            Json::Bool(b) => Json::Bool(*b),
            Json::Unsigned(n) => Json::Unsigned(*n),
            Json::Signed(n) => Json::Signed(*n),
            Json::Float(t) => Json::Float(t.clone()),
            Json::Str(s) => Json::Str(s.clone()),
            Json::Array(items) => {
                let mut out: Vec<Json> = Vec::new();
                let mut i: usize = 0;
                while i < items.len()
                    invariant
                        *self == Json::Array(*items),
                        i <= items@.len(),
                        json_items(out@) =~= json_items(items@).take(i as int),
                        writable(*self) ==> forall|k: int|
                            0 <= k < out@.len() ==> writable(#[trigger] out@[k]),
                    decreases items@.len() - i,
                {
                    proof {
                        lemma_item_below(*self, *items, i as int);
                        if writable(*self) {
                            lemma_writable(*self, i as int);
                        }
                    }
                    let c = items[i].copy();
                    let ghost before = out@;
                    out.push(c);
                    proof {
                        assert(json_items(out@) =~= json_items(before).push(c@));
                    }
                    i = i + 1;
                }
                proof {
                    assert(json_items(out@) =~= json_items(items@));
                    lemma_json_view(Json::Array(out));
                    lemma_json_view(*self);
                }
                Json::Array(out)
            },
            Json::Object(entries) => {
                let mut out: Vec<(String, Json)> = Vec::new();
                let mut i: usize = 0;
                while i < entries.len()
                    invariant
                        *self == Json::Object(*entries),
                        i <= entries@.len(),
                        json_entries(out@) =~= json_entries(entries@).take(i as int),
                        writable(*self) ==> forall|k: int|
                            0 <= k < out@.len() ==> writable((#[trigger] out@[k]).1),
                    decreases entries@.len() - i,
                {
                    proof {
                        lemma_entry_below(*self, *entries, i as int);
                        if writable(*self) {
                            lemma_writable(*self, i as int);
                        }
                    }
                    let c = entries[i].1.copy();
                    let ghost before = out@;
                    out.push((entries[i].0.clone(), c));
                    proof {
                        assert(json_entries(out@) =~= json_entries(before).push(
                            (entries@[i as int].0@, c@),
                        ));
                    }
                    i = i + 1;
                }
                proof {
                    assert(json_entries(out@) =~= json_entries(entries@));
                    lemma_json_view(Json::Object(out));
                    lemma_json_view(*self);
                }
                Json::Object(out)
            },
        }
    }
}

// ---------------------------------------------------------------------------
// serde_json
// ---------------------------------------------------------------------------
/// A `serde_json` value.
#[verifier::external_type_specification]
#[verifier::external_body]
pub struct ExValue(serde_json::Value);

/// What a `serde_json` value holds.
pub uninterp spec fn value_model(v: serde_json::Value) -> JsonModel;

/// What comes of reading a text as JSON.
pub enum JsonRead {
    Document(JsonModel),
    /// The description of what is wrong with the text.
    Failure(Seq<char>),
}

/// What `serde_json::from_str` reads out of a text: the document, or the
/// description of the error.
pub uninterp spec fn json_parse(text: Seq<char>) -> JsonRead;

/// The text that `serde_json::to_string_pretty` writes of a document.
pub uninterp spec fn json_pretty(doc: JsonModel) -> Seq<char>;

/// One layer of a `serde_json` value.
pub enum Layer {
    Null,
    Bool(bool),
    Unsigned(u64),
    Signed(i64),
    Float(String),
    Str(String),
    Array(Vec<serde_json::Value>),
    Object(Vec<(String, serde_json::Value)>),
}

/// What a list of `serde_json` values holds.
pub open spec fn value_models(items: Seq<serde_json::Value>) -> Seq<JsonModel> {
    items.map_values(|v: serde_json::Value| value_model(v))
}

/// What a list of entries of `serde_json` values holds.
pub open spec fn entry_models(entries: Seq<(String, serde_json::Value)>) -> Seq<
    (Seq<char>, JsonModel),
> {
    entries.map_values(|e: (String, serde_json::Value)| (e.0@, value_model(e.1)))
}

/// What a layer stands for.
pub open spec fn layer_model(layer: Layer) -> JsonModel {
    match layer {
        Layer::Null => JsonModel::Null,
        Layer::Bool(b) => JsonModel::Bool(b),
        Layer::Unsigned(n) => JsonModel::Int(n as int),
        Layer::Signed(n) => JsonModel::Int(n as int),
        Layer::Float(t) => JsonModel::Float(t@),
        Layer::Str(s) => JsonModel::Str(s@),
        Layer::Array(items) => JsonModel::Array(value_models(items@)),
        Layer::Object(entries) => JsonModel::Object(object_map(entry_models(entries@))),
    }
}

/// A number of hundredths as the shortest decimal text with a fraction: 150 is `1.5`, 100 is `1.0`.
pub open spec fn hundredths_text(n: nat) -> Seq<char> {
    let fraction = if n % 10 == 0 {
        seq![digit(n / 10 % 10)]
    } else {
        seq![digit(n / 10 % 10), digit(n % 10)]
    };
    decimal(n / 100) + seq!['.'] + fraction
}

/// A number of hundredths as the shortest decimal text with a fraction.
pub fn decimal_fraction(n: u32) -> (r: String)
    ensures
        r@ == hundredths_text(n as nat),
{
    let mut r: String = decimal_of((n / 100) as u64);
    r.push('.');
    r.push((48 + (n / 10 % 10) as u8) as char);
    if n % 10 != 0 {
        r.push((48 + (n % 10) as u8) as char);
    }
    proof {
        assert(r@ =~= hundredths_text(n as nat));
    }
    r
}

/// `t` writes a number of hundredths from 0 to 200.
pub open spec fn is_hundredths(t: Seq<char>) -> bool {
    exists|n: nat| n <= 200 && t == #[trigger] hundredths_text(n)
}

/// Every fraction in `doc` is a number of hundredths from 0 to 200, every
/// whole number fits `serde_json`'s 64-bit integers, and arrays and objects are
/// nested at most `depth` deep.
pub open spec fn plain(doc: JsonModel, depth: nat) -> bool
    decreases depth,
{
    match doc {
        JsonModel::Int(n) => i64::MIN <= n <= u64::MAX,
        JsonModel::Float(t) => is_hundredths(t),
        JsonModel::Array(items) => depth > 0 && forall|i: int|
            0 <= i < items.len() ==> plain(#[trigger] items[i], (depth - 1) as nat),
        JsonModel::Object(m) => depth > 0 && forall|k: Seq<char>| #[trigger]
            m.contains_key(k) ==> plain(m[k], (depth - 1) as nat),
        _ => true,
    }
}

/// `serde_json::from_str` into a `Value`: the document that the text writes,
/// or the error's own description.
#[verifier::external_body]
fn value_from_text(text: &str) -> (r: Result<serde_json::Value, String>)
    ensures
        match r {
            Ok(v) => json_parse(text@) == JsonRead::Document(value_model(v)),
            Err(e) => json_parse(text@) == JsonRead::Failure(e@),
        },
{
    serde_json::from_str::<serde_json::Value>(text).map_err(|e| e.to_string())
}

/// Takes a `serde_json::Value` apart by its variants. An object hands out its
/// entries in the order of `serde_json::Map`, which without the
/// `preserve_order` feature is the ascending order of the keys.
#[verifier::external_body]
fn open_value(v: serde_json::Value) -> (r: Layer)
    ensures
        layer_model(r) == value_model(v),
        r matches Layer::Object(entries) ==> keys_ascend(entry_models(entries@)),
{
    match v {
        serde_json::Value::Null => Layer::Null,
        serde_json::Value::Bool(b) => Layer::Bool(b),
        serde_json::Value::Number(n) => match (n.as_u64(), n.as_i64()) {
            (Some(u), _) => Layer::Unsigned(u),
            (None, Some(i)) => Layer::Signed(i),
            (None, None) => Layer::Float(n.to_string()),
        },
        serde_json::Value::String(s) => Layer::Str(s),
        serde_json::Value::Array(items) => Layer::Array(items),
        serde_json::Value::Object(map) => Layer::Object(map.into_iter().collect()),
    }
}

/// Builds a `serde_json::Value` of one layer: the inverse of taking it apart,
/// where a fraction is read by `serde_json::Number` from the text of a number
/// of hundredths.
#[verifier::external_body]
fn close_value(layer: Layer) -> (v: serde_json::Value)
    requires
        layer matches Layer::Float(t) ==> is_hundredths(t@),
    ensures
        value_model(v) == layer_model(layer),
{
    match layer {
        Layer::Null => serde_json::Value::Null,
        Layer::Bool(b) => serde_json::Value::Bool(b),
        Layer::Unsigned(n) => serde_json::Value::from(n),
        Layer::Signed(n) => serde_json::Value::from(n),
        Layer::Float(t) => t.parse().map(serde_json::Value::Number).unwrap_or_default(),
        Layer::Str(s) => serde_json::Value::String(s),
        Layer::Array(items) => serde_json::Value::Array(items),
        Layer::Object(entries) => serde_json::Value::Object(entries.into_iter().collect()),
    }
}

/// `serde_json::to_string_pretty` of a `Value`, which writes any `Value`. What
/// it writes of a plain document, nested less deep than the parser's limit of
/// 128, reads back as that document.
#[verifier::external_body]
fn value_to_text(v: &serde_json::Value) -> (r: Result<String, String>)
    ensures
        r is Ok,
        r->Ok_0@ == json_pretty(value_model(*v)),
        plain(value_model(*v), 100) ==> json_parse(r->Ok_0@) == JsonRead::Document(
            value_model(*v),
        ),
{
    serde_json::to_string_pretty(v).map_err(|e| e.to_string())
}

/// `a` stands before `b` in the order of texts by code point.
pub open spec fn text_before(a: Seq<char>, b: Seq<char>) -> bool
    decreases a.len(),
{
    if b.len() == 0 {
        false
    } else if a.len() == 0 {
        true
    } else if a[0] != b[0] {
        a[0] < b[0]
    } else {
        text_before(a.drop_first(), b.drop_first())
    }
}

/// The keys of the entries ascend.
pub open spec fn keys_ascend<V>(entries: Seq<(Seq<char>, V)>) -> bool {
    forall|i: int, j: int|
        0 <= i < j < entries.len() ==> text_before((#[trigger] entries[i]).0, (#[trigger] entries[j]).0)
}

/// Every object in `j` lists its keys in ascending order.
pub open spec fn canonical(j: Json) -> bool
    decreases j,
{
    match j {
        Json::Array(items) => forall|i: int| 0 <= i < items@.len() ==> canonical(#[trigger] items@[i]),
        Json::Object(entries) => {
            &&& keys_ascend(json_entries(entries@))
            &&& forall|i: int| 0 <= i < entries@.len() ==> canonical((#[trigger] entries@[i]).1)
        },
        _ => true,
    }
}

proof fn lemma_model_item_below(m: JsonModel, items: Seq<JsonModel>, i: int)
    requires
        m == JsonModel::Array(items),
        0 <= i < items.len(),
    ensures
        decreases_to!(m => items[i]),
{
    match m {
        JsonModel::Array(v) => {
            assert(decreases_to!(m => v));
            assert(decreases_to!(v => v[i]));
        },
        _ => {},
    }
}

proof fn lemma_model_entry_below(m: JsonModel, map: Map<Seq<char>, JsonModel>, k: Seq<char>)
    requires
        m == JsonModel::Object(map),
        map.dom().finite(),
        map.contains_key(k),
    ensures
        decreases_to!(m => map[k]),
{
    match m {
        JsonModel::Object(v) => {
            assert(decreases_to!(m => v));
            assert(decreases_to!(v => v[k]));
        },
        _ => {},
    }
}

pub proof fn lemma_canonical(j: Json, i: int)
    requires
        canonical(j),
    ensures
        j matches Json::Array(items) ==> (0 <= i < items@.len() ==> canonical(items@[i])),
        j matches Json::Object(entries) ==> (0 <= i < entries@.len() ==> canonical(entries@[i].1)),
{
    match j {
        Json::Array(items) => {
            assert(canonical(j));
        },
        Json::Object(entries) => {
            assert(canonical(j));
        },
        _ => {},
    }
}

/// The entries of an object in the order of their keys.
pub open spec fn ascending_entries(m: Map<Seq<char>, JsonModel>) -> Seq<(Seq<char>, JsonModel)> {
    choose|es: Seq<(Seq<char>, JsonModel)>| keys_ascend(es) && #[trigger] object_map(es) == m
}

proof fn lemma_text_before_transitive(a: Seq<char>, b: Seq<char>, c: Seq<char>)
    requires
        text_before(a, b),
        text_before(b, c),
    ensures
        text_before(a, c),
    decreases a.len(),
{
    if a.len() > 0 && b.len() > 0 && c.len() > 0 && a[0] == b[0] && b[0] == c[0] {
        lemma_text_before_transitive(a.drop_first(), b.drop_first(), c.drop_first());
    }
}

proof fn lemma_ascending_last<V>(es: Seq<(Seq<char>, V)>)
    requires
        keys_ascend(es),
        es.len() > 0,
    ensures
        keys_ascend(es.drop_last()),
        object_map(es.drop_last()) == object_map(es).remove(es.last().0),
{
    let init = es.drop_last();
    assert forall|i: int, j: int| 0 <= i < j < init.len() implies text_before(
        (#[trigger] init[i]).0,
        (#[trigger] init[j]).0,
    ) by {
        assert(init[i] == es[i] && init[j] == es[j]);
    }
    lemma_object_map(init);
    let k = es.last().0;
    if object_map(init).contains_key(k) {
        let i = choose|i: int|
            0 <= i < init.len() && (#[trigger] init[i]).0 == k && init[i].1 == object_map(init)[k]
                && forall|j: int| i < j < init.len() ==> (#[trigger] init[j]).0 != k;
        assert(text_before(es[i].0, es[es.len() - 1].0));
        lemma_text_before_irreflexive(k);
    }
    assert(object_map(init) =~= object_map(es).remove(k));
}

/// The order of the keys leaves one list of entries for a map.
pub proof fn lemma_ascending_unique<V>(a: Seq<(Seq<char>, V)>, b: Seq<(Seq<char>, V)>)
    requires
        keys_ascend(a),
        keys_ascend(b),
        object_map(a) == object_map(b),
    ensures
        a == b,
    decreases a.len(),
{
    lemma_object_map(a);
    lemma_object_map(b);
    if a.len() == 0 || b.len() == 0 {
        if a.len() > 0 {
            assert(object_map(a).contains_key(a[0].0));
        }
        if b.len() > 0 {
            assert(object_map(b).contains_key(b[0].0));
        }
        assert(a =~= b);
    } else {
        let ka = a.last().0;
        let kb = b.last().0;
        assert(object_map(b).contains_key(a[a.len() - 1].0));
        assert(object_map(a).contains_key(b[b.len() - 1].0));
        let j = choose|j: int|
            0 <= j < b.len() && (#[trigger] b[j]).0 == ka && b[j].1 == object_map(b)[ka] && forall|
                x: int,
            |
                j < x < b.len() ==> (#[trigger] b[x]).0 != ka;
        let i = choose|i: int|
            0 <= i < a.len() && (#[trigger] a[i]).0 == kb && a[i].1 == object_map(a)[kb] && forall|
                x: int,
            |
                i < x < a.len() ==> (#[trigger] a[x]).0 != kb;
        if ka != kb {
            assert(j < b.len() - 1);
            assert(text_before(b[j].0, b[b.len() - 1].0));
            assert(i < a.len() - 1);
            assert(text_before(a[i].0, a[a.len() - 1].0));
            lemma_text_before_transitive(ka, kb, ka);
            lemma_text_before_irreflexive(ka);
        }
        lemma_ascending_last(a);
        lemma_ascending_last(b);
        lemma_ascending_unique(a.drop_last(), b.drop_last());
        assert(object_map(a)[ka] == a.last().1);
        assert(object_map(b)[kb] == b.last().1);
        assert(a =~= a.drop_last().push(a.last()));
        assert(b =~= b.drop_last().push(b.last()));
    }
}

/// A list in the order of the keys is the list of its map.
pub proof fn lemma_ascending_entries(es: Seq<(Seq<char>, JsonModel)>)
    requires
        keys_ascend(es),
    ensures
        ascending_entries(object_map(es)) == es,
{
    lemma_ascending_unique(ascending_entries(object_map(es)), es);
}

/// The value that a `serde_json` value holds, its objects in the order of the keys.
fn read_value(v: serde_json::Value) -> (j: Json)
    ensures
        j@ == value_model(v),
        canonical(j),
    decreases value_model(v),
{
    let layer = open_value(v);
    match layer {
        Layer::Null => Json::Null,
        Layer::Bool(b) => Json::Bool(b),
        Layer::Unsigned(n) => Json::Unsigned(n),
        Layer::Signed(n) => Json::Signed(n),
        Layer::Float(t) => Json::Float(t),
        Layer::Str(s) => Json::Str(s),
        Layer::Array(items) => {
            let ghost models = value_models(items@);
            let mut out: Vec<Json> = Vec::new();
            for item in it: items
                invariant
                    value_model(v) == JsonModel::Array(models),
                    models == value_models(it.seq()),
                    json_items(out@) =~= models.take(it.index()),
                    forall|i: int| 0 <= i < out@.len() ==> canonical(#[trigger] out@[i]),
            {
                let ghost k = it.index();
                proof {
                    assert(models[k] == value_model(item));
                    lemma_model_item_below(value_model(v), models, k);
                }
                let j = read_value(item);
                let ghost before = out@;
                out.push(j);
                proof {
                    assert(json_items(out@) =~= json_items(before).push(j@));
                    assert(models.take(k + 1) =~= models.take(k).push(models[k]));
                }
            }
            proof {
                assert(json_items(out@) =~= models);
                lemma_json_view(Json::Array(out));
            }
            Json::Array(out)
        },
        Layer::Object(entries) => {
            let ghost models = entry_models(entries@);
            let mut out: Vec<(String, Json)> = Vec::new();
            proof {
                lemma_object_map(models);
            }
            for entry in it: entries
                invariant
                    value_model(v) == JsonModel::Object(object_map(models)),
                    object_map(models).dom().finite(),
                    keys_ascend(models),
                    models == entry_models(it.seq()),
                    json_entries(out@) =~= models.take(it.index()),
                    forall|i: int| 0 <= i < out@.len() ==> canonical((#[trigger] out@[i]).1),
            {
                let ghost k = it.index();
                let (key, val) = entry;
                proof {
                    assert(models[k] == (key@, value_model(val)));
                    lemma_ascending_entry(models, k);
                    lemma_model_entry_below(value_model(v), object_map(models), key@);
                }
                let j = read_value(val);
                let ghost before = out@;
                out.push((key, j));
                proof {
                    assert(json_entries(out@) =~= json_entries(before).push((key@, j@)));
                    assert(models.take(k + 1) =~= models.take(k).push(models[k]));
                }
            }
            proof {
                assert(json_entries(out@) =~= models);
                lemma_json_view(Json::Object(out));
            }
            Json::Object(out)
        },
    }
}

proof fn lemma_text_before_irreflexive(a: Seq<char>)
    ensures
        !text_before(a, a),
    decreases a.len(),
{
    if a.len() > 0 {
        lemma_text_before_irreflexive(a.drop_first());
    }
}

/// Where the keys ascend, each entry is the one that counts for its key.
proof fn lemma_ascending_entry<V>(entries: Seq<(Seq<char>, V)>, k: int)
    requires
        keys_ascend(entries),
        0 <= k < entries.len(),
    ensures
        object_map(entries).contains_key(entries[k].0),
        object_map(entries)[entries[k].0] == entries[k].1,
{
    lemma_object_map(entries);
    let key = entries[k].0;
    assert(object_map(entries).contains_key(key));
    let i = choose|i: int|
        0 <= i < entries.len() && (#[trigger] entries[i]).0 == key && entries[i].1 == object_map(
            entries,
        )[key] && forall|j: int| i < j < entries.len() ==> (#[trigger] entries[j]).0 != key;
    lemma_text_before_irreflexive(key);
    if i < k {
        assert(text_before(entries[i].0, entries[k].0));
    } else if k < i {
        assert(text_before(entries[k].0, entries[i].0));
    }
}

/// Every fraction in `j` is a number of hundredths from 0 to 200.
pub open spec fn writable(j: Json) -> bool
    decreases j,
{
    match j {
        Json::Float(t) => is_hundredths(t@),
        Json::Array(items) => forall|i: int| 0 <= i < items@.len() ==> writable(#[trigger] items@[i]),
        Json::Object(entries) => forall|i: int|
            0 <= i < entries@.len() ==> writable((#[trigger] entries@[i]).1),
        _ => true,
    }
}

/// Every value of the entries can be written.
pub open spec fn entries_writable(entries: Seq<(String, Json)>) -> bool {
    forall|i: int| 0 <= i < entries.len() ==> writable((#[trigger] entries[i]).1)
}

proof fn lemma_writable(j: Json, i: int)
    requires
        writable(j),
    ensures
        j matches Json::Array(items) ==> (0 <= i < items@.len() ==> writable(items@[i])),
        j matches Json::Object(entries) ==> (0 <= i < entries@.len() ==> writable(entries@[i].1)),
{
    match j {
        Json::Array(items) => {
            assert(writable(j));
        },
        Json::Object(entries) => {
            assert(writable(j));
        },
        _ => {},
    }
}

/// Texts, whole numbers and truth values can be written.
pub proof fn lemma_scalar_writable(j: Json)
    ensures
        j@ is Str || j@ is Int || j@ is Bool ==> writable(j),
{
}

/// The `serde_json` value of a document.
fn write_value(j: &Json) -> (v: serde_json::Value)
    requires
        writable(*j),
    ensures
        value_model(v) == j@,
    decreases j,
{
    proof {
        lemma_json_view(*j);
    }
    match j {
        Json::Null => close_value(Layer::Null),
        Json::Bool(b) => close_value(Layer::Bool(*b)),
        Json::Unsigned(n) => close_value(Layer::Unsigned(*n)),
        Json::Signed(n) => close_value(Layer::Signed(*n)),
        Json::Float(t) => close_value(Layer::Float(t.clone())),
        Json::Str(s) => close_value(Layer::Str(s.clone())),
        Json::Array(items) => {
            let mut out: Vec<serde_json::Value> = Vec::new();
            let mut i: usize = 0;
            while i < items.len()
                invariant
                    *j == Json::Array(*items),
                    writable(*j),
                    i <= items@.len(),
                    value_models(out@) =~= json_items(items@).take(i as int),
                decreases items@.len() - i,
            {
                proof {
                    lemma_item_below(*j, *items, i as int);
                    lemma_writable(*j, i as int);
                }
                let v = write_value(&items[i]);
                let ghost before = out@;
                out.push(v);
                proof {
                    assert(value_models(out@) =~= value_models(before).push(value_model(v)));
                }
                i = i + 1;
            }
            proof {
                assert(value_models(out@) =~= json_items(items@));
            }
            close_value(Layer::Array(out))
        },
        Json::Object(entries) => {
            let mut out: Vec<(String, serde_json::Value)> = Vec::new();
            let mut i: usize = 0;
            while i < entries.len()
                invariant
                    *j == Json::Object(*entries),
                    writable(*j),
                    i <= entries@.len(),
                    entry_models(out@) =~= json_entries(entries@).take(i as int),
                decreases entries@.len() - i,
            {
                proof {
                    lemma_entry_below(*j, *entries, i as int);
                    lemma_writable(*j, i as int);
                }
                let v = write_value(&entries[i].1);
                let ghost before = out@;
                out.push((entries[i].0.clone(), v));
                proof {
                    assert(entry_models(out@) =~= entry_models(before).push(
                        (entries@[i as int].0@, value_model(v)),
                    ));
                }
                i = i + 1;
            }
            proof {
                assert(entry_models(out@) =~= json_entries(entries@));
            }
            close_value(Layer::Object(out))
        },
    }
}

/// The document that a text writes, or the description of what is wrong with it.
pub fn parse_json(text: &str) -> (r: Result<Json, String>)
    ensures
        match r {
            Ok(j) => json_parse(text@) == JsonRead::Document(j@) && canonical(j),
            Err(e) => json_parse(text@) == JsonRead::Failure(e@),
        },
{
    match value_from_text(text) {
        Ok(v) => Ok(read_value(v)),
        Err(e) => Err(e),
    }
}

/// What a document that was read, or the description of its error, stands for.
pub open spec fn read_model(read: Result<Json, String>) -> JsonRead {
    match read {
        Ok(doc) => JsonRead::Document(doc@),
        Err(e) => JsonRead::Failure(e@),
    }
}

/// The indented text of a document. A plain document reads back from its text.
pub fn pretty_json(doc: &Json) -> (r: String)
    requires
        writable(*doc),
    ensures
        r@ == json_pretty(doc@),
        plain(doc@, 100) ==> json_parse(r@) == JsonRead::Document(doc@),
{
    let v = write_value(doc);
    match value_to_text(&v) {
        Ok(s) => s,
        Err(_) => String::new(),
    }
}

} // verus!
