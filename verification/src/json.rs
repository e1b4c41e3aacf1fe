//! JSON values as the ACP wire carries them: a plain model the protocol logic
//! is stated over, and the bridge to and from `serde_json`.

use vstd::prelude::*;

verus! {

// --- the model ---------------------------------------------------------------

/// A JSON number as `serde_json` keeps it: a non-negative integer, a negative
/// integer, or a float (held as the text `serde_json` prints for it).
pub enum NumberModel {
    PosInt(u64),
    NegInt(i64),
    Float(Seq<char>),
}

/// A JSON value.
pub enum JsonModel {
    Null,
    Bool(bool),
    Number(NumberModel),
    Str(Seq<char>),
    Array(Seq<JsonModel>),
    /// Entries in document order; `serde_json` yields each key once.
    Object(Seq<(Seq<char>, JsonModel)>),
}

/// Nesting depth: 0 for a scalar, one more than the deepest member for an
/// array or object.
pub open spec fn json_depth(m: JsonModel) -> nat
    decreases m,
{
    match m {
        JsonModel::Array(items) => 1 + items_depth(items),
        JsonModel::Object(entries) => 1 + entries_depth(entries),
        _ => 0,
    }
}

pub open spec fn items_depth(s: Seq<JsonModel>) -> nat
    decreases s,
{
    if s.len() == 0 {
        0
    } else {
        let a = json_depth(s[s.len() - 1]);
        let b = items_depth(s.subrange(0, s.len() - 1));
        if a > b { a } else { b }
    }
}

pub open spec fn entries_depth(s: Seq<(Seq<char>, JsonModel)>) -> nat
    decreases s,
{
    if s.len() == 0 {
        0
    } else {
        let a = json_depth(s[s.len() - 1].1);
        let b = entries_depth(s.subrange(0, s.len() - 1));
        if a > b { a } else { b }
    }
}

pub proof fn lemma_items_depth(s: Seq<JsonModel>, i: int)
    requires
        0 <= i < s.len(),
    ensures
        json_depth(s[i]) <= items_depth(s),
    decreases s.len(),
{
    if i < s.len() - 1 {
        lemma_items_depth(s.subrange(0, s.len() - 1), i);
    }
}

pub proof fn lemma_entries_depth(s: Seq<(Seq<char>, JsonModel)>, i: int)
    requires
        0 <= i < s.len(),
    ensures
        json_depth(s[i].1) <= entries_depth(s),
    decreases s.len(),
{
    if i < s.len() - 1 {
        lemma_entries_depth(s.subrange(0, s.len() - 1), i);
    }
}

/// The value stored under `key`: the first entry with that key.
pub open spec fn entries_get(s: Seq<(Seq<char>, JsonModel)>, key: Seq<char>) -> Option<JsonModel>
    decreases s.len(),
{
    if s.len() == 0 {
        None
    } else if s[0].0 == key {
        Some(s[0].1)
    } else {
        entries_get(s.drop_first(), key)
    }
}

/// `value.get(key)` in `serde_json`'s sense: `None` for anything but an object.
pub open spec fn model_get(m: JsonModel, key: Seq<char>) -> Option<JsonModel> {
    match m {
        JsonModel::Object(entries) => entries_get(entries, key),
        _ => None,
    }
}

pub proof fn lemma_entries_get_depth(s: Seq<(Seq<char>, JsonModel)>, key: Seq<char>)
    ensures
        entries_get(s, key) matches Some(v) ==> json_depth(v) <= entries_depth(s),
    decreases s.len(),
{
    if s.len() > 0 {
        lemma_entries_depth(s, 0);
        if s[0].0 != key {
            lemma_entries_get_depth(s.drop_first(), key);
            assert forall|i: int| 0 <= i < s.drop_first().len() implies json_depth(
                s.drop_first()[i].1,
            ) <= entries_depth(s) by {
                lemma_entries_depth(s, i + 1);
            }
            lemma_entries_depth_bound(s.drop_first(), entries_depth(s));
        }
    }
}

pub proof fn lemma_entries_depth_bound(s: Seq<(Seq<char>, JsonModel)>, b: nat)
    requires
        forall|i: int| 0 <= i < s.len() ==> json_depth(#[trigger] s[i].1) <= b,
    ensures
        entries_depth(s) <= b,
    decreases s.len(),
{
    if s.len() > 0 {
        let init = s.subrange(0, s.len() - 1);
        assert forall|i: int| 0 <= i < init.len() implies json_depth(#[trigger] init[i].1) <= b by {
            assert(init[i] == s[i]);
        }
        lemma_entries_depth_bound(init, b);
    }
}

/// A member of an object is strictly shallower than the object.
pub proof fn lemma_get_shallower(m: JsonModel, key: Seq<char>)
    ensures
        model_get(m, key) matches Some(v) ==> json_depth(v) < json_depth(m),
{
    if let JsonModel::Object(entries) = m {
        lemma_entries_get_depth(entries, key);
    }
}

pub open spec fn model_as_str(m: JsonModel) -> Option<Seq<char>> {
    match m {
        JsonModel::Str(s) => Some(s),
        _ => None,
    }
}

pub open spec fn model_as_u64(m: JsonModel) -> Option<u64> {
    match m {
        JsonModel::Number(NumberModel::PosInt(u)) => Some(u),
        _ => None,
    }
}

pub open spec fn model_as_i64(m: JsonModel) -> Option<i64> {
    match m {
        JsonModel::Number(NumberModel::PosInt(u)) => if u <= i64::MAX { Some(u as i64) } else { None },
        JsonModel::Number(NumberModel::NegInt(i)) => Some(i),
        _ => None,
    }
}

// --- executable values -------------------------------------------------------

#[derive(Debug, Clone, PartialEq)]
pub enum JsonNumber {
    PosInt(u64),
    NegInt(i64),
    Float(String),
}

impl View for JsonNumber {
    type V = NumberModel;

    open spec fn view(&self) -> NumberModel {
        match self {
            JsonNumber::PosInt(u) => NumberModel::PosInt(*u),
            JsonNumber::NegInt(i) => NumberModel::NegInt(*i),
            JsonNumber::Float(t) => NumberModel::Float(t@),
        }
    }
}

/// A JSON value the protocol logic can read and build.
#[derive(Debug)]
pub enum Json {
    Null,
    Bool(bool),
    Number(JsonNumber),
    Str(String),
    Array(Vec<Json>),
    Object(Vec<(String, Json)>),
}

pub open spec fn json_view(j: Json) -> JsonModel
    decreases j,
{
    match j {
        Json::Null => JsonModel::Null,
        Json::Bool(b) => JsonModel::Bool(b),
        Json::Number(n) => JsonModel::Number(n@),
        Json::Str(s) => JsonModel::Str(s@),
        Json::Array(items) => JsonModel::Array(items_view(items@)),
        Json::Object(entries) => JsonModel::Object(entries_view(entries@)),
    }
}

pub open spec fn items_view(s: Seq<Json>) -> Seq<JsonModel>
    decreases s,
{
    if s.len() == 0 {
        Seq::empty()
    } else {
        items_view(s.subrange(0, s.len() - 1)).push(json_view(s[s.len() - 1]))
    }
}

pub open spec fn entries_view(s: Seq<(String, Json)>) -> Seq<(Seq<char>, JsonModel)>
    decreases s,
{
    if s.len() == 0 {
        Seq::empty()
    } else {
        entries_view(s.subrange(0, s.len() - 1)).push((s[s.len() - 1].0@, json_view(s[s.len() - 1].1)))
    }
}

pub proof fn lemma_items_view(s: Seq<Json>)
    ensures
        items_view(s).len() == s.len(),
        forall|i: int| 0 <= i < s.len() ==> #[trigger] items_view(s)[i] == json_view(s[i]),
    decreases s.len(),
{
    if s.len() > 0 {
        lemma_items_view(s.subrange(0, s.len() - 1));
    }
}

pub proof fn lemma_entries_view(s: Seq<(String, Json)>)
    ensures
        entries_view(s).len() == s.len(),
        forall|i: int| 0 <= i < s.len() ==> #[trigger] entries_view(s)[i] == (s[i].0@, json_view(s[i].1)),
    decreases s.len(),
{
    if s.len() > 0 {
        lemma_entries_view(s.subrange(0, s.len() - 1));
    }
}

impl View for Json {
    type V = JsonModel;

    open spec fn view(&self) -> JsonModel {
        json_view(*self)
    }
}

/// `str == str`.
#[verifier::external_body]
pub(crate) fn str_eq(a: &str, b: &str) -> (r: bool)
    ensures
        r == (a@ == b@),
{
    a == b
}

impl Json {
    /// A copy with the same value.
    pub fn duplicate(&self) -> (r: Json)
        ensures
            r@ == self@,
        decreases json_depth(self@),
    {
        match self {
            Json::Null => Json::Null,
            Json::Bool(b) => Json::Bool(*b),
            Json::Number(n) => Json::Number(
                match n {
                    JsonNumber::PosInt(u) => JsonNumber::PosInt(*u),
                    JsonNumber::NegInt(i) => JsonNumber::NegInt(*i),
                    JsonNumber::Float(t) => JsonNumber::Float(t.clone()),
                },
            ),
            Json::Str(t) => Json::Str(t.clone()),
            Json::Array(items) => {
                let mut out: Vec<Json> = Vec::new();
                let mut i: usize = 0;
                while i < items.len()
                    invariant
                        i <= items@.len(),
                        out@.len() == i,
                        json_depth(self@) == 1 + items_depth(items_view(items@)),
                        forall|k: int| 0 <= k < i ==> (#[trigger] out@[k])@ == items@[k]@,
                    decreases items@.len() - i,
                {
                    proof {
                        lemma_items_view(items@);
                        lemma_items_depth(items_view(items@), i as int);
                    }
                    let c = items[i].duplicate();
                    out.push(c);
                    i = i + 1;
                }
                proof {
                    lemma_items_view(out@);
                    lemma_items_view(items@);
                    assert(items_view(out@) =~= items_view(items@));
                }
                Json::Array(out)
            },
            Json::Object(entries) => {
                let mut out: Vec<(String, Json)> = Vec::new();
                let mut i: usize = 0;
                while i < entries.len()
                    invariant
                        i <= entries@.len(),
                        out@.len() == i,
                        json_depth(self@) == 1 + entries_depth(entries_view(entries@)),
                        forall|k: int| 0 <= k < i ==> (#[trigger] out@[k]).0@ == entries@[k].0@ && out@[k].1@ == entries@[k].1@,
                    decreases entries@.len() - i,
                {
                    proof {
                        lemma_entries_view(entries@);
                        lemma_entries_depth(entries_view(entries@), i as int);
                    }
                    let c = entries[i].1.duplicate();
                    out.push((entries[i].0.clone(), c));
                    i = i + 1;
                }
                proof {
                    lemma_entries_view(out@);
                    lemma_entries_view(entries@);
                    assert(entries_view(out@) =~= entries_view(entries@));
                }
                Json::Object(out)
            },
        }
    }

    /// The value stored under `key` in an object; `None` for a missing key or
    /// for anything that is not an object.
    pub fn get(&self, key: &str) -> (r: Option<&Json>)
        ensures
            match r {
                Some(v) => model_get(self@, key@) == Some(v@),
                None => model_get(self@, key@) is None,
            },
    {
        match self {
            Json::Object(entries) => {
                proof { lemma_entries_view(entries@); }
                let ghost es = entries_view(entries@);
                let mut i: usize = 0;
                assert(es.skip(0) =~= es);
                while i < entries.len()
                    invariant
                        i <= entries@.len(),
                        es == entries_view(entries@),
                        model_get(self@, key@) == entries_get(es, key@),
                        es.len() == entries@.len(),
                        forall|k: int| 0 <= k < es.len() ==> #[trigger] es[k] == (entries@[k].0@, json_view(entries@[k].1)),
                        entries_get(es, key@) == entries_get(es.skip(i as int), key@),
                    decreases entries@.len() - i,
                {
                    let ghost rest = es.skip(i as int);
                    assert(rest[0] == es[i as int]);
                    assert(rest.drop_first() =~= es.skip(i + 1));
                    if str_eq(entries[i].0.as_str(), key) {
                        assert(rest[0].0 == key@);
                        return Some(&entries[i].1);
                    }
                    i = i + 1;
                }
                assert(es.skip(i as int) =~= Seq::<(Seq<char>, JsonModel)>::empty());
                None
            },
            _ => None,
        }
    }

    pub fn as_str(&self) -> (r: Option<&str>)
        ensures
            match r {
                Some(s) => model_as_str(self@) == Some(s@),
                None => model_as_str(self@) is None,
            },
    {
        match self {
            Json::Str(s) => Some(s.as_str()),
            _ => None,
        }
    }

    pub fn as_u64(&self) -> (r: Option<u64>)
        ensures
            r == model_as_u64(self@),
    {
        match self {
            Json::Number(JsonNumber::PosInt(u)) => Some(*u),
            _ => None,
        }
    }

    pub fn as_i64(&self) -> (r: Option<i64>)
        ensures
            r == model_as_i64(self@),
    {
        match self {
            Json::Number(JsonNumber::PosInt(u)) => if *u <= 0x7fff_ffff_ffff_ffffu64 { Some(*u as i64) } else { None },
            Json::Number(JsonNumber::NegInt(i)) => Some(*i),
            _ => None,
        }
    }

    pub fn as_array(&self) -> (r: Option<&Vec<Json>>)
        ensures
            match r {
                Some(items) => self@ == JsonModel::Array(items_view(items@)),
                None => !(self@ is Array),
            },
    {
        match self {
            Json::Array(items) => Some(items),
            _ => None,
        }
    }

    pub fn is_null(&self) -> (r: bool)
        ensures
            r == (self@ is Null),
    {
        match self {
            Json::Null => true,
            _ => false,
        }
    }

    pub fn is_object(&self) -> (r: bool)
        ensures
            r == (self@ is Object),
    {
        match self {
            Json::Object(_) => true,
            _ => false,
        }
    }

    pub fn str(s: &str) -> (j: Json)
        ensures
            j@ == JsonModel::Str(s@),
    {
        Json::Str(s.to_string())
    }

    pub fn boolean(b: bool) -> (j: Json)
        ensures
            j@ == JsonModel::Bool(b),
    {
        Json::Bool(b)
    }

    pub fn integer(i: i64) -> (j: Json)
        ensures
            j@ == (if i >= 0 { JsonModel::Number(NumberModel::PosInt(i as u64)) } else {
                JsonModel::Number(NumberModel::NegInt(i))
            }),
    {
        if i >= 0 {
            Json::Number(JsonNumber::PosInt(i as u64))
        } else {
            Json::Number(JsonNumber::NegInt(i))
        }
    }

    /// An object with the given entries, in order.
    pub fn object(entries: Vec<(String, Json)>) -> (j: Json)
        ensures
            j@ == JsonModel::Object(entries_view(entries@)),
    {
        Json::Object(entries)
    }

    /// An array with the given items, in order.
    pub fn array(items: Vec<Json>) -> (j: Json)
        ensures
            j@ == JsonModel::Array(items_view(items@)),
    {
        Json::Array(items)
    }

    pub fn uint(u: u64) -> (j: Json)
        ensures
            j@ == JsonModel::Number(NumberModel::PosInt(u)),
    {
        Json::Number(JsonNumber::PosInt(u))
    }

    /// The compact text of this value.
    pub fn to_text(&self) -> (s: String)
        ensures
            s@ == json_written(self@),
            forall|i: int| 0 <= i < s@.len() ==> s@[i] != '\n',
    {
        serde_to_string(self)
    }
}


// --- the bridge from serde_json ---------------------------------------------

#[verifier::external_type_specification]
#[verifier::external_body]
pub struct ExSerdeJsonValue(serde_json::Value);

#[verifier::external_type_specification]
#[verifier::external_body]
pub struct ExSerdeJsonError(serde_json::Error);

#[verifier::external_type_specification]
#[verifier::external_body]
pub struct ExSerdeJsonNumber(serde_json::Number);

/// What a `serde_json::Value` holds.
pub uninterp spec fn json_of(v: serde_json::Value) -> JsonModel;

/// What `serde_json::from_str::<Value>` reads from a text: `None` when it
/// refuses the text.
pub uninterp spec fn json_parse(text: Seq<char>) -> Option<JsonModel>;

/// One level of a `serde_json::Value`: its scalar, or its members still as
/// `serde_json` values.
pub enum ValueShape<'a> {
    Null,
    Bool(bool),
    Number(JsonNumber),
    Str(&'a str),
    Array(&'a Vec<serde_json::Value>),
    Object(Vec<(&'a str, &'a serde_json::Value)>),
}

/// Reads one level of a `serde_json::Value` by matching on its variants. A
/// number is read as `serde_json` stores it: `as_u64` for a non-negative
/// integer, `as_i64` for a negative one, otherwise its printed float text.
/// Object members come in the map's iteration order.
#[verifier::external_body]
fn value_shape(v: &serde_json::Value) -> (s: ValueShape<'_>)
    ensures
        match s {
            ValueShape::Null => json_of(*v) == JsonModel::Null,
            ValueShape::Bool(b) => json_of(*v) == JsonModel::Bool(b),
            ValueShape::Number(n) => json_of(*v) == JsonModel::Number(n@),
            ValueShape::Str(t) => json_of(*v) == JsonModel::Str(t@),
            ValueShape::Array(items) => json_of(*v) == JsonModel::Array(
                items@.map_values(|x: serde_json::Value| json_of(x)),
            ),
            ValueShape::Object(es) => json_of(*v) == JsonModel::Object(
                es@.map_values(|e: (&str, &serde_json::Value)| (e.0@, json_of(*e.1))),
            ),
        },
{
    match v {
        serde_json::Value::Null => ValueShape::Null,
        serde_json::Value::Bool(b) => ValueShape::Bool(*b),
        serde_json::Value::Number(n) => ValueShape::Number(number_shape(n)),
        serde_json::Value::String(t) => ValueShape::Str(t.as_str()),
        serde_json::Value::Array(items) => ValueShape::Array(items),
        serde_json::Value::Object(map) => ValueShape::Object(
            map.iter().map(|(k, x)| (k.as_str(), x)).collect(),
        ),
    }
}

/// A `serde_json::Number` as this library holds numbers: `as_u64` when it is a
/// non-negative integer, `as_i64` when a negative one, otherwise its `Display`
/// text. [`value_shape`] states what the result means.
#[verifier::external_body]
fn number_shape(n: &serde_json::Number) -> JsonNumber {
    match (n.as_u64(), n.as_i64()) {
        (Some(u), _) => JsonNumber::PosInt(u),
        (None, Some(i)) => JsonNumber::NegInt(i),
        (None, None) => JsonNumber::Float(n.to_string()),
    }
}

/// The text `serde_json::to_string` writes for a value holding `m`: compact,
/// with the members of an object in the order of their keys.
pub uninterp spec fn json_written(m: JsonModel) -> Seq<char>;

/// The `serde_json` number a number stands for.
#[verifier::external_body]
fn serde_number(n: &JsonNumber) -> serde_json::Value {
    match n {
        JsonNumber::PosInt(u) => serde_json::Value::from(*u),
        JsonNumber::NegInt(i) => serde_json::Value::from(*i),
        JsonNumber::Float(t) => serde_json::from_str(t).unwrap_or(serde_json::Value::Null),
    }
}

/// The `serde_json` value holding what `j` holds, member for member.
#[verifier::external_body]
fn serde_value(j: &Json) -> serde_json::Value {
    match j {
        Json::Null => serde_json::Value::Null,
        Json::Bool(b) => serde_json::Value::Bool(*b),
        Json::Number(n) => serde_number(n),
        Json::Str(s) => serde_json::Value::String(s.clone()),
        Json::Array(items) => serde_json::Value::Array(items.iter().map(serde_value).collect()),
        Json::Object(entries) => serde_json::Value::Object(entries.iter().map(|(k, v)| (k.clone(), serde_value(v))).collect()),
    }
}

/// `serde_json::to_string` of `j`. Writing a `Value` cannot fail: its map keys
/// are strings. Its compact output holds no raw newline: whitespace is never
/// written, and a newline inside a string is escaped.
#[verifier::external_body]
fn serde_to_string(j: &Json) -> (s: String)
    ensures
        s@ == json_written(j@),
        forall|i: int| 0 <= i < s@.len() ==> s@[i] != '\n',
{
    serde_json::to_string(&serde_value(j)).unwrap_or_default()
}

/// `serde_json::from_str::<Value>`. What it reads is named by [`json_parse`];
/// its parser refuses nesting of 128 containers or more.
#[verifier::external_body]
fn serde_from_str(text: &str) -> (r: Result<serde_json::Value, serde_json::Error>)
    ensures
        match r {
            Ok(v) => json_parse(text@) == Some(json_of(v)) && json_depth(json_of(v)) < 128,
            Err(_) => json_parse(text@) is None,
        },
{
    serde_json::from_str(text)
}

/// The `Display` text of a `serde_json` error. Nothing is promised of it.
#[verifier::external_body]
fn serde_error_text(e: &serde_json::Error) -> String {
    e.to_string()
}

/// The deepest nesting the converter follows; `serde_json` never yields more.
pub const JSON_NESTING_LIMIT: usize = 128;

/// Copies a `serde_json` value into a [`Json`], following at most `fuel`
/// levels of nesting.
fn from_serde(v: &serde_json::Value, fuel: usize) -> (r: Option<Json>)
    ensures
        r matches Some(j) ==> j@ == json_of(*v),
        json_depth(json_of(*v)) < fuel ==> r is Some,
    decreases fuel,
{
    if fuel == 0 {
        return None;
    }
    match value_shape(v) {
        ValueShape::Null => Some(Json::Null),
        ValueShape::Bool(b) => Some(Json::Bool(b)),
        ValueShape::Number(n) => Some(Json::Number(n)),
        ValueShape::Str(t) => Some(Json::Str(t.to_string())),
        ValueShape::Array(items) => {
            let ghost m = items@.map_values(|x: serde_json::Value| json_of(x));
            let mut out: Vec<Json> = Vec::new();
            let mut i: usize = 0;
            while i < items.len()
                invariant
                    i <= items@.len(),
                    fuel > 0,
                    m == items@.map_values(|x: serde_json::Value| json_of(x)),
                    json_of(*v) == JsonModel::Array(m),
                    out@.len() == i,
                    forall|k: int| 0 <= k < i ==> (#[trigger] out@[k])@ == m[k],
                decreases items@.len() - i,
            {
                let child = from_serde(&items[i], fuel - 1);
                match child {
                    Some(c) => out.push(c),
                    None => {
                        proof { lemma_items_depth(m, i as int); }
                        return None;
                    },
                }
                i = i + 1;
            }
            proof {
                lemma_items_view(out@);
                assert(items_view(out@) =~= m);
            }
            Some(Json::Array(out))
        },
        ValueShape::Object(es) => {
            let ghost m = es@.map_values(|e: (&str, &serde_json::Value)| (e.0@, json_of(*e.1)));
            let mut out: Vec<(String, Json)> = Vec::new();
            let mut i: usize = 0;
            while i < es.len()
                invariant
                    i <= es@.len(),
                    fuel > 0,
                    m == es@.map_values(|e: (&str, &serde_json::Value)| (e.0@, json_of(*e.1))),
                    json_of(*v) == JsonModel::Object(m),
                    out@.len() == i,
                    forall|k: int| 0 <= k < i ==> (#[trigger] out@[k]).0@ == m[k].0 && out@[k].1@ == m[k].1,
                decreases es@.len() - i,
            {
                let (key, value) = es[i];
                let child = from_serde(value, fuel - 1);
                match child {
                    Some(c) => out.push((key.to_string(), c)),
                    None => {
                        proof { lemma_entries_depth(m, i as int); }
                        return None;
                    },
                }
                i = i + 1;
            }
            proof {
                lemma_entries_view(out@);
                assert(entries_view(out@) =~= m);
            }
            Some(Json::Object(out))
        },
    }
}

/// Parses a JSON text, or says why it is not one (in `serde_json`'s words).
pub fn parse_text(text: &str) -> (r: Result<Json, String>)
    ensures
        match r {
            Ok(j) => json_parse(text@) == Some(j@),
            Err(_) => json_parse(text@) is None,
        },
{
    match serde_from_str(text) {
        Ok(v) => {
            match from_serde(&v, JSON_NESTING_LIMIT) {
                Some(j) => Ok(j),
                None => {
                    assert(false);
                    Err(String::new())
                },
            }
        },
        Err(e) => Err(serde_error_text(&e)),
    }
}

impl Json {
    /// Parses a JSON text; `None` when it is not one.
    pub fn parse(text: &str) -> (r: Option<Json>)
        ensures
            match r {
                Some(j) => json_parse(text@) == Some(j@),
                None => json_parse(text@) is None,
            },
    {
        match parse_text(text) {
            Ok(j) => Some(j),
            Err(_) => None,
        }
    }
}

} // verus!
