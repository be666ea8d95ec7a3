//! JSON values as the gateway reads and builds them.
//!
//! The text form of a value is produced and parsed outside the library; here a value is a tree.

use vstd::prelude::*;

use crate::strs::{decimal, i64_string, same, signed_decimal, texts, u64_string};
use crate::table::{first_entry, lookup, no_entry, with_entry};

verus! {

/// A JSON number. A number with a fraction or an exponent keeps its text form.
#[derive(Debug, PartialEq, Eq)]
pub enum Number {
    Unsigned(u64),
    Negative(i64),
    Float(String),
}

/// A JSON value.
#[derive(Debug, PartialEq, Eq)]
pub enum Json {
    Null,
    Bool(bool),
    Number(Number),
    Str(String),
    Array(Vec<Json>),
    Object(Vec<(String, Json)>),
}

/// What a number holds.
#[verifier::ext_equal]
pub enum NumberV {
    Unsigned(u64),
    Negative(i64),
    Float(Seq<char>),
}

/// What a value holds. The members of an object are in a fixed order; where a name occurs more
/// than once, the first member with it counts.
#[verifier::ext_equal]
pub enum JsonV {
    Null,
    Bool(bool),
    Number(NumberV),
    Str(Seq<char>),
    Array(Seq<JsonV>),
    Object(Seq<(Seq<char>, JsonV)>),
}

/// The members of an object.
pub type Members = Seq<(Seq<char>, JsonV)>;

pub open spec fn number_view(n: Number) -> NumberV {
    match n {
        Number::Unsigned(u) => NumberV::Unsigned(u),
        Number::Negative(i) => NumberV::Negative(i),
        Number::Float(s) => NumberV::Float(s@),
    }
}

pub open spec fn json_view(j: Json) -> JsonV
    decreases j,
{
    match j {
        Json::Null => JsonV::Null,
        Json::Bool(b) => JsonV::Bool(b),
        Json::Number(n) => JsonV::Number(number_view(n)),
        Json::Str(s) => JsonV::Str(s@),
        Json::Array(v) => JsonV::Array(
            Seq::new(
                v@.len(),
                |i: int|
                    if 0 <= i < v@.len() {
                        json_view(v@[i])
                    } else {
                        JsonV::Null
                    },
            ),
        ),
        Json::Object(m) => JsonV::Object(
            Seq::new(
                m@.len(),
                |i: int|
                    if 0 <= i < m@.len() {
                        (m@[i].0@, json_view(m@[i].1))
                    } else {
                        (Seq::empty(), JsonV::Null)
                    },
            ),
        ),
    }
}

impl View for Json {
    type V = JsonV;

    open spec fn view(&self) -> JsonV {
        json_view(*self)
    }
}

impl DeepView for Json {
    type V = JsonV;

    open spec fn deep_view(&self) -> JsonV {
        json_view(*self)
    }
}

// ---------------------------------------------------------------------------------------------
// Reading
// ---------------------------------------------------------------------------------------------

/// The members of an object.
pub open spec fn members(v: JsonV) -> Option<Members> {
    match v {
        JsonV::Object(m) => Some(m),
        _ => None,
    }
}

/// The member of an object named `k`.
pub open spec fn field(v: JsonV, k: Seq<char>) -> Option<JsonV> {
    match v {
        JsonV::Object(m) => lookup(m, k),
        _ => None,
    }
}

/// The text of a string.
pub open spec fn text(v: JsonV) -> Option<Seq<char>> {
    match v {
        JsonV::Str(s) => Some(s),
        _ => None,
    }
}

/// The truth value of a boolean.
pub open spec fn truth(v: JsonV) -> Option<bool> {
    match v {
        JsonV::Bool(b) => Some(b),
        _ => None,
    }
}

/// The elements of an array.
pub open spec fn elements(v: JsonV) -> Option<Seq<JsonV>> {
    match v {
        JsonV::Array(s) => Some(s),
        _ => None,
    }
}

/// The value of an integer that an `i64` holds.
pub open spec fn signed(v: JsonV) -> Option<i64> {
    match v {
        JsonV::Number(NumberV::Unsigned(u)) => if u <= i64::MAX {
            Some(u as i64)
        } else {
            None
        },
        JsonV::Number(NumberV::Negative(i)) => Some(i),
        _ => None,
    }
}

/// The value of an integer that a `u64` holds.
pub open spec fn unsigned(v: JsonV) -> Option<u64> {
    match v {
        JsonV::Number(NumberV::Unsigned(u)) => Some(u),
        _ => None,
    }
}

/// The text of the string member named `k`.
pub open spec fn text_field(v: JsonV, k: Seq<char>) -> Option<Seq<char>> {
    match field(v, k) {
        Some(x) => text(x),
        None => None,
    }
}

/// The text of the string member named `k`, or `d` where there is none.
pub open spec fn text_field_or(v: JsonV, k: Seq<char>, d: Seq<char>) -> Seq<char> {
    match text_field(v, k) {
        Some(s) => s,
        None => d,
    }
}

/// The text of the string member named `k` of a list of members.
pub open spec fn text_of(m: Members, k: Seq<char>) -> Option<Seq<char>> {
    match lookup(m, k) {
        Some(x) => text(x),
        None => None,
    }
}

/// Whether the boolean member named `k` is true; `d` where there is none.
pub open spec fn truth_of_or(m: Members, k: Seq<char>, d: bool) -> bool {
    match lookup(m, k) {
        Some(JsonV::Bool(b)) => b,
        _ => d,
    }
}

/// The elements of the array member named `k`.
pub open spec fn elements_field(v: JsonV, k: Seq<char>) -> Option<Seq<JsonV>> {
    match field(v, k) {
        Some(x) => elements(x),
        None => None,
    }
}

/// What an array holds.
pub proof fn array_parts(v: Vec<Json>)
    ensures
        json_view(Json::Array(v)) == JsonV::Array(v.deep_view()),
{
    assert(json_view(Json::Array(v))->Array_0 =~= v.deep_view());
}

/// What an object holds.
pub proof fn object_parts(m: Vec<(String, Json)>)
    ensures
        json_view(Json::Object(m)) == JsonV::Object(m.deep_view()),
{
    assert(json_view(Json::Object(m))->Object_0 =~= m.deep_view());
}

/// The first entry named `key`.
pub fn get_entry<'a>(m: &'a Vec<(String, Json)>, key: &str) -> (r: Option<&'a Json>)
    ensures
        r.deep_view() == lookup(m.deep_view(), key@),
{
    let mut i: usize = 0;
    let ghost whole = m.deep_view();
    assert(whole.skip(0) == whole);
    while i < m.len()
        invariant
            i <= m@.len(),
            whole == m.deep_view(),
            lookup(whole, key@) == lookup(whole.skip(i as int), key@),
        decreases m@.len() - i,
    {
        assert(whole.skip(i as int)[0] == (m@[i as int].0@, m@[i as int].1@));
        if same(m[i].0.as_str(), key) {
            return Some(&m[i].1);
        }
        assert(whole.skip(i as int).drop_first() == whole.skip(i + 1));
        i = i + 1;
    }
    None
}

/// The text of the first entry named `key`, where it is a string.
pub fn get_entry_str<'a>(m: &'a Vec<(String, Json)>, key: &str) -> (r: Option<&'a str>)
    ensures
        r.deep_view() == text_of(m.deep_view(), key@),
{
    match get_entry(m, key) {
        Some(v) => v.as_str(),
        None => None,
    }
}

/// Whether the first entry named `key` is `true`; `d` where it is no boolean.
pub fn get_entry_bool_or(m: &Vec<(String, Json)>, key: &str, d: bool) -> (r: bool)
    ensures
        r == truth_of_or(m.deep_view(), key@, d),
{
    match get_entry(m, key) {
        Some(v) => match v.as_bool() {
            Some(b) => b,
            None => d,
        },
        None => d,
    }
}

impl Json {
    /// The member named `key`, where the value is an object that has one.
    pub fn get<'a>(&'a self, key: &str) -> (r: Option<&'a Json>)
        ensures
            r.deep_view() == field(self@, key@),
    {
        match self {
            Json::Object(m) => {
                proof {
                    object_parts(*m);
                }
                get_entry(m, key)
            },
            _ => None,
        }
    }

    /// The text, where the value is a string.
    pub fn as_str<'a>(&'a self) -> (r: Option<&'a str>)
        ensures
            r.deep_view() == text(self@),
    {
        match self {
            Json::Str(s) => Some(s.as_str()),
            _ => None,
        }
    }

    /// The truth value, where the value is a boolean.
    pub fn as_bool(&self) -> (r: Option<bool>)
        ensures
            r == truth(self@),
    {
        match self {
            Json::Bool(b) => Some(*b),
            _ => None,
        }
    }

    /// The value as an `i64`, where it is an integer in range.
    pub fn as_i64(&self) -> (r: Option<i64>)
        ensures
            r == signed(self@),
    {
        match self {
            Json::Number(Number::Unsigned(u)) => if *u <= i64::MAX as u64 {
                Some(*u as i64)
            } else {
                None
            },
            Json::Number(Number::Negative(i)) => Some(*i),
            _ => None,
        }
    }

    /// The value as a `u64`, where it is an integer in range.
    pub fn as_u64(&self) -> (r: Option<u64>)
        ensures
            r == unsigned(self@),
    {
        match self {
            Json::Number(Number::Unsigned(u)) => Some(*u),
            _ => None,
        }
    }

    /// The elements, where the value is an array.
    pub fn as_array<'a>(&'a self) -> (r: Option<&'a Vec<Json>>)
        ensures
            r.deep_view() == elements(self@),
    {
        match self {
            Json::Array(v) => {
                proof {
                    array_parts(*v);
                }
                Some(v)
            },
            _ => None,
        }
    }

    /// The members, where the value is an object.
    pub fn as_object<'a>(&'a self) -> (r: Option<&'a Vec<(String, Json)>>)
        ensures
            r.deep_view() == members(self@),
    {
        match self {
            Json::Object(m) => {
                proof {
                    object_parts(*m);
                }
                Some(m)
            },
            _ => None,
        }
    }

    /// The text of the member named `key`, where it is a string.
    pub fn get_str<'a>(&'a self, key: &str) -> (r: Option<&'a str>)
        ensures
            r.deep_view() == text_field(self@, key@),
    {
        match self.get(key) {
            Some(v) => v.as_str(),
            None => None,
        }
    }

    /// The text of the member named `key` as a new string, or `d` where it is no string.
    pub fn get_string_or(&self, key: &str, d: &str) -> (r: String)
        ensures
            r@ == text_field_or(self@, key@, d@),
    {
        match self.get_str(key) {
            Some(s) => s.to_owned(),
            None => d.to_owned(),
        }
    }

    /// The elements of the member named `key`, where it is an array.
    pub fn get_array<'a>(&'a self, key: &str) -> (r: Option<&'a Vec<Json>>)
        ensures
            r.deep_view() == elements_field(self@, key@),
    {
        match self.get(key) {
            Some(v) => v.as_array(),
            None => None,
        }
    }

    // -----------------------------------------------------------------------------------------
    // Building
    // -----------------------------------------------------------------------------------------

    /// A string.
    pub fn text(s: &str) -> (r: Json)
        ensures
            r@ == JsonV::Str(s@),
    {
        Json::Str(s.to_owned())
    }

    /// An unsigned integer.
    pub fn unsigned(n: u64) -> (r: Json)
        ensures
            r@ == JsonV::Number(NumberV::Unsigned(n)),
    {
        Json::Number(Number::Unsigned(n))
    }

    /// An integer.
    pub fn integer(n: i64) -> (r: Json)
        ensures
            r@ == integer_view(n),
    {
        if n < 0 {
            Json::Number(Number::Negative(n))
        } else {
            Json::Number(Number::Unsigned(n as u64))
        }
    }

    /// An array.
    pub fn array(v: Vec<Json>) -> (r: Json)
        ensures
            r@ == JsonV::Array(v.deep_view()),
    {
        proof {
            array_parts(v);
        }
        Json::Array(v)
    }

    /// An object.
    pub fn object(m: Vec<(String, Json)>) -> (r: Json)
        ensures
            r@ == JsonV::Object(m.deep_view()),
    {
        proof {
            object_parts(m);
        }
        Json::Object(m)
    }

    /// A copy of the value.
    pub fn dup(&self) -> (r: Json)
        ensures
            r@ == self@,
        decreases self,
    {
        match self {
            Json::Null => Json::Null,
            Json::Bool(b) => Json::Bool(*b),
            Json::Number(n) => Json::Number(
                match n {
                    Number::Unsigned(u) => Number::Unsigned(*u),
                    Number::Negative(i) => Number::Negative(*i),
                    Number::Float(s) => Number::Float(s.clone()),
                },
            ),
            Json::Str(s) => Json::Str(s.clone()),
            Json::Array(v) => {
                let mut out: Vec<Json> = Vec::new();
                let mut i: usize = 0;
                while i < v.len()
                    invariant
                        i <= v@.len(),
                        out@.len() == i,
                        *self == Json::Array(*v),
                        forall|k: int| 0 <= k < i ==> (#[trigger] out@[k])@ == v@[k]@,
                    decreases v@.len() - i,
                {
                    assert(decreases_to!(*self => self->Array_0@[i as int]));
                    out.push(v[i].dup());
                    i = i + 1;
                }
                proof {
                    array_parts(*v);
                    array_parts(out);
                    assert(out.deep_view() =~= v.deep_view());
                }
                Json::Array(out)
            },
            Json::Object(m) => {
                let mut out: Vec<(String, Json)> = Vec::new();
                let mut i: usize = 0;
                while i < m.len()
                    invariant
                        i <= m@.len(),
                        out@.len() == i,
                        *self == Json::Object(*m),
                        forall|k: int|
                            0 <= k < i ==> (#[trigger] out@[k]).0@ == m@[k].0@ && out@[k].1@
                                == m@[k].1@,
                    decreases m@.len() - i,
                {
                    let entry: &(String, Json) = &m[i];
                    assert(decreases_to!(*self => self->Object_0@[i as int].1));
                    out.push((entry.0.clone(), entry.1.dup()));
                    i = i + 1;
                }
                proof {
                    object_parts(*m);
                    object_parts(out);
                    assert(out.deep_view() =~= m.deep_view());
                }
                Json::Object(out)
            },
        }
    }
}

/// What an integer holds.
pub open spec fn integer_view(n: i64) -> JsonV {
    if n < 0 {
        JsonV::Number(NumberV::Negative(n))
    } else {
        JsonV::Number(NumberV::Unsigned(n as u64))
    }
}

/// Appends a member to a list of members.
pub fn push_field(m: &mut Vec<(String, Json)>, key: &str, value: Json)
    ensures
        final(m).deep_view() == old(m).deep_view().push((key@, value@)),
{
    m.push((key.to_owned(), value));
    assert(m.deep_view() =~= old(m).deep_view().push((key@, value@)));
}

/// The members with one more, in the place of the one with the same name where there is one.
pub fn put_field(m: Vec<(String, Json)>, key: &str, value: Json) -> (r: Vec<(String, Json)>)
    ensures
        r.deep_view() == with_entry(m.deep_view(), key@, value@),
{
    let ghost before = m.deep_view();
    let mut out: Vec<(String, Json)> = m;
    let mut i: usize = 0;
    while i < out.len()
        invariant
            i <= out@.len(),
            before == m.deep_view(),
            before == out.deep_view(),
            forall|j: int| 0 <= j < i ==> (#[trigger] before[j]).0 != key@,
        decreases out@.len() - i,
    {
        assert(before[i as int].0 == out@[i as int].0@);
        if same(out[i].0.as_str(), key) {
            proof {
                first_entry(before, key@, i as int);
            }
            out.set(i, (key.to_owned(), value));
            assert(out.deep_view() =~= before.update(i as int, (key@, value@)));
            return out;
        }
        i = i + 1;
    }
    proof {
        no_entry(before, key@);
    }
    push_field(&mut out, key, value);
    out
}

/// A copy of a list of members.
pub fn dup_entries(m: &Vec<(String, Json)>) -> (r: Vec<(String, Json)>)
    ensures
        r.deep_view() == m.deep_view(),
{
    let mut out: Vec<(String, Json)> = Vec::new();
    let mut i: usize = 0;
    while i < m.len()
        invariant
            i <= m@.len(),
            out@.len() == i,
            forall|k: int|
                0 <= k < i ==> (#[trigger] out@[k]).0@ == m@[k].0@ && out@[k].1@ == m@[k].1@,
        decreases m@.len() - i,
    {
        let entry: &(String, Json) = &m[i];
        out.push((entry.0.clone(), entry.1.dup()));
        i = i + 1;
    }
    assert(out.deep_view() =~= m.deep_view());
    out
}

/// A copy of an optional value.
pub fn dup_option(v: Option<&Json>) -> (r: Option<Json>)
    ensures
        r.deep_view() == v.deep_view(),
{
    match v {
        Some(x) => Some(x.dup()),
        None => None,
    }
}

/// The value that stands for an optional member: `null` where there is none.
pub open spec fn or_null(v: Option<JsonV>) -> JsonV {
    match v {
        Some(x) => x,
        None => JsonV::Null,
    }
}

/// The value that stands for an optional member: `null` where there is none.
pub fn dup_or_null(v: Option<&Json>) -> (r: Json)
    ensures
        r@ == or_null(v.deep_view()),
{
    match v {
        Some(x) => x.dup(),
        None => Json::Null,
    }
}

/// The object with one member.
pub fn object1(k1: &str, v1: Json) -> (r: Json)
    ensures
        r@ == JsonV::Object(seq![(k1@, v1@)]),
{
    let mut m: Vec<(String, Json)> = Vec::new();
    push_field(&mut m, k1, v1);
    assert(m.deep_view() =~= seq![(k1@, v1@)]);
    Json::object(m)
}

/// The object with two members.
pub fn object2(k1: &str, v1: Json, k2: &str, v2: Json) -> (r: Json)
    ensures
        r@ == JsonV::Object(seq![(k1@, v1@), (k2@, v2@)]),
{
    let mut m: Vec<(String, Json)> = Vec::new();
    push_field(&mut m, k1, v1);
    push_field(&mut m, k2, v2);
    assert(m.deep_view() =~= seq![(k1@, v1@), (k2@, v2@)]);
    Json::object(m)
}

/// The object with three members.
pub fn object3(k1: &str, v1: Json, k2: &str, v2: Json, k3: &str, v3: Json) -> (r: Json)
    ensures
        r@ == JsonV::Object(seq![(k1@, v1@), (k2@, v2@), (k3@, v3@)]),
{
    let mut m: Vec<(String, Json)> = Vec::new();
    push_field(&mut m, k1, v1);
    push_field(&mut m, k2, v2);
    push_field(&mut m, k3, v3);
    assert(m.deep_view() =~= seq![(k1@, v1@), (k2@, v2@), (k3@, v3@)]);
    Json::object(m)
}

/// The list of one value.
pub fn one_value(v: Json) -> (r: Vec<Json>)
    ensures
        r.deep_view() == seq![v@],
{
    let mut r: Vec<Json> = Vec::new();
    r.push(v);
    assert(r.deep_view() =~= seq![v@]);
    r
}

/// The array of texts.
pub open spec fn text_array(v: Seq<Seq<char>>) -> JsonV {
    JsonV::Array(v.map_values(|s: Seq<char>| JsonV::Str(s)))
}

/// The array of texts.
pub fn texts_to_json(v: &Vec<String>) -> (r: Json)
    ensures
        r@ == text_array(texts(v@)),
{
    let ghost all = texts(v@);
    let ghost f = |s: Seq<char>| JsonV::Str(s);
    let mut out: Vec<Json> = Vec::new();
    let mut i: usize = 0;
    assert(out.deep_view() =~= all.take(0).map_values(f));
    while i < v.len()
        invariant
            i <= v@.len(),
            all == texts(v@),
            f == |s: Seq<char>| JsonV::Str(s),
            out.deep_view() == all.take(i as int).map_values(f),
        decreases v@.len() - i,
    {
        let ghost before = out.deep_view();
        out.push(Json::text(v[i].as_str()));
        proof {
            assert(out.deep_view() =~= before.push(JsonV::Str(all[i as int])));
            assert(out.deep_view() =~= all.take(i + 1).map_values(f));
        }
        i = i + 1;
    }
    assert(all.take(all.len() as int) == all);
    Json::array(out)
}

/// The text form of a number or a boolean.
pub open spec fn scalar(v: JsonV) -> Option<Seq<char>> {
    match v {
        JsonV::Bool(b) => Some(
            if b {
                "true"@
            } else {
                "false"@
            },
        ),
        JsonV::Number(NumberV::Unsigned(u)) => Some(decimal(u as nat)),
        JsonV::Number(NumberV::Negative(i)) => Some(signed_decimal(i as int)),
        JsonV::Number(NumberV::Float(s)) => Some(s),
        _ => None,
    }
}

/// The text form of a number or a boolean.
pub fn scalar_text(v: &Json) -> (r: Option<String>)
    ensures
        r.deep_view() == scalar(v@),
{
    match v {
        Json::Bool(b) => if *b {
            Some("true".to_owned())
        } else {
            Some("false".to_owned())
        },
        Json::Number(Number::Unsigned(u)) => Some(u64_string(*u)),
        Json::Number(Number::Negative(i)) => Some(i64_string(*i)),
        Json::Number(Number::Float(s)) => Some(s.clone()),
        _ => None,
    }
}

/// The member `b` of the member `a`.
pub open spec fn field2(v: JsonV, a: Seq<char>, b: Seq<char>) -> Option<JsonV> {
    match field(v, a) {
        Some(x) => field(x, b),
        None => None,
    }
}

impl Json {
    /// The member `b` of the member `a`.
    pub fn get2<'a>(&'a self, a: &str, b: &str) -> (r: Option<&'a Json>)
        ensures
            r.deep_view() == field2(self@, a@, b@),
    {
        match self.get(a) {
            Some(x) => x.get(b),
            None => None,
        }
    }

    /// The text of the member named `key`; the empty text where it is no string.
    pub fn get_string(&self, key: &str) -> (r: String)
        ensures
            r@ == text_field_or(self@, key@, Seq::empty()),
    {
        match self.get_str(key) {
            Some(s) => s.to_owned(),
            None => String::new(),
        }
    }
}

} // verus!
