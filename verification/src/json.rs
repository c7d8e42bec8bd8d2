//! JSON values as the decisions here read them.

use crate::text::{lemma_precedes_total, text_precedes};
use serde_json::Value;
use vstd::prelude::*;
use vstd::string::*;

verus! {

/// A JSON number by the form it was read in.
#[verifier::ext_equal]
pub enum JsonNumber {
    Natural(u64),
    Negative(i64),
    /// The bit pattern of a binary64 number.
    Fraction(u64),
}

/// What a JSON value holds.
#[verifier::ext_equal]
pub enum Json {
    Null,
    Bool(bool),
    Number(JsonNumber),
    Text(Seq<char>),
    Array(Seq<Json>),
    Object(Map<Seq<char>, Json>),
}

#[verifier::external_type_specification]
#[verifier::external_body]
pub struct ExValue(Value);

/// What a `serde_json` value holds.
pub uninterp spec fn json_of(v: Value) -> Json;

/// The value a text spells in JSON, where it is well formed.
pub uninterp spec fn parsed_json(text: Seq<char>) -> Option<Json>;

/// The compact JSON bytes of a value.
pub uninterp spec fn json_bytes(v: Json) -> Seq<u8>;

impl Json {
    /// The member of an object, or null where there is none.
    pub open spec fn member(self, key: Seq<char>) -> Json {
        match self {
            Json::Object(m) => if m.contains_key(key) {
                m[key]
            } else {
                Json::Null
            },
            _ => Json::Null,
        }
    }

    /// Whether the value is an object with a member of that name.
    pub open spec fn has(self, key: Seq<char>) -> bool {
        self is Object && self->Object_0.contains_key(key)
    }

    /// The text of a string value.
    pub open spec fn text(self) -> Option<Seq<char>> {
        match self {
            Json::Text(s) => Some(s),
            _ => None,
        }
    }

    /// The value of a natural number.
    pub open spec fn natural(self) -> Option<u64> {
        match self {
            Json::Number(JsonNumber::Natural(n)) => Some(n),
            _ => None,
        }
    }
}

/// `serde_json::from_str` into a `Value`: claimed to succeed exactly on the
/// texts that `parsed_json` gives a value, with that value.
#[verifier::external_body]
pub(crate) fn parse(text: &str) -> (r: Option<Value>)
    ensures
        r is Some <==> parsed_json(text@) is Some,
        r is Some ==> json_of(r->0) == parsed_json(text@)->0,
{
    serde_json::from_str::<Value>(text).ok()
}

/// `serde_json::to_vec` of a `Value`: claimed to be a function of what the
/// value holds, since an object keeps its members in the order of their names.
#[verifier::external_body]
pub(crate) fn to_bytes(v: &Value) -> (r: Vec<u8>)
    ensures
        r@ == json_bytes(json_of(*v)),
{
    serde_json::to_vec(v).unwrap_or_default()
}

/// `Value::get` by name: claimed to give the member of an object, and nothing
/// for any other value.
#[verifier::external_body]
pub(crate) fn get<'a>(v: &'a Value, key: &str) -> (r: Option<&'a Value>)
    ensures
        r is Some <==> json_of(*v).has(key@),
        r is Some ==> json_of(*r->0) == json_of(*v).member(key@),
{
    v.get(key)
}

/// `Value::as_str`: claimed to give the text of a string value only.
#[verifier::external_body]
pub(crate) fn as_text(v: &Value) -> (r: Option<&str>)
    ensures
        r is Some <==> json_of(*v).text() is Some,
        r is Some ==> r->0@ == json_of(*v).text()->0,
{
    v.as_str()
}

/// `Value::as_u64`: claimed to give the value of a natural number only.
#[verifier::external_body]
pub(crate) fn as_natural(v: &Value) -> (r: Option<u64>)
    ensures
        r == json_of(*v).natural(),
{
    v.as_u64()
}

/// `Value::as_array`: claimed to give the items of an array in order.
#[verifier::external_body]
pub(crate) fn as_items(v: &Value) -> (r: Option<&Vec<Value>>)
    ensures
        r is Some <==> json_of(*v) is Array,
        r is Some ==> r->0@.len() == json_of(*v)->Array_0.len(),
        r is Some ==> forall|i: int|
            0 <= i < r->0@.len() ==> json_of(#[trigger] r->0@[i]) == json_of(*v)->Array_0[i],
{
    v.as_array()
}

/// `Value::is_null`: claimed to be true of null only.
#[verifier::external_body]
pub(crate) fn is_null(v: &Value) -> (r: bool)
    ensures
        r == (json_of(*v) is Null),
{
    v.is_null()
}

/// `Value::is_object`: claimed to be true of objects only.
#[verifier::external_body]
pub(crate) fn is_object(v: &Value) -> (r: bool)
    ensures
        r == (json_of(*v) is Object),
{
    v.is_object()
}

/// `Value::clone`: claimed to hold what the original holds.
#[verifier::external_body]
pub(crate) fn copy(v: &Value) -> (r: Value)
    ensures
        json_of(r) == json_of(*v),
{
    v.clone()
}

/// Assignment through `IndexMut<&str>`: claimed to set the one member of an
/// object and to leave the others. It panics on a value that is neither an
/// object nor null, which `requires` leaves out.
#[verifier::external_body]
pub(crate) fn set_member(v: &mut Value, key: &str, value: Value)
    requires
        json_of(*old(v)) is Object,
    ensures
        json_of(*final(v)) == Json::Object(json_of(*old(v))->Object_0.insert(key@, json_of(value))),
{
    v[key] = value;
}

/// `Value::String`: claimed to hold exactly the text.
#[verifier::external_body]
pub(crate) fn text_value(s: String) -> (r: Value)
    ensures
        json_of(r) == Json::Text(s@),
{
    Value::String(s)
}

/// `Value::Array` of a vector: claimed to hold what the items hold, in order.
#[verifier::external_body]
pub(crate) fn array_value(items: Vec<Value>) -> (r: Value)
    ensures
        json_of(r) == Json::Array(Seq::new(items@.len(), |i: int| json_of(items@[i]))),
{
    Value::Array(items)
}

/// `Value::from` of a `u64`: claimed to hold that natural number.
#[verifier::external_body]
pub(crate) fn natural_value(n: u64) -> (r: Value)
    ensures
        json_of(r) == Json::Number(JsonNumber::Natural(n)),
{
    Value::from(n)
}

/// `Value::from` of a `bool`: claimed to hold that truth value.
#[verifier::external_body]
pub(crate) fn bool_value(b: bool) -> (r: Value)
    ensures
        json_of(r) == Json::Bool(b),
{
    Value::from(b)
}

/// `Value::Object` of `Map::new`: claimed to hold an object without members.
#[verifier::external_body]
pub(crate) fn object_value() -> (r: Value)
    ensures
        json_of(r) == Json::Object(Map::empty()),
{
    Value::Object(serde_json::Map::new())
}

/// The compact JSON text of a value.
pub uninterp spec fn json_text(v: Json) -> Seq<char>;

/// `Value::to_string`: claimed to be a function of what the value holds, since
/// an object keeps its members in the order of their names.
#[verifier::external_body]
pub(crate) fn to_text(v: &Value) -> (r: String)
    ensures
        r@ == json_text(json_of(*v)),
{
    v.to_string()
}

/// A value as one line of output.
pub fn line_of(v: &Value) -> (r: String)
    ensures
        r@ == json_text(json_of(*v)) + "\n"@,
{
    let mut line: String = to_text(v);
    line.append("\n");
    line
}

/// The text of a member, where it is a string.
pub(crate) fn member_text<'a>(v: &'a Value, key: &str) -> (r: Option<&'a str>)
    ensures
        r is Some <==> json_of(*v).member(key@).text() is Some,
        r is Some ==> r->0@ == json_of(*v).member(key@).text()->0,
{
    match get(v, key) {
        Some(inner) => as_text(inner),
        None => None,
    }
}

/// The value of a member that is a natural number, else zero.
pub(crate) fn member_natural(v: &Value, key: &str) -> (r: u64)
    ensures
        r == natural_or_zero(json_of(*v).member(key@)),
{
    match get(v, key) {
        Some(inner) => match as_natural(inner) {
            Some(n) => n,
            None => 0,
        },
        None => 0,
    }
}

/// The value of a natural number, else zero.
pub open spec fn natural_or_zero(v: Json) -> u64 {
    match v.natural() {
        Some(n) => n,
        None => 0,
    }
}

/// Whether a list holds each member of an object once, in the order of the
/// names.
pub open spec fn lists_members(
    list: Seq<(Seq<char>, Json)>,
    members: Map<Seq<char>, Json>,
) -> bool {
    &&& forall|i: int, j: int|
        0 <= i < j < list.len() ==> text_precedes((#[trigger] list[i]).0, (#[trigger] list[j]).0)
    &&& forall|i: int|
        0 <= i < list.len() ==> members.contains_key((#[trigger] list[i]).0) && members[list[i].0]
            == list[i].1
    &&& forall|key: Seq<char>| #[trigger]
        members.contains_key(key) ==> exists|i: int|
            0 <= i < list.len() && (#[trigger] list[i]).0 == key
}

/// The members of an object in the order of their names.
pub open spec fn member_list(members: Map<Seq<char>, Json>) -> Seq<(Seq<char>, Json)> {
    choose|list: Seq<(Seq<char>, Json)>| lists_members(list, members)
}

/// What named values hold.
pub open spec fn named_views(list: Seq<(String, Value)>) -> Seq<(Seq<char>, Json)> {
    Seq::new(list.len(), |i: int| (list[i].0@, json_of(list[i].1)))
}

proof fn lemma_lists_agree(
    one: Seq<(Seq<char>, Json)>,
    other: Seq<(Seq<char>, Json)>,
    members: Map<Seq<char>, Json>,
    n: int,
)
    requires
        lists_members(one, members),
        lists_members(other, members),
        0 <= n <= one.len(),
    ensures
        n <= other.len(),
        one.take(n) == other.take(n),
    decreases n,
{
    if n == 0 {
        assert(one.take(0) =~= other.take(0));
    } else {
        let i = n - 1;
        lemma_lists_agree(one, other, members, i);
        assert forall|m: int| 0 <= m < i implies one[m] == other[m] by {
            assert(one.take(i)[m] == other.take(i)[m]);
        }
        let key = one[i].0;
        assert(members.contains_key(key));
        let j = choose|j: int| 0 <= j < other.len() && (#[trigger] other[j]).0 == key;
        if j < i {
            lemma_precedes_total(one[j].0, one[i].0);
        }
        let mirrored = other[i].0;
        assert(members.contains_key(mirrored));
        let m = choose|m: int| 0 <= m < one.len() && (#[trigger] one[m]).0 == mirrored;
        if m < i {
            lemma_precedes_total(other[m].0, other[i].0);
        }
        if j > i && m > i {
            lemma_precedes_total(other[i].0, other[j].0);
            assert(text_precedes(one[i].0, one[m].0));
        }
        assert(one[i].0 == other[i].0);
        assert(one.take(n) =~= other.take(n));
    }
}

/// An object's members can be listed in the order of their names in one way
/// only.
pub proof fn lemma_one_member_list(
    one: Seq<(Seq<char>, Json)>,
    other: Seq<(Seq<char>, Json)>,
    members: Map<Seq<char>, Json>,
)
    requires
        lists_members(one, members),
        lists_members(other, members),
    ensures
        one == other,
{
    lemma_lists_agree(one, other, members, one.len() as int);
    lemma_lists_agree(other, one, members, other.len() as int);
    assert(one.take(one.len() as int) =~= one);
    assert(other.take(other.len() as int) =~= other);
}

/// `Value::Object` and `Map::into_iter`: claimed to give each member of an
/// object once, in the order of the names, and nothing for any other value.
/// The names are ordered by their UTF-8 bytes, which is the order of their
/// characters.
#[verifier::external_body]
fn object_entries(v: &Value) -> (r: Option<Vec<(String, Value)>>)
    ensures
        r is Some <==> json_of(*v) is Object,
        r is Some ==> lists_members(named_views(r->0@), json_of(*v)->Object_0),
{
    match v {
        Value::Object(members) => Some(members.clone().into_iter().collect()),
        _ => None,
    }
}

/// The members of an object in the order of their names.
pub fn members(v: &Value) -> (r: Option<Vec<(String, Value)>>)
    ensures
        r is Some <==> json_of(*v) is Object,
        r is Some ==> named_views(r->0@) == member_list(json_of(*v)->Object_0),
        r is Some ==> lists_members(named_views(r->0@), json_of(*v)->Object_0),
{
    let r: Option<Vec<(String, Value)>> = object_entries(v);
    proof {
        if r is Some {
            let held = json_of(*v)->Object_0;
            lemma_one_member_list(named_views(r->0@), member_list(held), held);
        }
    }
    r
}

} // verus!
