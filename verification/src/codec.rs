//! The passage between JSON text and [`Json`]: `serde_json` parses and
//! prints, and the values it hands over are taken apart and put together
//! here.
use crate::json::{
    entries_view, finite_bits, items_view, lemma_entries_push, lemma_items_push, lemma_items_view,
    FiniteFloat, Json, JsonV, Num,
};
use vstd::prelude::*;

verus! {

broadcast use vstd::string::group_string_axioms;

#[verifier::external_type_specification]
#[verifier::external_body]
pub struct ExValue(serde_json::Value);

#[verifier::external_type_specification]
#[verifier::external_body]
pub struct ExNumber(serde_json::Number);

#[verifier::external_type_specification]
#[verifier::external_body]
#[verifier::reject_recursive_types(K)]
#[verifier::reject_recursive_types(V)]
pub struct ExMap<K, V>(serde_json::Map<K, V>);

/// What a `serde_json::Value` holds.
pub uninterp spec fn value_content(v: serde_json::Value) -> JsonV;

/// What a `serde_json::Number` holds: an integer or a float's pattern.
pub uninterp spec fn number_content(n: serde_json::Number) -> JsonV;

/// What a `serde_json` object holds.
pub uninterp spec fn map_content(
    m: serde_json::Map<String, serde_json::Value>,
) -> Map<Seq<char>, JsonV>;

/// What `serde_json` reads out of a text, or `None` where it refuses it.
pub uninterp spec fn json_of_text(s: Seq<char>) -> Option<JsonV>;

/// What `serde_json` reads out of bytes, or `None` where it refuses them.
pub uninterp spec fn json_of_bytes(s: Seq<u8>) -> Option<JsonV>;

/// What `serde_json` says of bytes it refuses.
pub uninterp spec fn json_complaint(s: Seq<u8>) -> Seq<char>;

/// The text that `serde_json` prints for a value.
pub uninterp spec fn json_text(v: JsonV) -> Seq<char>;

/// The contents of array items.
pub open spec fn contents(items: Seq<serde_json::Value>) -> Seq<JsonV> {
    items.map_values(|v: serde_json::Value| value_content(v))
}

/// No float anywhere in `v`, no member under a name that `serde_json` keeps
/// for itself, and no more than `depth` levels of nesting.
pub open spec fn reproducible(v: JsonV, depth: nat) -> bool
    decreases depth,
{
    match v {
        JsonV::Float(_) => false,
        JsonV::Array(items) => depth > 0 && forall|i: int|
            0 <= i < items.len() ==> #[trigger] reproducible(items[i], (depth - 1) as nat),
        JsonV::Object(m) => depth > 0 && forall|k: Seq<char>|
            m.contains_key(k) ==> !reserved(k) && #[trigger] reproducible(
                m[k],
                (depth - 1) as nat,
            ),
        _ => true,
    }
}

/// The names of members by which `serde_json` marks values of its own making;
/// an object that starts with one may not be read as an object.
pub open spec fn reserved(name: Seq<char>) -> bool {
    name == "$serde_json::private::Number"@ || name == "$serde_json::private::RawValue"@
}

/// Levels of nesting that `serde_json` reads; it refuses deeper texts.
pub open spec fn max_depth() -> nat {
    127
}

/// A `serde_json::Value`, one level taken apart.
pub enum Borrowed<'a> {
    Null,
    Bool(bool),
    Number(&'a serde_json::Number),
    Str(&'a String),
    Array(&'a Vec<serde_json::Value>),
    Object(&'a serde_json::Map<String, serde_json::Value>),
}

/// The parts a `serde_json::Value` is made of.
pub enum Parts {
    Null,
    Bool(bool),
    Number(serde_json::Number),
    Str(String),
    Array(Vec<serde_json::Value>),
    Object(serde_json::Map<String, serde_json::Value>),
}

/// `serde_json::from_str` into a `Value`: what it reads, it reads from the
/// text alone.
#[verifier::external_body]
fn read_text(s: &str) -> (r: Option<serde_json::Value>)
    ensures
        match r {
            Some(v) => json_of_text(s@) == Some(value_content(v)),
            None => json_of_text(s@) is None,
        },
{
    serde_json::from_str(s).ok()
}

/// `serde_json::from_slice` into a `Value`: what it reads, it reads from the
/// bytes alone, and so is the text of the error where it refuses them.
#[verifier::external_body]
fn read_bytes(s: &[u8]) -> (r: Result<serde_json::Value, String>)
    ensures
        match r {
            Ok(v) => json_of_bytes(s@) == Some(value_content(v)),
            Err(e) => json_of_bytes(s@) is None && e@ == json_complaint(s@),
        },
{
    serde_json::from_slice(s).map_err(|e| e.to_string())
}

/// `serde_json::Value`'s `to_string`: the compact text, made of the value's
/// content alone. Reading it back gives the content, for a value without
/// floats and reserved names that is nested no deeper than the parser reads.
/// Of floats, which the parser may read back one unit off, and of reserved
/// names, which it may take for something else, nothing is claimed.
#[verifier::external_body]
fn print_value(v: &serde_json::Value) -> (r: String)
    ensures
        r@ == json_text(value_content(*v)),
        reproducible(value_content(*v), max_depth()) ==> json_of_text(r@) == Some(value_content(*v)),
{
    v.to_string()
}

/// The variants of `serde_json::Value`, told apart.
#[verifier::external_body]
fn borrow_parts<'a>(v: &'a serde_json::Value) -> (r: Borrowed<'a>)
    ensures
        match r {
            Borrowed::Null => value_content(*v) == JsonV::Null,
            Borrowed::Bool(b) => value_content(*v) == JsonV::Bool(b),
            Borrowed::Number(n) => value_content(*v) == number_content(*n),
            Borrowed::Str(s) => value_content(*v) == JsonV::Str(s@),
            Borrowed::Array(items) => value_content(*v) == JsonV::Array(contents(items@)),
            Borrowed::Object(m) => value_content(*v) == JsonV::Object(map_content(*m)),
        },
{
    match v {
        serde_json::Value::Null => Borrowed::Null,
        serde_json::Value::Bool(b) => Borrowed::Bool(*b),
        serde_json::Value::Number(n) => Borrowed::Number(n),
        serde_json::Value::String(s) => Borrowed::Str(s),
        serde_json::Value::Array(items) => Borrowed::Array(items),
        serde_json::Value::Object(m) => Borrowed::Object(m),
    }
}

/// The constructors of `serde_json::Value`.
#[verifier::external_body]
fn assemble(parts: Parts) -> (r: serde_json::Value)
    ensures
        value_content(r) == match parts {
            Parts::Null => JsonV::Null,
            Parts::Bool(b) => JsonV::Bool(b),
            Parts::Number(n) => number_content(n),
            Parts::Str(s) => JsonV::Str(s@),
            Parts::Array(items) => JsonV::Array(contents(items@)),
            Parts::Object(m) => JsonV::Object(map_content(m)),
        },
{
    match parts {
        Parts::Null => serde_json::Value::Null,
        Parts::Bool(b) => serde_json::Value::Bool(b),
        Parts::Number(n) => serde_json::Value::Number(n),
        Parts::Str(s) => serde_json::Value::String(s),
        Parts::Array(items) => serde_json::Value::Array(items),
        Parts::Object(m) => serde_json::Value::Object(m),
    }
}

/// `serde_json::Number::as_u64`: the number where it is a non-negative
/// integer of 64 bits. A number is an integer that fits 64 bits, signed or
/// unsigned, or a finite float.
#[verifier::external_body]
fn unsigned(n: &serde_json::Number) -> (r: Option<u64>)
    ensures
        match number_content(*n) {
            JsonV::Int(i) => i64::MIN <= i <= u64::MAX && (r is Some <==> 0 <= i) && (r is Some
                ==> r->0 == i),
            JsonV::Float(bits) => r is None && finite_bits(bits),
            _ => false,
        },
        r is Some ==> number_content(*n) == JsonV::Int(r->0 as int),
{
    n.as_u64()
}

/// `serde_json::Number::as_i64`: the number where it is an integer that fits
/// 64 signed bits.
#[verifier::external_body]
fn signed(n: &serde_json::Number) -> (r: Option<i64>)
    ensures
        match number_content(*n) {
            JsonV::Int(i) => (r is Some <==> i64::MIN <= i <= i64::MAX) && (r is Some ==> r->0
                == i),
            _ => r is None,
        },
        r is Some ==> number_content(*n) == JsonV::Int(r->0 as int),
{
    n.as_i64()
}

/// `serde_json::Number::as_f64`, the result as its bit pattern: for a float,
/// the float itself.
#[verifier::external_body]
fn float_pattern(n: &serde_json::Number) -> (r: u64)
    ensures
        number_content(*n) is Float ==> number_content(*n) == JsonV::Float(r),
{
    n.as_f64().map_or(0, |x| x.to_bits())
}

/// `serde_json::Number::from` for `u64`.
#[verifier::external_body]
fn number_from_unsigned(u: u64) -> (r: serde_json::Number)
    ensures
        number_content(r) == JsonV::Int(u as int),
{
    serde_json::Number::from(u)
}

/// `serde_json::Number::from` for `i64`.
#[verifier::external_body]
fn number_from_signed(i: i64) -> (r: serde_json::Number)
    ensures
        number_content(r) == JsonV::Int(i as int),
{
    serde_json::Number::from(i)
}

/// `serde_json::Number::from_f64`, the argument as its bit pattern: a finite
/// float, and only a finite one, is a number.
#[verifier::external_body]
fn number_from_pattern(bits: u64) -> (r: Option<serde_json::Number>)
    ensures
        r is Some <==> finite_bits(bits),
        r is Some ==> number_content(r->0) == JsonV::Float(bits),
{
    serde_json::Number::from_f64(bytes::Buf::get_f64(&mut &bits.to_be_bytes()[..]))
}

/// `serde_json::Map::new`: the object without members.
#[verifier::external_body]
fn empty_map() -> (r: serde_json::Map<String, serde_json::Value>)
    ensures
        JsonV::Object(map_content(r)) == crate::json::empty_object(),
{
    serde_json::Map::new()
}

/// `serde_json::Map::insert`: sets the member under the key.
#[verifier::external_body]
fn insert(m: &mut serde_json::Map<String, serde_json::Value>, k: String, v: serde_json::Value)
    ensures
        map_content(*final(m)) == map_content(*old(m)).insert(k@, value_content(v)),
{
    m.insert(k, v);
}

/// `entries` lists the members of the finite map `m`, each under its key.
pub open spec fn lists_members(
    entries: Seq<(&String, &serde_json::Value)>,
    m: Map<Seq<char>, JsonV>,
) -> bool {
    &&& m.dom().finite()
    &&& forall|i: int|
        0 <= i < entries.len() ==> m.contains_key(#[trigger] entries[i].0@) && m[entries[i].0@]
            == value_content(*entries[i].1)
    &&& forall|k: Seq<char>| #[trigger]
        m.contains_key(k) ==> exists|i: int|
            0 <= i < entries.len() && (#[trigger] entries[i]).0@ == k
}

/// `serde_json::Map::iter`, collected: every member once, under its key.
#[verifier::external_body]
fn members<'a>(
    m: &'a serde_json::Map<String, serde_json::Value>,
) -> (r: Vec<(&'a String, &'a serde_json::Value)>)
    ensures
        lists_members(r@, map_content(*m)),
{
    m.iter().collect()
}

/// The value that a `serde_json::Value` holds.
fn from_value(v: &serde_json::Value) -> (r: Json)
    ensures
        r@ == value_content(*v),
    decreases value_content(*v),
{
    let ghost whole = value_content(*v);
    match borrow_parts(v) {
        Borrowed::Null => Json::Null,
        Borrowed::Bool(b) => Json::Bool(b),
        Borrowed::Number(n) => Json::Number(from_number(n)),
        Borrowed::Str(s) => Json::Str(s.clone()),
        Borrowed::Array(items) => {
            let mut out: Vec<Json> = Vec::new();
            let mut i: usize = 0;
            while i < items.len()
                invariant
                    i <= items@.len(),
                    whole == value_content(*v),
                    whole == JsonV::Array(contents(items@)),
                    items_view(out@) == contents(items@).take(i as int),
                decreases items@.len() - i,
            {
                assert(decreases_to!(whole => whole->Array_0[i as int]));
                assert(whole->Array_0[i as int] == value_content(items@[i as int]));
                let item = from_value(&items[i]);
                proof {
                    lemma_items_push(out@, item);
                    assert(contents(items@).take(i + 1) == contents(items@).take(i as int).push(
                        item@,
                    ));
                }
                out.push(item);
                i = i + 1;
            }
            assert(contents(items@).take(items@.len() as int) == contents(items@));
            Json::Array(out)
        },
        Borrowed::Object(m) => {
            let entries = members(m);
            let ghost content = map_content(*m);
            let mut out: Vec<(String, Json)> = Vec::new();
            let mut i: usize = 0;
            while i < entries.len()
                invariant
                    i <= entries@.len(),
                    out@.len() == i,
                    whole == value_content(*v),
                    whole == JsonV::Object(content),
                    content.dom().finite(),
                    forall|j: int|
                        0 <= j < entries@.len() ==> content.contains_key(#[trigger] entries@[j].0@)
                            && content[entries@[j].0@] == value_content(*entries@[j].1),
                    forall|k: Seq<char>| #[trigger]
                        entries_view(out@, i as nat).contains_key(k) ==> content.contains_key(k)
                            && entries_view(out@, i as nat)[k] == content[k],
                    forall|j: int|
                        0 <= j < i ==> entries_view(out@, i as nat).contains_key(
                            (#[trigger] entries@[j]).0@,
                        ),
                decreases entries@.len() - i,
            {
                let key = entries[i].0;
                assert(content.contains_key(entries@[i as int].0@));
                assert(decreases_to!(whole => whole->Object_0[entries@[i as int].0@]));
                let item = from_value(entries[i].1);
                let pair = (key.clone(), item);
                proof {
                    lemma_entries_push(out@, pair);
                }
                out.push(pair);
                i = i + 1;
            }
            assert(entries_view(out@, out@.len()) =~= content);
            Json::Object(out)
        },
    }
}

/// The number that a `serde_json::Number` holds.
fn from_number(n: &serde_json::Number) -> (r: Num)
    ensures
        crate::json::number_view(r) == number_content(*n),
{
    match unsigned(n) {
        Some(u) => Num::PosInt(u),
        None => match signed(n) {
            Some(i) => Num::NegInt(i),
            None => {
                let bits: u64 = float_pattern(n);
                match FiniteFloat::from_bits(bits) {
                    Some(f) => Num::Float(f),
                    None => Num::PosInt(0),
                }
            },
        },
    }
}

/// The `serde_json::Value` that holds the given value.
fn to_value(j: &Json) -> (r: serde_json::Value)
    ensures
        value_content(r) == j@,
    decreases j,
{
    match j {
        Json::Null => assemble(Parts::Null),
        Json::Bool(b) => assemble(Parts::Bool(*b)),
        Json::Number(n) => match to_number(*n) {
            Some(n) => assemble(Parts::Number(n)),
            None => assemble(Parts::Null),
        },
        Json::Str(s) => assemble(Parts::Str(s.clone())),
        Json::Array(items) => {
            let mut out: Vec<serde_json::Value> = Vec::new();
            let mut i: usize = 0;
            while i < items.len()
                invariant
                    i <= items@.len(),
                    *j == Json::Array(*items),
                    contents(out@) == items_view(items@).take(i as int),
                decreases items@.len() - i,
            {
                assert(decreases_to!(j => j->Array_0@[i as int]));
                let item = to_value(&items[i]);
                proof {
                    lemma_items_view(items@);
                    assert(contents(out@.push(item)) == contents(out@).push(value_content(item)));
                    assert(items_view(items@).take(i + 1) == items_view(items@).take(
                        i as int,
                    ).push(items@[i as int]@));
                }
                out.push(item);
                i = i + 1;
            }
            assert(items_view(items@).take(items@.len() as int) == items_view(items@));
            assemble(Parts::Array(out))
        },
        Json::Object(entries) => {
            let mut out = empty_map();
            let mut i: usize = 0;
            while i < entries.len()
                invariant
                    i <= entries@.len(),
                    *j == Json::Object(*entries),
                    map_content(out) == entries_view(entries@, i as nat),
                decreases entries@.len() - i,
            {
                assert(decreases_to!(j => j->Object_0@[i as int].1));
                let item = to_value(&entries[i].1);
                insert(&mut out, entries[i].0.clone(), item);
                i = i + 1;
            }
            assemble(Parts::Object(out))
        },
    }
}

/// The `serde_json::Number` that holds the given number; there is always
/// one.
fn to_number(n: Num) -> (r: Option<serde_json::Number>)
    ensures
        r is Some,
        number_content(r->0) == crate::json::number_view(n),
{
    match n {
        Num::PosInt(u) => Some(number_from_unsigned(u)),
        Num::NegInt(i) => Some(number_from_signed(i)),
        Num::Float(f) => number_from_pattern(f.bits()),
    }
}

/// The value that a JSON text denotes; `None` where it is no JSON text.
pub fn parse(s: &str) -> (r: Option<Json>)
    ensures
        match r {
            Some(j) => json_of_text(s@) == Some(j@),
            None => json_of_text(s@) is None,
        },
{
    match read_text(s) {
        Some(v) => Some(from_value(&v)),
        None => None,
    }
}

/// The value that the bytes of a JSON text denote; `None` where they are
/// none.
pub fn parse_bytes(s: &[u8]) -> (r: Option<Json>)
    ensures
        match r {
            Some(j) => json_of_bytes(s@) == Some(j@),
            None => json_of_bytes(s@) is None,
        },
{
    match read_bytes(s) {
        Ok(v) => Some(from_value(&v)),
        Err(_) => None,
    }
}

/// The value that the bytes of a JSON text denote, or what is wrong with
/// them.
pub fn examine_bytes(s: &[u8]) -> (r: Result<Json, String>)
    ensures
        match r {
            Ok(j) => json_of_bytes(s@) == Some(j@),
            Err(e) => json_of_bytes(s@) is None && e@ == json_complaint(s@),
        },
{
    match read_bytes(s) {
        Ok(v) => Ok(from_value(&v)),
        Err(e) => Err(e),
    }
}

/// The compact JSON text of a value. [`parse`] reads the value back, if it
/// holds no float and no reserved name and is not nested too deeply.
pub fn print(j: &Json) -> (r: String)
    ensures
        r@ == json_text(j@),
        reproducible(j@, max_depth()) ==> json_of_text(r@) == Some(j@),
{
    print_value(&to_value(j))
}

}
