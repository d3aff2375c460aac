//! What holds of JSON values as they are read and put together.
use crate::json::{empty_object, Json, JsonV, Num};
use vstd::prelude::*;

verus! {

/// A member that is set is read back, and every other member stands.
pub proof fn law_members_read_back(v: JsonV, key: Seq<char>, value: JsonV, other: Seq<char>)
    ensures
        v.with(key, value).get(key) == Some(value),
        other != key ==> v.with(key, value).get(other) == v.get(other),
        v.with_some(key, Some(value)).get(key) == Some(value),
        v.with_some(key, None) == v,
        empty_object().get(key) is None,
{
}

/// A value is read as what it is, and as nothing else: text as text, a truth
/// value as one, a list as its items, and a number where 64 bits hold it.
pub proof fn law_values_are_what_they_are(s: Seq<char>, b: bool, i: int, items: Seq<JsonV>)
    ensures
        JsonV::Str(s).as_str() == Some(s),
        JsonV::Bool(b).as_bool() == Some(b),
        JsonV::Array(items).as_array() == Some(items),
        0 <= i <= u64::MAX ==> JsonV::Int(i).as_u64() == Some(i as u64),
        i < 0 || i > u64::MAX ==> JsonV::Int(i).as_u64() is None,
        JsonV::Str(s).as_bool() is None && JsonV::Str(s).as_u64() is None && JsonV::Str(
            s,
        ).as_array() is None,
        JsonV::Bool(b).as_str() is None && JsonV::Bool(b).as_u64() is None && JsonV::Bool(
            b,
        ).as_array() is None,
        JsonV::Int(i).as_str() is None && JsonV::Int(i).as_bool() is None && JsonV::Int(
            i,
        ).as_array() is None,
        JsonV::Null.as_str() is None && JsonV::Null.as_bool() is None && JsonV::Null.as_u64()
            is None && JsonV::Null.as_array() is None,
{
}

/// A member is read by its type, and a member that is missing or of another
/// type is none.
pub proof fn law_typed_members(v: JsonV, key: Seq<char>)
    ensures
        match v.get(key) {
            Some(JsonV::Str(s)) => v.get_str(key) == Some(s),
            _ => v.get_str(key) is None,
        },
        match v.get(key) {
            Some(JsonV::Bool(b)) => v.get_bool(key) == Some(b),
            _ => v.get_bool(key) is None,
        },
        match v.get(key) {
            Some(JsonV::Array(items)) => v.get_array(key) == Some(items) && v.list(key) == items,
            _ => v.get_array(key) is None && v.list(key).len() == 0,
        },
        match v.get(key) {
            Some(JsonV::Int(i)) => v.get_u64(key) == if 0 <= i <= u64::MAX {
                Some(i as u64)
            } else {
                None
            },
            _ => v.get_u64(key) is None,
        },
        !(v is Object) ==> v.get(key) is None,
{
}

/// A value stands for what it holds: its number, its text, its items in
/// order, and of an object's entries of one name the last.
pub proof fn law_values_stand_for_what_they_hold(
    u: u64,
    s: String,
    items: Vec<Json>,
    entries: Vec<(String, Json)>,
    e: (String, Json),
    longer: Vec<(String, Json)>,
)
    requires
        longer@ == entries@.push(e),
    ensures
        Json::Number(Num::PosInt(u))@ == JsonV::Int(u as int),
        Json::Str(s)@ == JsonV::Str(s@),
        Json::Array(items)@ matches JsonV::Array(list) && list.len() == items@.len() && forall|
            i: int,
        |
            0 <= i < items@.len() ==> #[trigger] list[i] == items@[i]@,
        Json::Object(longer)@.get(e.0@) == Some(e.1@),
{
    crate::json::lemma_items_view(items@);
    crate::json::lemma_entries_push(entries@, e);
    assert(longer@.len() == entries@.len() + 1);
}

}
