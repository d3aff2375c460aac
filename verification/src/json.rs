//! JSON values: the type the rest of the crate reads and builds, its
//! mathematical view, and the passage to and from JSON text through
//! `serde_json`.
use crate::text::same;
use vstd::prelude::*;

verus! {

broadcast use vstd::string::group_string_axioms;

/// Whether `bits` is the IEEE 754 binary64 pattern of a finite number: its
/// exponent field is not all ones.
pub open spec fn finite_bits(bits: u64) -> bool {
    (bits as nat / 0x10_0000_0000_0000) % 2048 != 2047
}

/// A finite floating-point number, held as its IEEE 754 binary64 pattern.
#[derive(Clone, Copy, Debug)]
pub struct FiniteFloat {
    bits: u64,
}

impl FiniteFloat {
    #[verifier::type_invariant]
    spec fn finite(self) -> bool {
        finite_bits(self.bits)
    }

    /// The bit pattern, as the model of the number.
    pub closed spec fn pattern(self) -> u64 {
        self.bits
    }

    /// The number with the given pattern, if it is finite.
    pub fn from_bits(bits: u64) -> (r: Option<FiniteFloat>)
        ensures
            finite_bits(bits) <==> r is Some,
            r is Some ==> r->0.pattern() == bits,
    {
        if (bits / 0x10_0000_0000_0000) % 2048 != 2047 {
            Some(FiniteFloat { bits })
        } else {
            None
        }
    }

    /// Positive zero.
    pub fn zero() -> (r: FiniteFloat)
        ensures
            r.pattern() == 0,
    {
        FiniteFloat { bits: 0 }
    }

    /// The bit pattern.
    pub fn bits(self) -> (r: u64)
        ensures
            r == self.pattern(),
            finite_bits(r),
    {
        proof {
            use_type_invariant(&self);
        }
        self.bits
    }
}

/// A JSON number: an integer that fits 64 bits, or a finite float.
#[derive(Clone, Copy, Debug)]
pub enum Num {
    PosInt(u64),
    NegInt(i64),
    Float(FiniteFloat),
}

/// A JSON value. Of several object entries with one key the last counts.
#[derive(Debug)]
pub enum Json {
    Null,
    Bool(bool),
    Number(Num),
    Str(String),
    Array(Vec<Json>),
    Object(Vec<(String, Json)>),
}

/// The mathematical JSON value: integers are integers, an object is a map.
#[verifier::ext_equal]
pub enum JsonV {
    Null,
    Bool(bool),
    Int(int),
    Float(u64),
    Str(Seq<char>),
    Array(Seq<JsonV>),
    Object(Map<Seq<char>, JsonV>),
}

/// The view of a number.
pub open spec fn number_view(n: Num) -> JsonV {
    match n {
        Num::PosInt(u) => JsonV::Int(u as int),
        Num::NegInt(i) => JsonV::Int(i as int),
        Num::Float(f) => JsonV::Float(f.pattern()),
    }
}

/// The view of a value.
pub open spec fn json_view(j: Json) -> JsonV
    decreases j, 0nat,
{
    match j {
        Json::Null => JsonV::Null,
        Json::Bool(b) => JsonV::Bool(b),
        Json::Number(n) => number_view(n),
        Json::Str(s) => JsonV::Str(s@),
        Json::Array(items) => JsonV::Array(items_view(items@)),
        Json::Object(entries) => JsonV::Object(entries_view(entries@, entries@.len())),
    }
}

/// The views of array items.
pub open spec fn items_view(items: Seq<Json>) -> Seq<JsonV>
    decreases items, 1nat,
{
    Seq::new(
        items.len(),
        |i: int|
            if 0 <= i < items.len() {
                json_view(items[i])
            } else {
                JsonV::Null
            },
    )
}

/// The map that the first `n` object entries make, later ones winning.
pub open spec fn entries_view(entries: Seq<(String, Json)>, n: nat) -> Map<Seq<char>, JsonV>
    decreases entries, n,
{
    if n == 0 || n > entries.len() {
        Map::empty()
    } else {
        entries_view(entries, (n - 1) as nat).insert(entries[n - 1].0@, json_view(entries[n - 1].1))
    }
}

impl View for Json {
    type V = JsonV;

    open spec fn view(&self) -> JsonV {
        json_view(*self)
    }
}

/// The view of an optional value.
pub open spec fn opt_json(o: Option<&Json>) -> Option<JsonV> {
    match o {
        Some(j) => Some(j@),
        None => None,
    }
}

/// The view of an optional owned value.
pub open spec fn opt_owned(o: Option<Json>) -> Option<JsonV> {
    match o {
        Some(j) => Some(j@),
        None => None,
    }
}

impl JsonV {
    /// The member under `key`, if this is an object that has one.
    pub open spec fn get(self, key: Seq<char>) -> Option<JsonV> {
        match self {
            JsonV::Object(m) => if m.contains_key(key) {
                Some(m[key])
            } else {
                None
            },
            _ => None,
        }
    }

    pub open spec fn as_str(self) -> Option<Seq<char>> {
        match self {
            JsonV::Str(s) => Some(s),
            _ => None,
        }
    }

    pub open spec fn as_bool(self) -> Option<bool> {
        match self {
            JsonV::Bool(b) => Some(b),
            _ => None,
        }
    }

    /// The integer, if this is one that fits in 64 unsigned bits.
    pub open spec fn as_u64(self) -> Option<u64> {
        match self {
            JsonV::Int(i) => if 0 <= i <= u64::MAX {
                Some(i as u64)
            } else {
                None
            },
            _ => None,
        }
    }

    pub open spec fn as_array(self) -> Option<Seq<JsonV>> {
        match self {
            JsonV::Array(items) => Some(items),
            _ => None,
        }
    }

    /// The string member under `key`.
    pub open spec fn get_str(self, key: Seq<char>) -> Option<Seq<char>> {
        match self.get(key) {
            Some(v) => v.as_str(),
            None => None,
        }
    }

    /// The boolean member under `key`.
    pub open spec fn get_bool(self, key: Seq<char>) -> Option<bool> {
        match self.get(key) {
            Some(v) => v.as_bool(),
            None => None,
        }
    }

    /// The unsigned integer member under `key`.
    pub open spec fn get_u64(self, key: Seq<char>) -> Option<u64> {
        match self.get(key) {
            Some(v) => v.as_u64(),
            None => None,
        }
    }

    /// The array member under `key`.
    pub open spec fn get_array(self, key: Seq<char>) -> Option<Seq<JsonV>> {
        match self.get(key) {
            Some(v) => v.as_array(),
            None => None,
        }
    }

    /// The items of the array member under `key`; none where there is no
    /// such array.
    pub open spec fn list(self, key: Seq<char>) -> Seq<JsonV> {
        match self.get_array(key) {
            Some(items) => items,
            None => Seq::empty(),
        }
    }

    /// This object with `key` set to `value`; a value that is no object
    /// counts as the empty one.
    pub open spec fn with(self, key: Seq<char>, value: JsonV) -> JsonV {
        match self {
            JsonV::Object(m) => JsonV::Object(m.insert(key, value)),
            _ => JsonV::Object(Map::empty().insert(key, value)),
        }
    }

    /// `with` where there is a value, else unchanged.
    pub open spec fn with_some(self, key: Seq<char>, value: Option<JsonV>) -> JsonV {
        match value {
            Some(v) => self.with(key, v),
            None => self,
        }
    }
}

/// The object without members.
pub open spec fn empty_object() -> JsonV {
    JsonV::Object(Map::empty())
}

/// Views of array items, item by item.
pub proof fn lemma_items_view(items: Seq<Json>)
    ensures
        items_view(items).len() == items.len(),
        forall|i: int| 0 <= i < items.len() ==> #[trigger] items_view(items)[i] == items[i]@,
{
}

/// Pushing an item pushes its view.
pub proof fn lemma_items_push(items: Seq<Json>, j: Json)
    ensures
        items_view(items.push(j)) == items_view(items).push(j@),
{
    assert(items_view(items.push(j)) =~= items_view(items).push(j@));
}

/// An entry appended past the first `n` does not change what those make.
proof fn lemma_entries_prefix(entries: Seq<(String, Json)>, e: (String, Json), n: nat)
    requires
        n <= entries.len(),
    ensures
        entries_view(entries.push(e), n) == entries_view(entries, n),
    decreases n,
{
    if n > 0 {
        lemma_entries_prefix(entries, e, (n - 1) as nat);
    }
}

/// Appending an entry inserts it into the map.
pub proof fn lemma_entries_push(entries: Seq<(String, Json)>, e: (String, Json))
    ensures
        entries_view(entries.push(e), entries.len() + 1) == entries_view(
            entries,
            entries.len(),
        ).insert(e.0@, e.1@),
{
    lemma_entries_prefix(entries, e, entries.len());
}

impl Json {
    /// The object without members.
    pub fn object() -> (r: Json)
        ensures
            r@ == empty_object(),
    {
        Json::Object(Vec::new())
    }

    /// A string value.
    pub fn text(s: &str) -> (r: Json)
        ensures
            r@ == JsonV::Str(s@),
    {
        Json::Str(s.to_owned())
    }

    /// An unsigned integer.
    pub fn uint(n: u64) -> (r: Json)
        ensures
            r@ == JsonV::Int(n as int),
    {
        Json::Number(Num::PosInt(n))
    }

    /// This object with `key` set to `value`.
    pub fn with(self, key: &str, value: Json) -> (r: Json)
        ensures
            r@ == self@.with(key@, value@),
    {
        match self {
            Json::Object(mut entries) => {
                let ghost before = entries@;
                let pair = (key.to_owned(), value);
                proof {
                    lemma_entries_push(before, pair);
                }
                entries.push(pair);
                Json::Object(entries)
            },
            _ => {
                let mut entries: Vec<(String, Json)> = Vec::new();
                let pair = (key.to_owned(), value);
                proof {
                    lemma_entries_push(entries@, pair);
                }
                entries.push(pair);
                Json::Object(entries)
            },
        }
    }

    /// `with` where there is a value, else unchanged.
    pub fn with_some(self, key: &str, value: Option<Json>) -> (r: Json)
        ensures
            r@ == self@.with_some(key@, opt_owned(value)),
    {
        match value {
            Some(v) => self.with(key, v),
            None => self,
        }
    }

    /// The member under `key`, if this is an object that has one.
    pub fn get(&self, key: &str) -> (r: Option<&Json>)
        ensures
            opt_json(r) == self@.get(key@),
    {
        match self {
            Json::Object(entries) => {
                let mut n: usize = entries.len();
                while n > 0
                    invariant
                        n <= entries@.len(),
                        self@ == JsonV::Object(entries_view(entries@, entries@.len())),
                        self@.get(key@) == JsonV::Object(entries_view(entries@, n as nat)).get(
                            key@,
                        ),
                    decreases n,
                {
                    if same(entries[n - 1].0.as_str(), key) {
                        return Some(&entries[n - 1].1);
                    }
                    n = n - 1;
                }
                None
            },
            _ => None,
        }
    }

    pub fn as_str(&self) -> (r: Option<&str>)
        ensures
            crate::text::opt_str(r) == self@.as_str(),
    {
        match self {
            Json::Str(s) => Some(s.as_str()),
            _ => None,
        }
    }

    pub fn as_bool(&self) -> (r: Option<bool>)
        ensures
            r == self@.as_bool(),
    {
        match self {
            Json::Bool(b) => Some(*b),
            _ => None,
        }
    }

    /// The integer, if this is one that fits in 64 unsigned bits.
    pub fn as_u64(&self) -> (r: Option<u64>)
        ensures
            r == self@.as_u64(),
    {
        match self {
            Json::Number(Num::PosInt(u)) => Some(*u),
            Json::Number(Num::NegInt(i)) => if *i >= 0 {
                Some(*i as u64)
            } else {
                None
            },
            _ => None,
        }
    }

    pub fn as_array(&self) -> (r: Option<&Vec<Json>>)
        ensures
            match (r, self@.as_array()) {
                (Some(items), Some(v)) => items_view(items@) == v,
                (None, None) => true,
                _ => false,
            },
    {
        match self {
            Json::Array(items) => Some(items),
            _ => None,
        }
    }

    pub fn is_null(&self) -> (r: bool)
        ensures
            r == (self@ is Null),
    {
        match self {
            Json::Null => true,
            _ => false,
        }
    }

    pub fn is_object(&self) -> (r: bool)
        ensures
            r == (self@ is Object),
    {
        match self {
            Json::Object(_) => true,
            _ => false,
        }
    }

    /// The string member under `key`.
    pub fn get_str(&self, key: &str) -> (r: Option<&str>)
        ensures
            crate::text::opt_str(r) == self@.get_str(key@),
    {
        match self.get(key) {
            Some(v) => v.as_str(),
            None => None,
        }
    }

    /// The boolean member under `key`.
    pub fn get_bool(&self, key: &str) -> (r: Option<bool>)
        ensures
            r == self@.get_bool(key@),
    {
        match self.get(key) {
            Some(v) => v.as_bool(),
            None => None,
        }
    }

    /// The unsigned integer member under `key`.
    pub fn get_u64(&self, key: &str) -> (r: Option<u64>)
        ensures
            r == self@.get_u64(key@),
    {
        match self.get(key) {
            Some(v) => v.as_u64(),
            None => None,
        }
    }

    /// The array member under `key`.
    pub fn get_array(&self, key: &str) -> (r: Option<&Vec<Json>>)
        ensures
            match (r, self@.get_array(key@)) {
                (Some(items), Some(v)) => items_view(items@) == v,
                (None, None) => true,
                _ => false,
            },
    {
        match self.get(key) {
            Some(v) => v.as_array(),
            None => None,
        }
    }

    /// The items of the array member under `key`.
    pub fn list(&self, key: &str) -> (r: &[Json])
        ensures
            items_view(r@) == self@.list(key@),
    {
        match self.get_array(key) {
            Some(items) => items.as_slice(),
            None => {
                let none: &[Json] = &[];
                assert(items_view(none@) == Seq::<JsonV>::empty());
                none
            },
        }
    }
}

impl Clone for Json {
    fn clone(&self) -> (r: Json)
        ensures
            r@ == self@,
        decreases self,
    {
        match self {
            Json::Null => Json::Null,
            Json::Bool(b) => Json::Bool(*b),
            Json::Number(n) => Json::Number(*n),
            Json::Str(s) => Json::Str(s.clone()),
            Json::Array(items) => {
                let mut out: Vec<Json> = Vec::new();
                let mut i: usize = 0;
                while i < items.len()
                    invariant
                        i <= items@.len(),
                        *self == Json::Array(*items),
                        items_view(out@) == items_view(items@).take(i as int),
                    decreases items@.len() - i,
                {
                    assert(decreases_to!(self => self->Array_0@[i as int]));
                    let item = items[i].clone();
                    proof {
                        lemma_items_push(out@, item);
                        lemma_items_view(items@);
                        assert(items_view(items@).take(i + 1) == items_view(items@).take(
                            i as int,
                        ).push(items@[i as int]@));
                    }
                    out.push(item);
                    i = i + 1;
                }
                assert(items_view(items@).take(items@.len() as int) == items_view(items@));
                Json::Array(out)
            },
            Json::Object(entries) => {
                let mut out: Vec<(String, Json)> = Vec::new();
                let mut i: usize = 0;
                while i < entries.len()
                    invariant
                        i <= entries@.len(),
                        out@.len() == i,
                        *self == Json::Object(*entries),
                        entries_view(out@, i as nat) == entries_view(entries@, i as nat),
                    decreases entries@.len() - i,
                {
                    assert(decreases_to!(self => self->Object_0@[i as int].1));
                    let pair = (entries[i].0.clone(), entries[i].1.clone());
                    proof {
                        lemma_entries_push(out@, pair);
                    }
                    out.push(pair);
                    i = i + 1;
                }
                Json::Object(out)
            },
        }
    }
}

}
