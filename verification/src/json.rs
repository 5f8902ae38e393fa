use vstd::prelude::*;

use crate::text::{decimal, decimal_text, signed_decimal, signed_decimal_text};

verus! {

/// A JSON number as the library keeps it: integers exactly, and any other
/// number by the text that stands for it.
#[derive(Debug, Clone, PartialEq)]
pub enum JsonNumber {
    PosInt(u64),
    NegInt(i64),
    Float(String),
}

/// A JSON value.
#[derive(Debug, PartialEq)]
pub enum JsonValue {
    Null,
    Bool(bool),
    Number(JsonNumber),
    String(String),
    Array(Vec<JsonValue>),
    Object(Vec<(String, JsonValue)>),
}

/// The mathematical model of a JSON number.
pub enum NumberData {
    PosInt(nat),
    NegInt(int),
    Float(Seq<char>),
}

/// The mathematical model of a JSON value.
pub enum JsonData {
    Null,
    Bool(bool),
    Number(NumberData),
    Text(Seq<char>),
    Array(Seq<JsonData>),
    Object(Seq<(Seq<char>, JsonData)>),
}

impl JsonNumber {
    pub open spec fn data(self) -> NumberData {
        match self {
            JsonNumber::PosInt(n) => NumberData::PosInt(n as nat),
            JsonNumber::NegInt(n) => NumberData::NegInt(n as int),
            JsonNumber::Float(s) => NumberData::Float(s@),
        }
    }
}

impl JsonValue {
    pub open spec fn data(self) -> JsonData
        decreases self,
    {
        match self {
            JsonValue::Null => JsonData::Null,
            JsonValue::Bool(b) => JsonData::Bool(b),
            JsonValue::Number(n) => JsonData::Number(n.data()),
            JsonValue::String(s) => JsonData::Text(s@),
            JsonValue::Array(items) => JsonData::Array(
                Seq::new(items@.len(), |i: int| if 0 <= i < items@.len() { items@[i].data() } else { JsonData::Null }),
            ),
            JsonValue::Object(entries) => JsonData::Object(
                Seq::new(entries@.len(), |i: int| if 0 <= i < entries@.len() { (entries@[i].0@, entries@[i].1.data()) } else { (Seq::empty(), JsonData::Null) }),
            ),
        }
    }
}


/// The models of the entries of an object, in order.
pub open spec fn entries_data(s: Seq<(String, JsonValue)>) -> Seq<(Seq<char>, JsonData)> {
    Seq::new(s.len(), |i: int| (s[i].0@, s[i].1.data()))
}

/// The models of the items of an array, in order.
pub open spec fn items_data(s: Seq<JsonValue>) -> Seq<JsonData> {
    Seq::new(s.len(), |i: int| s[i].data())
}

pub proof fn lemma_object_data(v: Vec<(String, JsonValue)>)
    ensures
        JsonValue::Object(v).data() == JsonData::Object(entries_data(v@)),
{
    let d = JsonValue::Object(v).data();
    if let JsonData::Object(e) = d {
        assert(e =~= entries_data(v@));
    }
}

pub proof fn lemma_array_data(v: Vec<JsonValue>)
    ensures
        JsonValue::Array(v).data() == JsonData::Array(items_data(v@)),
{
    let d = JsonValue::Array(v).data();
    if let JsonData::Array(e) = d {
        assert(e =~= items_data(v@));
    }
}

/// The value of the first entry with the given key.
pub open spec fn field_of(entries: Seq<(Seq<char>, JsonData)>, key: Seq<char>) -> Option<JsonData>
    decreases entries.len(),
{
    if entries.len() == 0 {
        None
    } else if entries[0].0 == key {
        Some(entries[0].1)
    } else {
        field_of(entries.drop_first(), key)
    }
}

/// The member of a value under a key: what an object holds under it, and
/// nothing for any other value.
pub open spec fn member(d: JsonData, key: Seq<char>) -> Option<JsonData> {
    match d {
        JsonData::Object(entries) => field_of(entries, key),
        _ => None,
    }
}

/// The text that stands for a number: its decimal notation for an integer.
pub open spec fn number_text(n: NumberData) -> Seq<char> {
    match n {
        NumberData::PosInt(u) => decimal(u),
        NumberData::NegInt(i) => signed_decimal(i),
        NumberData::Float(s) => s,
    }
}

impl JsonNumber {
    /// The number as text, as `to_string` writes it.
    pub fn to_text(&self) -> (r: String)
        ensures
            r@ == number_text(self.data()),
    {
        match self {
            JsonNumber::PosInt(u) => decimal_text(*u as u128),
            JsonNumber::NegInt(i) => signed_decimal_text(*i as i128),
            JsonNumber::Float(s) => s.clone(),
        }
    }
}

impl JsonValue {
    /// The member of this value under `key`: for an object, the value of its
    /// first entry with that key; for any other value, nothing.
    pub fn get(&self, key: &str) -> (r: Option<&JsonValue>)
        ensures
            match r {
                Some(v) => member(self.data(), key@) == Some(v.data()),
                None => member(self.data(), key@) is None,
            },
    {
        match self {
            JsonValue::Object(entries) => {
                proof {
                    lemma_object_data(*entries);
                }
                let ghost e = entries_data(entries@);
                assert(self.data() == JsonData::Object(e));
                let mut i: usize = 0;
                assert(e.skip(0) =~= e);
                while i < entries.len()
                    invariant
                        i <= entries@.len(),
                        e == entries_data(entries@),
                        self.data() == JsonData::Object(e),
                        field_of(e, key@) == field_of(e.skip(i as int), key@),
                    decreases entries.len() - i,
                {
                    assert(e.skip(i as int)[0] == e[i as int]);
                    if crate::text::same_text(entries[i].0.as_str(), key) {
                        assert(e[i as int] == (entries@[i as int].0@, entries@[i as int].1.data()));
                        assert(field_of(e.skip(i as int), key@) == Some(e[i as int].1));
                        return Some(&entries[i].1);
                    }
                    assert(e.skip(i as int).drop_first() =~= e.skip(i + 1));
                    i = i + 1;
                }
                None
            },
            _ => None,
        }
    }
}

/// An object with the given entries.
pub fn object_value(entries: Vec<(String, JsonValue)>) -> (r: JsonValue)
    ensures
        r.data() == JsonData::Object(entries_data(entries@)),
{
    proof {
        lemma_object_data(entries);
    }
    JsonValue::Object(entries)
}

/// An array with the given items.
pub fn array_value(items: Vec<JsonValue>) -> (r: JsonValue)
    ensures
        r.data() == JsonData::Array(items_data(items@)),
{
    proof {
        lemma_array_data(items);
    }
    JsonValue::Array(items)
}

/// An entry of an object.
pub fn entry(key: &str, value: JsonValue) -> (r: (String, JsonValue))
    ensures
        r.0@ == key@,
        r.1 == value,
{
    (String::from_str(key), value)
}

impl Clone for JsonValue {
    fn clone(&self) -> (r: Self)
        ensures
            r.data() == self.data(),
        decreases self,
    {
        match self {
            JsonValue::Null => JsonValue::Null,
            JsonValue::Bool(b) => JsonValue::Bool(*b),
            JsonValue::Number(n) => JsonValue::Number(
                match n {
                    JsonNumber::PosInt(u) => JsonNumber::PosInt(*u),
                    JsonNumber::NegInt(i) => JsonNumber::NegInt(*i),
                    JsonNumber::Float(t) => JsonNumber::Float(t.clone()),
                },
            ),
            JsonValue::String(s) => JsonValue::String(s.clone()),
            JsonValue::Array(items) => {
                let mut copy: Vec<JsonValue> = Vec::new();
                let mut i: usize = 0;
                while i < items.len()
                    invariant
                        i <= items@.len(),
                        copy@.len() == i,
                        *self == JsonValue::Array(*items),
                        forall|k: int| 0 <= k < i ==> #[trigger] copy@[k].data() == items@[k].data(),
                    decreases items.len() - i,
                {
                    proof {
                        let v = self->Array_0;
                        assert(decreases_to!(*self => v));
                        assert(decreases_to!(v => v@));
                        assert(decreases_to!(v@ => v@[i as int]));
                        assert(decreases_to!(*self => items@[i as int]));
                    }
                    copy.push(items[i].clone());
                    i = i + 1;
                }
                proof {
                    lemma_array_data(copy);
                    lemma_array_data(*items);
                    assert(items_data(copy@) =~= items_data(items@));
                }
                JsonValue::Array(copy)
            },
            JsonValue::Object(entries) => {
                let mut copy: Vec<(String, JsonValue)> = Vec::new();
                let mut i: usize = 0;
                while i < entries.len()
                    invariant
                        i <= entries@.len(),
                        copy@.len() == i,
                        *self == JsonValue::Object(*entries),
                        forall|k: int| 0 <= k < i ==> #[trigger] copy@[k].0@ == entries@[k].0@ && copy@[k].1.data() == entries@[k].1.data(),
                    decreases entries.len() - i,
                {
                    proof {
                        let v = self->Object_0;
                        assert(decreases_to!(*self => v));
                        assert(decreases_to!(v => v@));
                        assert(decreases_to!(v@ => v@[i as int]));
                        assert(decreases_to!(v@[i as int] => v@[i as int].1));
                        assert(decreases_to!(*self => entries@[i as int].1));
                    }
                    let value = entries[i].1.clone();
                    copy.push((entries[i].0.clone(), value));
                    i = i + 1;
                }
                proof {
                    lemma_object_data(copy);
                    lemma_object_data(*entries);
                    assert(entries_data(copy@) =~= entries_data(entries@));
                }
                JsonValue::Object(copy)
            },
        }
    }
}

/// A JSON string with the given text.
pub fn text_value(s: &str) -> (r: JsonValue)
    ensures
        r.data() == JsonData::Text(s@),
{
    JsonValue::String(String::from_str(s))
}

} // verus!
