//! A JSON document as the TMDB service answers it, held as plain values.
//!
//! Numbers keep the three shapes that a JSON reader tells apart: non-negative
//! integers, negative integers and floating-point numbers. A floating-point
//! number is carried as its IEEE-754 bit pattern; nothing in this crate looks
//! into it, it only hands it on.
use vstd::prelude::*;

verus! {

/// A JSON number.
#[derive(PartialEq, Eq, Structural, Clone, Copy, Debug)]
pub enum JsonNumber {
    /// An integer that is zero or more.
    PosInt(u64),
    /// An integer below zero.
    NegInt(i64),
    /// A floating-point number, by its bit pattern.
    Float(u64),
}

/// A JSON value. An object keeps its members in order, each key once.
#[derive(Debug)]
pub enum Json {
    Null,
    Bool(bool),
    Number(JsonNumber),
    Str(String),
    Array(Vec<Json>),
    Object(Vec<(String, Json)>),
}

/// The member stored under `key` in a list of object members (the first one whose key matches).
pub open spec fn member_lookup(entries: Seq<(String, Json)>, key: Seq<char>) -> Option<Json>
    decreases entries.len(),
{
    if entries.len() == 0 {
        None
    } else if entries[0].0@ == key {
        Some(entries[0].1)
    } else {
        member_lookup(entries.drop_first(), key)
    }
}

/// The view of an optional text.
pub open spec fn opt_text(o: Option<String>) -> Option<Seq<char>> {
    match o {
        Some(s) => Some(s@),
        None => None,
    }
}

/// `a`, or else `b`.
pub open spec fn or_else<T>(a: Option<T>, b: Option<T>) -> Option<T> {
    match a {
        Some(x) => Some(x),
        None => b,
    }
}

impl JsonNumber {
    /// The integer of a number, where it fits an `i64`.
    pub open spec fn int_value(self) -> Option<i64> {
        match self {
            JsonNumber::PosInt(n) => if n <= i64::MAX as u64 {
                Some(n as i64)
            } else {
                None
            },
            JsonNumber::NegInt(n) => Some(n),
            JsonNumber::Float(_) => None,
        }
    }
}

/// The `name` texts of the items that have one, in order.
pub open spec fn item_names(items: Seq<Json>) -> Seq<Seq<char>>
    decreases items.len(),
{
    if items.len() == 0 {
        Seq::empty()
    } else {
        match items.last().at("name"@).text() {
            Some(t) => item_names(items.drop_last()).push(t),
            None => item_names(items.drop_last()),
        }
    }
}

/// The elements of a value that is an array, and none otherwise.
pub open spec fn elements_or_empty(v: Json) -> Seq<Json> {
    match v.elements() {
        Some(a) => a,
        None => Seq::empty(),
    }
}

/// Law: the elements of a value are those of the array it is, in order, and
/// there are none when it is not an array.
pub proof fn lemma_elements_or_empty(v: Json)
    ensures
        v matches Json::Array(a) ==> elements_or_empty(v) == a@,
        !(v is Array) ==> elements_or_empty(v) == Seq::<Json>::empty(),
{
}

/// The `name` texts of the items of the array under `key`, in order:
/// `value[key].as_array()` mapped through `item["name"].as_str()`.
pub fn names_at(value: &Json, key: &str) -> (r: Vec<String>)
    ensures
        r@.map_values(|t: String| t@) == item_names(elements_or_empty(value.at(key@))),
{
    let mut out: Vec<String> = Vec::new();
    match value.array_at(key) {
        Some(items) => {
            let n = items.len();
            let mut i: usize = 0;
            while i < n
                invariant
                    n == items@.len(),
                    i <= n,
                    out@.map_values(|t: String| t@) == item_names(items@.take(i as int)),
                decreases n - i,
            {
                assert(items@.take(i + 1).drop_last() =~= items@.take(i as int));
                let ghost before = out@;
                match items[i].text_at("name") {
                    Some(t) => {
                        out.push(t);
                        assert(out@.map_values(|t: String| t@) =~= before.map_values(|t: String| t@).push(out@.last()@));
                    },
                    None => {},
                }
                i = i + 1;
            }
            assert(items@.take(n as int) =~= items@);
        },
        None => {
            assert(out@.map_values(|t: String| t@) =~= Seq::<Seq<char>>::empty());
        },
    }
    out
}

/// Law: the member found under a key is the value of the first entry with
/// that key; there is none when no entry has the key.
pub proof fn lemma_member_lookup_first(entries: Seq<(String, Json)>, key: Seq<char>, i: int)
    ensures
        (forall|j: int| 0 <= j < entries.len() ==> (#[trigger] entries[j]).0@ != key) ==> member_lookup(entries, key) is None,
        (0 <= i < entries.len() && entries[i].0@ == key && forall|j: int| 0 <= j < i ==> (#[trigger] entries[j]).0@ != key)
            ==> member_lookup(entries, key) == Some(entries[i].1),
    decreases entries.len(),
{
    if entries.len() > 0 {
        let rest = entries.drop_first();
        lemma_member_lookup_first(rest, key, i - 1);
        if forall|j: int| 0 <= j < entries.len() ==> (#[trigger] entries[j]).0@ != key {
            assert(entries[0].0@ != key);
            assert forall|j: int| 0 <= j < rest.len() implies (#[trigger] rest[j]).0@ != key by {
                assert(rest[j] == entries[j + 1]);
            }
        }
        if 0 < i < entries.len() && entries[i].0@ == key && forall|j: int| 0 <= j < i ==> (#[trigger] entries[j]).0@ != key {
            assert(entries[0].0@ != key);
            assert(rest[i - 1] == entries[i]);
            assert forall|j: int| 0 <= j < i - 1 implies (#[trigger] rest[j]).0@ != key by {
                assert(rest[j] == entries[j + 1]);
            }
        }
    }
}

/// Law: a value reads as an integer exactly when it is a number without a
/// fraction that fits an `i64`, and then as that number; it reads as a text
/// exactly when it is a string, and then as that string.
pub proof fn lemma_value_readings(v: Json)
    ensures
        v matches Json::Number(JsonNumber::PosInt(n)) ==> v.integer() == (if n <= i64::MAX as u64 {
            Some(n as i64)
        } else {
            None
        }),
        v matches Json::Number(JsonNumber::NegInt(n)) ==> v.integer() == Some(n),
        v matches Json::Number(JsonNumber::Float(_)) ==> v.integer() is None,
        !(v is Number) ==> v.integer() is None && v.number() is None,
        v matches Json::Str(t) ==> v.text() == Some(t@),
        !(v is Str) ==> v.text() is None,
{
}

/// Law: the names of a list of items are the `name` texts of the items that
/// have one: each name is the one of some item, every item's name is among
/// them, and there are no more names than items.
pub proof fn lemma_item_names_sources(items: Seq<Json>)
    ensures
        item_names(items).len() <= items.len(),
        forall|k: int| 0 <= k < item_names(items).len() ==>
            exists|i: int| 0 <= i < items.len() && items[i].at("name"@).text() == Some(#[trigger] item_names(items)[k]),
        forall|i: int| 0 <= i < items.len() && (#[trigger] items[i].at("name"@).text()) is Some ==>
            item_names(items).contains(items[i].at("name"@).text()->0),
    decreases items.len(),
{
    if items.len() > 0 {
        let front = items.drop_last();
        lemma_item_names_sources(front);
        let before = item_names(front);
        let now = item_names(items);
        let last = items[items.len() - 1];
        assert(items.last() == last);
        assert forall|k: int| 0 <= k < now.len() implies
            exists|i: int| 0 <= i < items.len() && items[i].at("name"@).text() == Some(#[trigger] now[k]) by {
            if k < before.len() {
                assert(now[k] == before[k]);
                let i = choose|i: int| 0 <= i < front.len() && front[i].at("name"@).text() == Some(before[k]);
                assert(items[i] == front[i]);
            } else {
                assert(items[items.len() - 1].at("name"@).text() == Some(now[k]));
            }
        }
        assert forall|i: int| 0 <= i < items.len() && (#[trigger] items[i].at("name"@).text()) is Some implies
            now.contains(items[i].at("name"@).text()->0) by {
            if i < front.len() {
                assert(items[i] == front[i]);
                assert(front[i].at("name"@).text() is Some);
                let k = choose|k: int| 0 <= k < before.len() && before[k] == front[i].at("name"@).text()->0;
                assert(now[k] == before[k]);
            } else {
                assert(now[before.len() as int] == last.at("name"@).text()->0);
            }
        }
    }
}

impl Json {
    /// The member under `key`, when `self` is an object that holds one.
    pub open spec fn lookup(self, key: Seq<char>) -> Option<Json> {
        match self {
            Json::Object(entries) => member_lookup(entries@, key),
            _ => None,
        }
    }

    /// `self[key]`: the member under `key`, and `Null` where there is none.
    pub open spec fn at(self, key: Seq<char>) -> Json {
        match self.lookup(key) {
            Some(v) => v,
            None => Json::Null,
        }
    }

    /// The text of a string value.
    pub open spec fn text(self) -> Option<Seq<char>> {
        match self {
            Json::Str(s) => Some(s@),
            _ => None,
        }
    }

    /// The integer of a number value, where it fits an `i64`.
    pub open spec fn integer(self) -> Option<i64> {
        match self {
            Json::Number(n) => n.int_value(),
            _ => None,
        }
    }

    /// The number of a number value.
    pub open spec fn number(self) -> Option<JsonNumber> {
        match self {
            Json::Number(n) => Some(n),
            _ => None,
        }
    }

    /// The elements of an array value.
    pub open spec fn elements(self) -> Option<Seq<Json>> {
        match self {
            Json::Array(a) => Some(a@),
            _ => None,
        }
    }

    /// The member under `key`, when `self` is an object that holds one.
    pub fn get(&self, key: &str) -> (r: Option<&Json>)
        ensures
            r is None <==> self.lookup(key@) is None,
            r matches Some(v) ==> self.lookup(key@) == Some(*v),
    {
        let k = String::from_str(key);
        match self {
            Json::Object(entries) => {
                let n = entries.len();
                let mut i: usize = 0;
                assert(entries@.skip(0) =~= entries@);
                while i < n
                    invariant
                        n == entries@.len(),
                        i <= n,
                        k@ == key@,
                        self.lookup(key@) == member_lookup(entries@, key@),
                        member_lookup(entries@, key@) == member_lookup(entries@.skip(i as int), key@),
                    decreases n - i,
                {
                    assert(entries@.skip(i as int).drop_first() =~= entries@.skip(i + 1));
                    assert(entries@.skip(i as int)[0] == entries@[i as int]);
                    if entries[i].0 == k {
                        return Some(&entries[i].1);
                    }
                    i = i + 1;
                }
                None
            },
            _ => None,
        }
    }

    /// The text under `key`: `self[key].as_str()`, owned.
    pub fn text_at(&self, key: &str) -> (r: Option<String>)
        ensures
            opt_text(r) == self.at(key@).text(),
    {
        match self.get(key) {
            Some(Json::Str(s)) => Some(s.clone()),
            _ => None,
        }
    }

    /// The integer under `key`: `self[key].as_i64()`.
    pub fn int_at(&self, key: &str) -> (r: Option<i64>)
        ensures
            r == self.at(key@).integer(),
    {
        match self.get(key) {
            Some(Json::Number(n)) => match n {
                JsonNumber::PosInt(m) => if *m <= 9223372036854775807u64 {
                    Some(*m as i64)
                } else {
                    None
                },
                JsonNumber::NegInt(m) => Some(*m),
                JsonNumber::Float(_) => None,
            },
            _ => None,
        }
    }

    /// The number under `key`, whatever its shape.
    pub fn number_at(&self, key: &str) -> (r: Option<JsonNumber>)
        ensures
            r == self.at(key@).number(),
    {
        match self.get(key) {
            Some(Json::Number(n)) => Some(*n),
            _ => None,
        }
    }

    /// The elements of the array under `key`: `self[key].as_array()`.
    pub fn array_at(&self, key: &str) -> (r: Option<&Vec<Json>>)
        ensures
            r is None <==> self.at(key@).elements() is None,
            r matches Some(a) ==> self.at(key@).elements() == Some(a@),
    {
        match self.get(key) {
            Some(Json::Array(a)) => Some(a),
            _ => None,
        }
    }

    /// The elements of `self` when it is an array: `self.as_array()`.
    pub fn as_array(&self) -> (r: Option<&Vec<Json>>)
        ensures
            r is None <==> self.elements() is None,
            r matches Some(a) ==> self.elements() == Some(a@),
    {
        match self {
            Json::Array(a) => Some(a),
            _ => None,
        }
    }
}

} // verus!
