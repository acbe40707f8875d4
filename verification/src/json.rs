//! A JSON document model: the values that tool arguments, world state and
//! free-form stats carry.

use vstd::prelude::*;
use vstd::string::*;

use crate::text::str_eq;

verus! {

/// A JSON number, kept in the form it was written.
#[derive(Debug)]
pub enum JsonNumber {
    /// A non-negative integer.
    PosInt(u64),
    /// A negative integer.
    NegInt(i64),
    /// Any other number, held as its JSON text.
    Float(String),
}

/// A JSON value.
#[derive(Debug)]
pub enum JsonValue {
    Null,
    Bool(bool),
    Number(JsonNumber),
    String(String),
    Array(Vec<JsonValue>),
    /// Members in order; keys are unique.
    Object(Vec<(String, JsonValue)>),
}

/// The mathematical form of a [`JsonNumber`].
pub enum NumberModel {
    PosInt(u64),
    NegInt(i64),
    Float(Seq<char>),
}

/// The mathematical form of a [`JsonValue`].
pub enum JsonModel {
    Null,
    Bool(bool),
    Number(NumberModel),
    String(Seq<char>),
    Array(Seq<JsonModel>),
    Object(Seq<(Seq<char>, JsonModel)>),
}

impl View for JsonNumber {
    type V = NumberModel;

    open spec fn view(&self) -> NumberModel {
        match self {
            JsonNumber::PosInt(v) => NumberModel::PosInt(*v),
            JsonNumber::NegInt(v) => NumberModel::NegInt(*v),
            JsonNumber::Float(t) => NumberModel::Float(t@),
        }
    }
}

/// The model of a list of members.
pub open spec fn members_model(members: Seq<(String, JsonValue)>) -> Seq<(Seq<char>, JsonModel)>
    decreases members,
{
    Seq::new(
        members.len(),
        |i: int| (members[i].0@, if 0 <= i < members.len() { model_of(members[i].1) } else { JsonModel::Null }),
    )
}

/// The model of a list of items.
pub open spec fn items_model(items: Seq<JsonValue>) -> Seq<JsonModel>
    decreases items,
{
    Seq::new(items.len(), |i: int| if 0 <= i < items.len() { model_of(items[i]) } else { JsonModel::Null })
}

/// The model of a value.
pub open spec fn model_of(v: JsonValue) -> JsonModel
    decreases v,
{
    match v {
        JsonValue::Null => JsonModel::Null,
        JsonValue::Bool(b) => JsonModel::Bool(b),
        JsonValue::Number(n) => JsonModel::Number(n@),
        JsonValue::String(s) => JsonModel::String(s@),
        JsonValue::Array(items) => JsonModel::Array(items_model(items@)),
        JsonValue::Object(members) => JsonModel::Object(members_model(members@)),
    }
}

impl View for JsonValue {
    type V = JsonModel;

    open spec fn view(&self) -> JsonModel {
        model_of(*self)
    }
}

/// The value stored under `key` among `members` (the first match).
pub open spec fn member_lookup(members: Seq<(Seq<char>, JsonModel)>, key: Seq<char>) -> Option<JsonModel>
    decreases members.len(),
{
    if members.len() == 0 {
        None
    } else if members[0].0 == key {
        Some(members[0].1)
    } else {
        member_lookup(members.drop_first(), key)
    }
}

/// The value stored under `key` when `v` is an object (`Value::get`).
pub open spec fn lookup(v: JsonModel, key: Seq<char>) -> Option<JsonModel> {
    match v {
        JsonModel::Object(members) => member_lookup(members, key),
        _ => None,
    }
}

/// The text of a JSON string (`Value::as_str`).
pub open spec fn string_of(v: JsonModel) -> Option<Seq<char>> {
    match v {
        JsonModel::String(s) => Some(s),
        _ => None,
    }
}

/// The boolean of a JSON boolean (`Value::as_bool`).
pub open spec fn bool_of(v: JsonModel) -> Option<bool> {
    match v {
        JsonModel::Bool(b) => Some(b),
        _ => None,
    }
}

/// The text stored under `key`, when it is a string.
pub open spec fn string_field(v: JsonModel, key: Seq<char>) -> Option<Seq<char>> {
    match lookup(v, key) {
        Some(f) => string_of(f),
        None => None,
    }
}

/// The boolean stored under `key`, when it is a boolean.
pub open spec fn bool_field(v: JsonModel, key: Seq<char>) -> Option<bool> {
    match lookup(v, key) {
        Some(f) => bool_of(f),
        None => None,
    }
}

/// The model of `n` as a JSON number (`json!(n)`).
pub open spec fn int_model(n: int) -> JsonModel {
    if n >= 0 {
        JsonModel::Number(NumberModel::PosInt(n as u64))
    } else {
        JsonModel::Number(NumberModel::NegInt(n as i64))
    }
}

/// Index of the first member with key `key`.
pub open spec fn member_index(members: Seq<(Seq<char>, JsonModel)>, key: Seq<char>) -> Option<int>
    decreases members.len(),
{
    if members.len() == 0 {
        None
    } else if members[0].0 == key {
        Some(0)
    } else {
        match member_index(members.drop_first(), key) {
            Some(i) => Some(i + 1),
            None => None,
        }
    }
}

/// `members` with `key` bound to `value`: the first member with that key is
/// replaced in place, otherwise the member is appended.
pub open spec fn members_insert(members: Seq<(Seq<char>, JsonModel)>, key: Seq<char>, value: JsonModel) -> Seq<(Seq<char>, JsonModel)> {
    match member_index(members, key) {
        Some(i) => members.update(i, (key, value)),
        None => members.push((key, value)),
    }
}

/// `members` without any member keyed `key`.
pub open spec fn members_remove(members: Seq<(Seq<char>, JsonModel)>, key: Seq<char>) -> Seq<(Seq<char>, JsonModel)>
    decreases members.len(),
{
    if members.len() == 0 {
        members
    } else if members[0].0 == key {
        members_remove(members.drop_first(), key)
    } else {
        seq![members[0]] + members_remove(members.drop_first(), key)
    }
}

/// Where [`member_index`] points, and how it agrees with [`member_lookup`].
pub proof fn lemma_member_index(members: Seq<(Seq<char>, JsonModel)>, key: Seq<char>)
    ensures
        match member_index(members, key) {
            Some(i) => 0 <= i < members.len() && members[i].0 == key
                && member_lookup(members, key) == Some(members[i].1)
                && forall|j: int| 0 <= j < i ==> #[trigger] members[j].0 != key,
            None => member_lookup(members, key) is None
                && forall|j: int| 0 <= j < members.len() ==> #[trigger] members[j].0 != key,
        },
    decreases members.len(),
{
    if members.len() > 0 && members[0].0 != key {
        let t = members.drop_first();
        lemma_member_index(t, key);
        assert forall|j: int| 1 <= j < members.len() implies members[j] == t[j - 1] by {}
    }
}

/// A lookup is the first member with the key.
pub proof fn lemma_member_lookup_at(members: Seq<(Seq<char>, JsonModel)>, key: Seq<char>, i: int)
    requires
        0 <= i <= members.len(),
        forall|j: int| 0 <= j < i ==> #[trigger] members[j].0 != key,
        i < members.len() ==> members[i].0 == key,
    ensures
        member_index(members, key) == (if i < members.len() { Some(i) } else { None::<int> }),
        member_lookup(members, key) == (if i < members.len() { Some(members[i].1) } else { None::<JsonModel> }),
    decreases i,
{
    if i > 0 {
        let t = members.drop_first();
        assert forall|j: int| 0 <= j < i - 1 implies #[trigger] t[j].0 != key by {
            assert(t[j] == members[j + 1]);
        }
        if i < members.len() {
            assert(t[i - 1] == members[i]);
        }
        lemma_member_lookup_at(t, key, i - 1);
    }
}

/// Reading a key right after binding it gives the bound value; every other
/// key reads as before.
pub proof fn lemma_members_insert(members: Seq<(Seq<char>, JsonModel)>, key: Seq<char>, value: JsonModel, other: Seq<char>)
    ensures
        member_lookup(members_insert(members, key, value), key) == Some(value),
        other != key ==> member_lookup(members_insert(members, key, value), other) == member_lookup(members, other),
{
    lemma_member_index(members, key);
    let updated = members_insert(members, key, value);
    match member_index(members, key) {
        Some(i) => {
            assert forall|j: int| 0 <= j < i implies #[trigger] updated[j].0 != key by {
                assert(updated[j] == members[j]);
            }
            lemma_member_lookup_at(updated, key, i);
        },
        None => {
            assert forall|j: int| 0 <= j < members.len() implies #[trigger] updated[j].0 != key by {
                assert(updated[j] == members[j]);
            }
            lemma_member_lookup_at(updated, key, members.len() as int);
        },
    }
    if other != key {
        lemma_member_index(members, other);
        lemma_member_index(updated, other);
        match member_index(members, other) {
            Some(k) => {
                assert forall|j: int| 0 <= j < k implies #[trigger] updated[j].0 != other by {
                    if member_index(members, key) != Some(j) {
                        assert(updated[j] == members[j]);
                    }
                }
                assert(updated[k] == members[k]);
                lemma_member_lookup_at(updated, other, k);
            },
            None => {
                assert forall|j: int| 0 <= j < updated.len() implies #[trigger] updated[j].0 != other by {
                    if j < members.len() && member_index(members, key) != Some(j) {
                        assert(updated[j] == members[j]);
                    }
                }
                lemma_member_lookup_at(updated, other, updated.len() as int);
            },
        }
    }
}

/// Reading a key right after removing it finds nothing; every other key
/// reads as before.
pub proof fn lemma_members_remove(members: Seq<(Seq<char>, JsonModel)>, key: Seq<char>, other: Seq<char>)
    ensures
        member_lookup(members_remove(members, key), key) is None,
        other != key ==> member_lookup(members_remove(members, key), other) == member_lookup(members, other),
    decreases members.len(),
{
    if members.len() > 0 {
        let t = members.drop_first();
        lemma_members_remove(t, key, other);
        if members[0].0 != key {
            let r = seq![members[0]] + members_remove(t, key);
            assert(r.drop_first() =~= members_remove(t, key));
        }
    }
}

impl JsonValue {
    /// Whether the value is an object.
    pub open spec fn is_object_model(&self) -> bool {
        self@ is Object
    }

    /// A copy of the value.
    pub fn duplicate(&self) -> (r: JsonValue)
        ensures
            r@ == self@,
        decreases self,
    {
        match self {
            JsonValue::Null => JsonValue::Null,
            JsonValue::Bool(b) => JsonValue::Bool(*b),
            JsonValue::Number(n) => JsonValue::Number(
                match n {
                    JsonNumber::PosInt(v) => JsonNumber::PosInt(*v),
                    JsonNumber::NegInt(v) => JsonNumber::NegInt(*v),
                    JsonNumber::Float(t) => JsonNumber::Float(t.clone()),
                },
            ),
            JsonValue::String(s) => JsonValue::String(s.clone()),
            JsonValue::Array(items) => {
                let mut out: Vec<JsonValue> = Vec::new();
                let mut i: usize = 0;
                proof {
                    assert forall|j: int| 0 <= j < items@.len() implies decreases_to!(*self => #[trigger] items@[j]) by {
                        assert(decreases_to!(*items => items[j]));
                    }
                }
                while i < items.len()
                    invariant
                        forall|j: int| 0 <= j < items@.len() ==> decreases_to!(*self => #[trigger] items@[j]),
                        i <= items@.len(),
                        out@.len() == i,
                        forall|j: int| 0 <= j < i ==> (#[trigger] out@[j])@ == items@[j]@,
                    decreases items@.len() - i,
                {
                    let item = items[i].duplicate();
                    out.push(item);
                    i = i + 1;
                }
                proof {
                    assert(items_model(out@) =~= items_model(items@));
                }
                JsonValue::Array(out)
            },
            JsonValue::Object(members) => {
                let mut out: Vec<(String, JsonValue)> = Vec::new();
                let mut i: usize = 0;
                proof {
                    assert forall|j: int| 0 <= j < members@.len() implies decreases_to!(*self => (#[trigger] members@[j]).1) by {
                        assert(decreases_to!(*members => members[j]));
                    }
                }
                while i < members.len()
                    invariant
                        forall|j: int| 0 <= j < members@.len() ==> decreases_to!(*self => (#[trigger] members@[j]).1),
                        i <= members@.len(),
                        out@.len() == i,
                        forall|j: int| 0 <= j < i ==> (#[trigger] out@[j]).0@ == members@[j].0@
                            && out@[j].1@ == members@[j].1@,
                    decreases members@.len() - i,
                {
                    let key = members[i].0.clone();
                    let value = members[i].1.duplicate();
                    out.push((key, value));
                    i = i + 1;
                }
                proof {
                    assert(members_model(out@) =~= members_model(members@));
                }
                JsonValue::Object(out)
            },
        }
    }
}

/// Index of the first member of `members` keyed `key`.
fn find_member(members: &Vec<(String, JsonValue)>, key: &str) -> (r: Option<usize>)
    ensures
        match r {
            Some(i) => member_index(members_model(members@), key@) == Some(i as int),
            None => member_index(members_model(members@), key@) is None,
        },
{
    let ghost ms = members_model(members@);
    let mut i: usize = 0;
    while i < members.len()
        invariant
            i <= members@.len(),
            ms == members_model(members@),
            forall|j: int| 0 <= j < i ==> #[trigger] ms[j].0 != key@,
        decreases members@.len() - i,
    {
        if str_eq(members[i].0.as_str(), key) {
            proof {
                lemma_member_lookup_at(ms, key@, i as int);
            }
            return Some(i);
        }
        i = i + 1;
    }
    proof {
        lemma_member_lookup_at(ms, key@, ms.len() as int);
    }
    None
}

impl JsonValue {
    /// A JSON integer (`json!(n)`).
    pub fn from_i64(n: i64) -> (v: JsonValue)
        ensures
            v@ == int_model(n as int),
    {
        if n >= 0 {
            JsonValue::Number(JsonNumber::PosInt(n as u64))
        } else {
            JsonValue::Number(JsonNumber::NegInt(n))
        }
    }

    /// A JSON string holding `text`.
    pub fn from_str_slice(text: &str) -> (v: JsonValue)
        ensures
            v@ == JsonModel::String(text@),
    {
        JsonValue::String(String::from_str(text))
    }

    /// An empty JSON object.
    pub fn empty_object() -> (v: JsonValue)
        ensures
            v@ == JsonModel::Object(Seq::empty()),
    {
        let members: Vec<(String, JsonValue)> = Vec::new();
        proof {
            assert(members_model(members@) =~= Seq::empty());
        }
        JsonValue::Object(members)
    }

    /// The value stored under `key` when this is an object (`Value::get`).
    pub fn get(&self, key: &str) -> (r: Option<&JsonValue>)
        ensures
            match r {
                Some(v) => lookup(self@, key@) == Some(v@),
                None => lookup(self@, key@) is None,
            },
    {
        match self {
            JsonValue::Object(members) => {
                proof {
                    lemma_member_index(members_model(members@), key@);
                }
                match find_member(members, key) {
                    Some(i) => Some(&members[i].1),
                    None => None,
                }
            },
            _ => None,
        }
    }

    /// The text of a JSON string (`Value::as_str`).
    pub fn as_str(&self) -> (r: Option<&str>)
        ensures
            match r {
                Some(s) => string_of(self@) == Some(s@),
                None => string_of(self@) is None,
            },
    {
        match self {
            JsonValue::String(s) => Some(s.as_str()),
            _ => None,
        }
    }

    /// The boolean of a JSON boolean (`Value::as_bool`).
    pub fn as_bool(&self) -> (r: Option<bool>)
        ensures
            r == bool_of(self@),
    {
        match self {
            JsonValue::Bool(b) => Some(*b),
            _ => None,
        }
    }

    /// Bind `key` to `value` in this object, returning the value it replaced.
    pub fn insert(&mut self, key: &str, value: JsonValue) -> (previous: Option<JsonValue>)
        requires
            old(self)@ is Object,
        ensures
            final(self)@ == JsonModel::Object(members_insert(old(self)@->Object_0, key@, value@)),
            match previous {
                Some(p) => lookup(old(self)@, key@) == Some(p@),
                None => lookup(old(self)@, key@) is None,
            },
    {
        match self {
            JsonValue::Object(members) => {
                let ghost before = members_model(members@);
                proof {
                    lemma_member_index(before, key@);
                }
                match find_member(members, key) {
                    Some(i) => {
                        let (_old_key, old_value) = members.remove(i);
                        members.insert(i, (String::from_str(key), value));
                        proof {
                            assert(members_model(members@) =~= before.update(i as int, (key@, value@)));
                        }
                        Some(old_value)
                    },
                    None => {
                        members.push((String::from_str(key), value));
                        proof {
                            assert(members_model(members@) =~= before.push((key@, value@)));
                        }
                        None
                    },
                }
            },
            _ => None,
        }
    }

    /// Remove `key` from this object, returning the value it held.
    pub fn remove(&mut self, key: &str) -> (removed: Option<JsonValue>)
        requires
            old(self)@ is Object,
        ensures
            final(self)@ == JsonModel::Object(members_remove(old(self)@->Object_0, key@)),
            match removed {
                Some(p) => lookup(old(self)@, key@) == Some(p@),
                None => lookup(old(self)@, key@) is None,
            },
    {
        match self {
            JsonValue::Object(members) => {
                let ghost before = members_model(members@);
                proof {
                    lemma_member_index(before, key@);
                }
                let mut rest: Vec<(String, JsonValue)> = Vec::new();
                std::mem::swap(members, &mut rest);
                let mut kept: Vec<(String, JsonValue)> = Vec::new();
                let mut removed: Option<JsonValue> = None;
                let ghost mut done: int = 0;
                proof {
                    assert(members_model(rest@) =~= before.subrange(0, before.len() as int));
                    assert(members_model(kept@) =~= Seq::empty());
                }
                while rest.len() > 0
                    invariant
                        0 <= done <= before.len(),
                        members_model(rest@) == before.subrange(done, before.len() as int),
                        members_remove(before, key@) == members_model(kept@) + members_remove(members_model(rest@), key@),
                        match removed {
                            Some(p) => member_lookup(before, key@) == Some(p@),
                            None => forall|j: int| 0 <= j < done ==> #[trigger] before[j].0 != key@,
                        },
                    decreases rest@.len(),
                {
                    let ghost rm = members_model(rest@);
                    let (k, v) = rest.remove(0);
                    proof {
                        assert(rm[0] == before[done]);
                        assert(members_model(rest@) =~= rm.drop_first());
                        assert(members_model(rest@) =~= before.subrange(done + 1, before.len() as int));
                    }
                    if !str_eq(k.as_str(), key) {
                        let ghost km = members_model(kept@);
                        kept.push((k, v));
                        proof {
                            assert(members_model(kept@) =~= km.push(rm[0]));
                            assert(km.push(rm[0]) + members_remove(rm.drop_first(), key@) =~= km + (seq![rm[0]] + members_remove(rm.drop_first(), key@)));
                        }
                    } else {
                        if removed.is_none() {
                            proof {
                                lemma_member_lookup_at(before, key@, done);
                            }
                            removed = Some(v);
                        }
                    }
                    proof {
                        done = done + 1;
                    }
                }
                proof {
                    assert(members_model(rest@) =~= Seq::empty());
                    assert(members_model(kept@) + Seq::empty() =~= members_model(kept@));
                    if removed.is_none() {
                        lemma_member_lookup_at(before, key@, before.len() as int);
                    }
                }
                *members = kept;
                removed
            },
            _ => None,
        }
    }
}

/// The models of integer items (`json!(ns)` for a list of numbers).
pub open spec fn int_items(ns: Seq<u32>) -> Seq<JsonModel> {
    Seq::new(ns.len(), |i: int| int_model(ns[i] as int))
}

/// A member for an object under construction.
pub fn member(key: &str, value: JsonValue) -> (m: (String, JsonValue))
    ensures
        m.0@ == key@,
        m.1@ == value@,
{
    (String::from_str(key), value)
}

/// A JSON array of unsigned integers.
pub fn int_array(ns: &Vec<u32>) -> (v: JsonValue)
    ensures
        v@ == JsonModel::Array(int_items(ns@)),
{
    let mut items: Vec<JsonValue> = Vec::new();
    let mut i: usize = 0;
    while i < ns.len()
        invariant
            i <= ns@.len(),
            items@.len() == i,
            forall|j: int| 0 <= j < i ==> (#[trigger] items@[j])@ == int_model(ns@[j] as int),
        decreases ns@.len() - i,
    {
        items.push(JsonValue::from_i64(ns[i] as i64));
        i = i + 1;
    }
    proof {
        assert(items_model(items@) =~= int_items(ns@));
    }
    JsonValue::Array(items)
}

/// A JSON object with one member.
pub fn object1(m0: (String, JsonValue)) -> (v: JsonValue)
    ensures
        v@ == JsonModel::Object(seq![(m0.0@, m0.1@)]),
{
    let mut members: Vec<(String, JsonValue)> = Vec::new();
    members.push(m0);
    proof {
        assert(members_model(members@) =~= seq![(m0.0@, m0.1@)]);
    }
    JsonValue::Object(members)
}

/// A JSON object with two members.
pub fn object2(m0: (String, JsonValue), m1: (String, JsonValue)) -> (v: JsonValue)
    ensures
        v@ == JsonModel::Object(seq![(m0.0@, m0.1@), (m1.0@, m1.1@)]),
{
    let mut members: Vec<(String, JsonValue)> = Vec::new();
    members.push(m0);
    members.push(m1);
    proof {
        assert(members_model(members@) =~= seq![(m0.0@, m0.1@), (m1.0@, m1.1@)]);
    }
    JsonValue::Object(members)
}

/// A JSON object with three members.
pub fn object3(m0: (String, JsonValue), m1: (String, JsonValue), m2: (String, JsonValue)) -> (v: JsonValue)
    ensures
        v@ == JsonModel::Object(seq![(m0.0@, m0.1@), (m1.0@, m1.1@), (m2.0@, m2.1@)]),
{
    let mut members: Vec<(String, JsonValue)> = Vec::new();
    members.push(m0);
    members.push(m1);
    members.push(m2);
    proof {
        assert(members_model(members@) =~= seq![(m0.0@, m0.1@), (m1.0@, m1.1@), (m2.0@, m2.1@)]);
    }
    JsonValue::Object(members)
}

/// A JSON object with four members.
pub fn object4(m0: (String, JsonValue), m1: (String, JsonValue), m2: (String, JsonValue), m3: (String, JsonValue)) -> (v: JsonValue)
    ensures
        v@ == JsonModel::Object(seq![(m0.0@, m0.1@), (m1.0@, m1.1@), (m2.0@, m2.1@), (m3.0@, m3.1@)]),
{
    let mut members: Vec<(String, JsonValue)> = Vec::new();
    members.push(m0);
    members.push(m1);
    members.push(m2);
    members.push(m3);
    proof {
        assert(members_model(members@) =~= seq![(m0.0@, m0.1@), (m1.0@, m1.1@), (m2.0@, m2.1@), (m3.0@, m3.1@)]);
    }
    JsonValue::Object(members)
}

/// A JSON array of strings.
pub fn string_array1(s0: &str) -> (v: JsonValue)
    ensures
        v@ == JsonModel::Array(seq![JsonModel::String(s0@)]),
{
    let mut items: Vec<JsonValue> = Vec::new();
    items.push(JsonValue::from_str_slice(s0));
    proof {
        assert(items_model(items@) =~= seq![JsonModel::String(s0@)]);
    }
    JsonValue::Array(items)
}

/// A JSON array of two strings.
pub fn string_array2(s0: &str, s1: &str) -> (v: JsonValue)
    ensures
        v@ == JsonModel::Array(seq![JsonModel::String(s0@), JsonModel::String(s1@)]),
{
    let mut items: Vec<JsonValue> = Vec::new();
    items.push(JsonValue::from_str_slice(s0));
    items.push(JsonValue::from_str_slice(s1));
    proof {
        assert(items_model(items@) =~= seq![JsonModel::String(s0@), JsonModel::String(s1@)]);
    }
    JsonValue::Array(items)
}

/// A JSON string value.
pub open spec fn str_model(s: Seq<char>) -> JsonModel {
    JsonModel::String(s)
}

} // verus!
