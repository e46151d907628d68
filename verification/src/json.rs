//! JSON documents, and what they say.
//!
//! A [`JsonValue`] is a document as a program holds it; its
//! [`model`](JsonValue::model) is what the document says, with objects as
//! maps. Contracts speak of models, so the order in which an object holds
//! its members never matters.

use vstd::prelude::*;

verus! {

/// A number as JSON writes it: a sign, digits, and a power of ten. It
/// stands for `mantissa * 10^exponent`, negated where `negative` is set.
#[derive(Clone, Copy, Debug, PartialEq, Eq, Structural)]
pub struct JsonNumber {
    pub negative: bool,
    pub mantissa: u128,
    pub exponent: i32,
}

/// A JSON document.
#[derive(Debug)]
pub enum JsonValue {
    Null,
    Boolean(bool),
    Number(JsonNumber),
    Text(String),
    Array(Vec<JsonValue>),
    Object(JsonObject),
}

/// The members of a JSON object: names with their values, no name twice.
#[derive(Debug)]
pub struct JsonObject {
    entries: Vec<(String, JsonValue)>,
}

/// What a JSON document says: an object is a map from names to values, in
/// no order.
pub enum JsonModel {
    Null,
    Boolean(bool),
    Number(JsonNumber),
    Text(Seq<char>),
    Array(Seq<JsonModel>),
    Object(Map<Seq<char>, JsonModel>),
}

/// Whether `entries` holds `name` at position `i`.
pub open spec fn names_at(entries: Seq<(String, JsonValue)>, name: Seq<char>, i: int) -> bool {
    0 <= i < entries.len() && entries[i].0@ == name
}

/// Whether no name occurs twice in `entries`.
pub open spec fn distinct_names(entries: Seq<(String, JsonValue)>) -> bool {
    forall|i: int, j: int|
        0 <= i < j < entries.len() ==> (#[trigger] entries[i]).0@ != (#[trigger] entries[j]).0@
}

impl JsonValue {
    /// What the document says.
    pub open spec fn model(self) -> JsonModel
        decreases self,
    {
        match self {
            JsonValue::Null => JsonModel::Null,
            JsonValue::Boolean(b) => JsonModel::Boolean(b),
            JsonValue::Number(n) => JsonModel::Number(n),
            JsonValue::Text(t) => JsonModel::Text(t@),
            JsonValue::Array(items) => JsonModel::Array(
                Seq::new(
                    items@.len(),
                    |i: int|
                        if 0 <= i < items@.len() {
                            items@[i].model()
                        } else {
                            JsonModel::Null
                        },
                ),
            ),
            JsonValue::Object(object) => JsonModel::Object(object.model()),
        }
    }
}

impl JsonObject {
    /// What the object says: the value of each name it holds.
    pub closed spec fn model(self) -> Map<Seq<char>, JsonModel>
        decreases self,
    {
        Map::new(
            |name: Seq<char>| exists|i: int| names_at(self.entries@, name, i),
            |name: Seq<char>|
                {
                    let i = choose|i: int| names_at(self.entries@, name, i);
                    if 0 <= i < self.entries@.len() {
                        self.entries@[i].1.model()
                    } else {
                        JsonModel::Null
                    }
                },
        )
    }
}

impl JsonObject {
    #[verifier::type_invariant]
    spec fn well_formed(self) -> bool {
        distinct_names(self.entries@)
    }

    /// The object says exactly what its entries say, each under its name.
    proof fn lemma_model(self)
        requires
            distinct_names(self.entries@),
        ensures
            forall|name: Seq<char>|
                self.model().contains_key(name) <==> exists|i: int|
                    names_at(self.entries@, name, i),
            forall|i: int|
                0 <= i < self.entries@.len() ==> self.model().contains_key(
                    (#[trigger] self.entries@[i]).0@,
                ) && self.model()[self.entries@[i].0@] == self.entries@[i].1.model(),
    {
        assert forall|i: int| 0 <= i < self.entries@.len() implies self.model().contains_key(
            (#[trigger] self.entries@[i]).0@,
        ) && self.model()[self.entries@[i].0@] == self.entries@[i].1.model() by {
            let name = self.entries@[i].0@;
            assert(names_at(self.entries@, name, i));
            let chosen = choose|j: int| names_at(self.entries@, name, j);
            if chosen < i {
                assert(self.entries@[chosen].0@ != self.entries@[i].0@);
            } else if i < chosen {
                assert(self.entries@[i].0@ != self.entries@[chosen].0@);
            }
        }
    }

    /// An object without members.
    pub fn new() -> (object: JsonObject)
        ensures
            object.model() == Map::<Seq<char>, JsonModel>::empty(),
    {
        let object = JsonObject { entries: Vec::new() };
        assert(object.model() =~= Map::<Seq<char>, JsonModel>::empty());
        object
    }

    /// The members, each name once, in the order in which they are held.
    pub fn entries(&self) -> (entries: &Vec<(String, JsonValue)>)
        ensures
            distinct_names(entries@),
            forall|name: Seq<char>|
                self.model().contains_key(name) <==> exists|i: int| names_at(entries@, name, i),
            forall|i: int|
                0 <= i < entries@.len() ==> self.model().contains_key((#[trigger] entries@[i]).0@)
                    && self.model()[entries@[i].0@] == entries@[i].1.model(),
    {
        proof {
            use_type_invariant(self);
            self.lemma_model();
        }
        &self.entries
    }

    /// Gives up the object for its members, each name once.
    pub fn into_entries(self) -> (entries: Vec<(String, JsonValue)>)
        ensures
            distinct_names(entries@),
            forall|name: Seq<char>|
                self.model().contains_key(name) <==> exists|i: int| names_at(entries@, name, i),
            forall|i: int|
                0 <= i < entries@.len() ==> self.model().contains_key((#[trigger] entries@[i]).0@)
                    && self.model()[entries@[i].0@] == entries@[i].1.model(),
            forall|i: int|
                0 <= i < entries@.len() ==> decreases_to!(self => (#[trigger] entries@[i]).1),
    {
        proof {
            use_type_invariant(&self);
            self.lemma_model();
        }
        self.entries
    }

    /// Position of the member called `name`, if there is one.
    fn position(entries: &Vec<(String, JsonValue)>, name: &String) -> (at: Option<usize>)
        ensures
            match at {
                Some(i) => names_at(entries@, name@, i as int),
                None => forall|i: int| !names_at(entries@, name@, i),
            },
    {
        let mut i: usize = 0;
        while i < entries.len()
            invariant
                i <= entries.len(),
                forall|j: int| 0 <= j < i ==> !names_at(entries@, name@, j),
            decreases entries.len() - i,
        {
            if entries[i].0 == *name {
                return Some(i);
            }
            i = i + 1;
        }
        None
    }

    /// The value of the member called `name`, if there is one.
    pub fn get(&self, name: &str) -> (value: Option<&JsonValue>)
        ensures
            match value {
                Some(v) => self.model().contains_key(name@) && self.model()[name@] == v.model(),
                None => !self.model().contains_key(name@),
            },
    {
        proof {
            use_type_invariant(self);
            self.lemma_model();
        }
        let key = name.to_owned();
        match Self::position(&self.entries, &key) {
            Some(i) => Some(&self.entries[i].1),
            None => None,
        }
    }

    /// Sets the member called `name` to `value`, in place of an earlier
    /// member of that name.
    pub fn insert(&mut self, name: String, value: JsonValue)
        ensures
            final(self).model() == old(self).model().insert(name@, value.model()),
    {
        let mut taken = JsonObject::new();
        core::mem::swap(self, &mut taken);
        proof {
            use_type_invariant(&taken);
            taken.lemma_model();
        }
        let ghost before = taken;
        let JsonObject { mut entries } = taken;
        match Self::position(&entries, &name) {
            Some(i) => {
                entries.set(i, (name, value));
            },
            None => {
                entries.push((name, value));
            },
        }
        assert(distinct_names(entries@)) by {
            assert forall|i: int, j: int| 0 <= i < j < entries@.len() implies (
            #[trigger] entries@[i]).0@ != (#[trigger] entries@[j]).0@ by {
                if i < before.entries@.len() && j < before.entries@.len() {
                    assert(before.entries@[i].0@ != before.entries@[j].0@);
                }
                if j >= before.entries@.len() {
                    assert(!names_at(before.entries@, name@, i));
                }
            }
        }
        let after = JsonObject { entries };
        proof {
            after.lemma_model();
            assert(after.model() =~= before.model().insert(name@, value.model())) by {
                assert forall|k: Seq<char>| #[trigger]
                    before.model().insert(name@, value.model()).contains_key(
                        k,
                    ) implies after.model().contains_key(k) && after.model()[k]
                    == before.model().insert(name@, value.model())[k] by {
                    if k == name@ {
                        let at = choose|i: int| names_at(after.entries@, name@, i);
                        if forall|i: int| !names_at(before.entries@, name@, i) {
                            assert(names_at(after.entries@, name@, after.entries@.len() - 1));
                        } else {
                            let i = choose|i: int| names_at(before.entries@, name@, i);
                            assert(names_at(after.entries@, name@, i));
                        }
                    } else {
                        let i = choose|i: int| names_at(before.entries@, k, i);
                        assert(names_at(after.entries@, k, i));
                        assert(after.entries@[i] == before.entries@[i]);
                    }
                }
                assert forall|k: Seq<char>| #[trigger]
                    after.model().contains_key(k) implies before.model().insert(
                    name@,
                    value.model(),
                ).contains_key(k) by {
                    let i = choose|i: int| names_at(after.entries@, k, i);
                    if k != name@ {
                        assert(names_at(before.entries@, k, i));
                    }
                }
            }
        }
        *self = after;
    }

    /// Takes out the member called `name` and returns its value, if there
    /// is one.
    pub fn remove(&mut self, name: &str) -> (value: Option<JsonValue>)
        ensures
            final(self).model() == old(self).model().remove(name@),
            match value {
                Some(v) => old(self).model().contains_key(name@) && old(self).model()[name@]
                    == v.model(),
                None => !old(self).model().contains_key(name@),
            },
    {
        let mut taken = JsonObject::new();
        core::mem::swap(self, &mut taken);
        proof {
            use_type_invariant(&taken);
            taken.lemma_model();
        }
        let ghost before = taken;
        let JsonObject { mut entries } = taken;
        let key = name.to_owned();
        match Self::position(&entries, &key) {
            Some(i) => {
                let entry = entries.remove(i);
                assert(distinct_names(entries@)) by {
                    assert forall|a: int, b: int| 0 <= a < b < entries@.len() implies (
                    #[trigger] entries@[a]).0@ != (#[trigger] entries@[b]).0@ by {
                        let a0 = if a < i {
                            a
                        } else {
                            a + 1
                        };
                        let b0 = if b < i {
                            b
                        } else {
                            b + 1
                        };
                        assert(before.entries@[a0].0@ != before.entries@[b0].0@);
                    }
                }
                let after = JsonObject { entries };
                proof {
                    after.lemma_model();
                    assert(after.model() =~= before.model().remove(name@)) by {
                        assert forall|k: Seq<char>| #[trigger]
                            before.model().remove(name@).contains_key(
                                k,
                            ) implies after.model().contains_key(k) && after.model()[k]
                            == before.model()[k] by {
                            let j = choose|j: int| names_at(before.entries@, k, j);
                            let j0 = if j < i {
                                j
                            } else {
                                j - 1
                            };
                            assert(names_at(after.entries@, k, j0));
                        }
                        assert forall|k: Seq<char>| #[trigger]
                            after.model().contains_key(k) implies before.model().remove(
                            name@,
                        ).contains_key(k) by {
                            let j = choose|j: int| names_at(after.entries@, k, j);
                            let j0 = if j < i {
                                j
                            } else {
                                j + 1
                            };
                            assert(names_at(before.entries@, k, j0));
                            assert(before.entries@[j0].0@ != before.entries@[i as int].0@);
                        }
                    }
                }
                *self = after;
                Some(entry.1)
            },
            None => {
                let after = JsonObject { entries };
                proof {
                    assert(after.model() =~= before.model().remove(name@));
                }
                *self = after;
                None
            },
        }
    }
}

} // verus!
