//! The document tree: JSON values whose objects keep the order of their keys.
//!
//! [`Value`] and [`Object`] are what runs; their view is a [`Json`]. An object's fields are a
//! sequence of pairs, so where a key stands is part of the value.

use crate::json::{self, Fields, Json};
use crate::text::same;
use vstd::prelude::*;

verus! {

/// A JSON value. A number is held as the text it is written as.
#[derive(Debug)]
pub enum Value {
    Null,
    Bool(bool),
    Number(String),
    Str(String),
    Array(Vec<Value>),
    Object(Object),
}

/// A JSON object that keeps the order of its keys; no key occurs twice.
#[derive(Debug)]
pub struct Object {
    entries: Vec<(String, Value)>,
}

impl View for Value {
    type V = Json;

    open spec fn view(&self) -> Json
        decreases self,
    {
        match *self {
            Value::Null => Json::Null,
            Value::Bool(b) => Json::Bool(b),
            Value::Number(n) => Json::Number(n@),
            Value::Str(s) => Json::Str(s@),
            Value::Array(items) => Json::Array(items_view(items@)),
            Value::Object(o) => Json::Object(o.view()),
        }
    }
}

impl View for Object {
    type V = Seq<(Seq<char>, Json)>;

    closed spec fn view(&self) -> Seq<(Seq<char>, Json)>
        decreases self,
    {
        pairs_view(self.entries@)
    }
}

/// The mathematical values of a sequence of values.
pub open spec fn items_view(items: Seq<Value>) -> Seq<Json>
    decreases items,
{
    Seq::new(
        items.len(),
        |i: int|
            if 0 <= i < items.len() {
                items[i].view()
            } else {
                Json::Null
            },
    )
}

/// The fields that pairs of a key and a value make.
pub open spec fn pairs_view(entries: Seq<(String, Value)>) -> Fields
    decreases entries,
{
    Seq::new(
        entries.len(),
        |i: int|
            if 0 <= i < entries.len() {
                (entries[i].0@, entries[i].1.view())
            } else {
                (Seq::empty(), Json::Null)
            },
    )
}


// ----- Views of changed sequences -----

pub broadcast proof fn items_view_update(items: Seq<Value>, i: int, v: Value)
    requires
        0 <= i < items.len(),
    ensures
        #[trigger] items_view(items.update(i, v)) == items_view(items).update(i, v@),
{
    assert(items_view(items.update(i, v)) =~= items_view(items).update(i, v@));
}

pub broadcast proof fn items_view_push(items: Seq<Value>, v: Value)
    ensures
        #[trigger] items_view(items.push(v)) == items_view(items).push(v@),
{
    assert(items_view(items.push(v)) =~= items_view(items).push(v@));
}

pub broadcast proof fn items_view_insert(items: Seq<Value>, i: int, v: Value)
    requires
        0 <= i <= items.len(),
    ensures
        #[trigger] items_view(items.insert(i, v)) == items_view(items).insert(i, v@),
{
    assert(items_view(items.insert(i, v)) =~= items_view(items).insert(i, v@));
}

pub broadcast proof fn items_view_remove(items: Seq<Value>, i: int)
    requires
        0 <= i < items.len(),
    ensures
        #[trigger] items_view(items.remove(i)) == items_view(items).remove(i),
{
    assert(items_view(items.remove(i)) =~= items_view(items).remove(i));
}

broadcast proof fn pairs_view_update(entries: Seq<(String, Value)>, i: int, e: (String, Value))
    requires
        0 <= i < entries.len(),
    ensures
        #[trigger] pairs_view(entries.update(i, e)) == pairs_view(entries).update(
            i,
            (e.0@, e.1@),
        ),
{
    assert(pairs_view(entries.update(i, e)) =~= pairs_view(entries).update(i, (e.0@, e.1@)));
}

broadcast proof fn pairs_view_push(entries: Seq<(String, Value)>, e: (String, Value))
    ensures
        #[trigger] pairs_view(entries.push(e)) == pairs_view(entries).push((e.0@, e.1@)),
{
    assert(pairs_view(entries.push(e)) =~= pairs_view(entries).push((e.0@, e.1@)));
}

broadcast proof fn pairs_view_drop_last(entries: Seq<(String, Value)>)
    requires
        entries.len() > 0,
    ensures
        #[trigger] pairs_view(entries.drop_last()) == pairs_view(entries).drop_last(),
{
    assert(pairs_view(entries.drop_last()) =~= pairs_view(entries).drop_last());
}

broadcast proof fn pairs_view_remove(entries: Seq<(String, Value)>, i: int)
    requires
        0 <= i < entries.len(),
    ensures
        #[trigger] pairs_view(entries.remove(i)) == pairs_view(entries).remove(i),
{
    assert(pairs_view(entries.remove(i)) =~= pairs_view(entries).remove(i));
}

pub broadcast group group_items_view {
    items_view_update,
    items_view_push,
    items_view_insert,
    items_view_remove,
}

broadcast group group_entries_view {
    pairs_view_update,
    pairs_view_push,
    pairs_view_drop_last,
    pairs_view_remove,
}

// ----- Objects -----

impl Object {
    pub fn new() -> (o: Object)
        ensures
            o@ == Seq::<(Seq<char>, Json)>::empty(),
    {
        let o = Object { entries: Vec::new() };
        assert(o@ =~= Seq::<(Seq<char>, Json)>::empty());
        o
    }

    /// The object with these fields.
    pub fn of(fields: Vec<(String, Value)>) -> (o: Object)
        requires
            json::distinct_keys(pairs_view(fields@)),
        ensures
            o@ == pairs_view(fields@),
    {
        Object { entries: fields }
    }

    pub fn len(&self) -> (n: usize)
        ensures
            n == self@.len(),
    {
        self.entries.len()
    }

    pub fn is_empty(&self) -> (r: bool)
        ensures
            r == (self@.len() == 0),
    {
        self.entries.len() == 0
    }

    /// The key of the `i`th field.
    pub fn key_at(&self, i: usize) -> (key: &str)
        requires
            i < self@.len(),
        ensures
            key@ == self@[i as int].0,
    {
        self.entries[i].0.as_str()
    }

    /// The value of the `i`th field.
    pub fn value_at(&self, i: usize) -> (v: &Value)
        requires
            i < self@.len(),
        ensures
            v@ == self@[i as int].1,
            decreases_to!(self => v),
    {
        assert(decreases_to!(self => self.entries));
        assert(decreases_to!(self.entries => self.entries@));
        assert(decreases_to!(self.entries@ => self.entries@[i as int]));
        assert(decreases_to!(self.entries@[i as int] => self.entries@[i as int].1));
        &self.entries[i].1
    }

    /// Where `key` stands; the number of fields if it is missing.
    pub fn position(&self, key: &str) -> (i: usize)
        ensures
            i == json::key_index(self@, key@),
            i <= self@.len(),
    {
        let mut i: usize = 0;
        while i < self.entries.len()
            invariant
                i <= self.entries.len(),
                forall|j: int| 0 <= j < i ==> (#[trigger] self@[j]).0 != key@,
            decreases self.entries.len() - i,
        {
            if same(self.entries[i].0.as_str(), key) {
                proof {
                    json::lemma_key_index_is(self@, key@, i as int);
                }
                return i;
            }
            i += 1;
        }
        proof {
            json::lemma_key_index_is(self@, key@, i as int);
        }
        i
    }

    pub fn contains_key(&self, key: &str) -> (r: bool)
        ensures
            r == json::has_key(self@, key@),
    {
        self.position(key) < self.entries.len()
    }

    pub fn get(&self, key: &str) -> (r: Option<&Value>)
        ensures
            match r {
                Some(v) => json::field(self@, key@) == Some(v@),
                None => json::field(self@, key@) is None,
            },
    {
        let i: usize = self.position(key);
        if i < self.entries.len() {
            Some(&self.entries[i].1)
        } else {
            None
        }
    }

    /// The value of `key`, to change it in place.
    pub fn get_mut(&mut self, key: &str) -> (r: Option<&mut Value>)
        ensures
            match r {
                Some(v) => json::field(old(self)@, key@) == Some(v@) && final(self)@ == json::put(
                    old(self)@,
                    key@,
                    final(v)@,
                ),
                None => json::field(old(self)@, key@) is None && *final(self) == *old(self),
            },
    {
        broadcast use group_entries_view;

        let i: usize = self.position(key);
        if i < self.entries.len() {
            proof {
                json::lemma_key_index(self@, key@);
            }
            Some(&mut self.entries[i].1)
        } else {
            None
        }
    }

    /// Sets `key`: in place if it is there, else as the last field.
    pub fn insert(&mut self, key: &str, value: Value)
        ensures
            final(self)@ == json::put(old(self)@, key@, value@),
    {
        broadcast use group_entries_view;

        let i: usize = self.position(key);
        proof {
            json::lemma_key_index(self@, key@);
        }
        if i < self.entries.len() {
            self.entries[i].1 = value;
        } else {
            self.entries.push((key.to_string(), value));
        }
    }

    /// The value of `key`, to change it in place; `default` is put first if the key is missing.
    pub fn entry_or_insert(&mut self, key: &str, default: Value) -> (r: &mut Value)
        ensures
            r@ == match json::field(old(self)@, key@) {
                Some(v) => v,
                None => default@,
            },
            final(self)@ == json::put(old(self)@, key@, final(r)@),
    {
        broadcast use group_entries_view;

        let i: usize = self.position(key);
        proof {
            json::lemma_key_index(self@, key@);
        }
        if i == self.entries.len() {
            self.entries.push((key.to_string(), default));
        }
        &mut self.entries[i].1
    }

    /// Takes `key` out; the last field moves into its place. Whether it was there.
    pub fn remove(&mut self, key: &str) -> (removed: bool)
        ensures
            removed == json::has_key(old(self)@, key@),
            final(self)@ == json::without(old(self)@, key@),
    {
        broadcast use group_entries_view;

        let i: usize = self.position(key);
        proof {
            json::lemma_key_index(self@, key@);
        }
        if i < self.entries.len() {
            self.entries.swap_remove(i);
            true
        } else {
            false
        }
    }

    /// Keeps the marked fields, in order.
    pub fn retain(&mut self, keep: &Vec<bool>)
        requires
            keep@.len() == old(self)@.len(),
        ensures
            final(self)@ == json::retained(old(self)@, keep@),
    {
        let ghost all = self@;
        let count: usize = self.entries.len();
        let mut done: usize = 0;
        let mut i: usize = 0;
        assert(json::retained(all.take(0), keep@) + all.skip(0) =~= all);
        while done < count
            invariant
                i <= done <= count == all.len() == keep@.len(),
                self@ == json::retained(all.take(done as int), keep@) + all.skip(done as int),
                i == json::retained(all.take(done as int), keep@).len(),
            decreases count - done,
        {
            broadcast use group_entries_view;

            let ghost before = json::retained(all.take(done as int), keep@);
            assert(all.take(done + 1).drop_last() =~= all.take(done as int));
            assert(self@.len() == before.len() + count - done);
            if keep[done] {
                i += 1;
            } else {
                let ghost entries = self.entries@;
                self.entries.remove(i);
                assert(self@ == pairs_view(entries).remove(i as int));
                assert(self@ =~= before + all.skip(done + 1));
            }
            done += 1;
            assert(self@ =~= json::retained(all.take(done as int), keep@) + all.skip(
                done as int,
            ));
        }
        assert(all.take(done as int) =~= all);
        assert(self@ =~= json::retained(all, keep@));
    }
}

// ----- Values -----

impl Value {
    /// A string.
    pub fn text(s: &str) -> (v: Value)
        ensures
            v@ == Json::Str(s@),
    {
        Value::Str(s.to_string())
    }

    /// The field `key` of an object; `None` of anything else.
    pub fn get(&self, key: &str) -> (r: Option<&Value>)
        ensures
            match r {
                Some(v) => json::get(self@, key@) == Some(v@),
                None => json::get(self@, key@) is None,
            },
    {
        match self {
            Value::Object(o) => o.get(key),
            _ => None,
        }
    }

    /// As [`Value::get`], to change the field in place.
    pub fn get_mut(&mut self, key: &str) -> (r: Option<&mut Value>)
        ensures
            match r {
                Some(v) => json::get(old(self)@, key@) == Some(v@) && final(self)@
                    == Json::Object(json::put(old(self)@->Object_0, key@, final(v)@)),
                None => json::get(old(self)@, key@) is None && *final(self) == *old(self),
            },
    {
        match self {
            Value::Object(o) => o.get_mut(key),
            _ => None,
        }
    }

    pub fn as_str(&self) -> (r: Option<&str>)
        ensures
            match r {
                Some(s) => self@ == Json::Str(s@),
                None => !(self@ is Str),
            },
    {
        match self {
            Value::Str(s) => Some(s.as_str()),
            _ => None,
        }
    }

    pub fn as_bool(&self) -> (r: Option<bool>)
        ensures
            match r {
                Some(b) => self@ == Json::Bool(b),
                None => !(self@ is Bool),
            },
    {
        match self {
            Value::Bool(b) => Some(*b),
            _ => None,
        }
    }

    pub fn as_array(&self) -> (r: Option<&Vec<Value>>)
        ensures
            match r {
                Some(items) => self@ == Json::Array(items_view(items@)),
                None => !(self@ is Array),
            },
    {
        match self {
            Value::Array(items) => Some(items),
            _ => None,
        }
    }

    pub fn as_array_mut(&mut self) -> (r: Option<&mut Vec<Value>>)
        ensures
            match r {
                Some(items) => old(self)@ == Json::Array(items_view(items@)) && final(self)@
                    == Json::Array(items_view(final(items)@)),
                None => !(old(self)@ is Array) && *final(self) == *old(self),
            },
    {
        match self {
            Value::Array(items) => Some(items),
            _ => None,
        }
    }

    pub fn as_object(&self) -> (r: Option<&Object>)
        ensures
            match r {
                Some(o) => self@ == Json::Object(o@),
                None => !(self@ is Object),
            },
    {
        match self {
            Value::Object(o) => Some(o),
            _ => None,
        }
    }

    pub fn as_object_mut(&mut self) -> (r: Option<&mut Object>)
        ensures
            match r {
                Some(o) => old(self)@ == Json::Object(o@) && final(self)@ == Json::Object(final(o)@),
                None => !(old(self)@ is Object) && *final(self) == *old(self),
            },
    {
        match self {
            Value::Object(o) => Some(o),
            _ => None,
        }
    }

    /// The string under `key` of an object.
    pub fn text_at(&self, key: &str) -> (r: Option<&str>)
        ensures
            match r {
                Some(s) => json::text_at(self@, key@) == Some(s@),
                None => json::text_at(self@, key@) is None,
            },
    {
        match self.get(key) {
            Some(v) => v.as_str(),
            None => None,
        }
    }

    /// Whether two values are equal; the order of an object's fields doesn't matter.
    pub fn equal(&self, other: &Value) -> (r: bool)
        ensures
            r == json::equal(self@, other@),
        decreases self,
    {
        match (self, other) {
            (Value::Null, Value::Null) => true,
            (Value::Bool(x), Value::Bool(y)) => *x == *y,
            (Value::Number(x), Value::Number(y)) => same(x.as_str(), y.as_str()),
            (Value::Str(x), Value::Str(y)) => same(x.as_str(), y.as_str()),
            (Value::Array(x), Value::Array(y)) => items_equal(x, y),
            (Value::Object(x), Value::Object(y)) => x.equal(y),
            _ => false,
        }
    }
}

/// Whether two lists hold equal values.
fn items_equal(x: &Vec<Value>, y: &Vec<Value>) -> (r: bool)
    ensures
        r == json::equal(Json::Array(items_view(x@)), Json::Array(items_view(y@))),
    decreases x,
{
    if x.len() != y.len() {
        return false;
    }
    let mut i: usize = 0;
    while i < x.len()
        invariant
            i <= x.len() == y.len(),
            forall|j: int|
                0 <= j < i ==> json::equal(#[trigger] items_view(x@)[j], items_view(y@)[j]),
        decreases x.len() - i,
    {
        assert(decreases_to!(x => x@));
        assert(decreases_to!(x@ => x@[i as int]));
        if !x[i].equal(&y[i]) {
            assert(!json::equal(items_view(x@)[i as int], items_view(y@)[i as int]));
            return false;
        }
        i += 1;
    }
    true
}

impl Object {
    /// Whether two objects hold the same keys with equal values.
    fn equal(&self, other: &Object) -> (r: bool)
        ensures
            r == json::equal(Json::Object(self@), Json::Object(other@)),
        decreases self,
    {
        if self.entries.len() != other.entries.len() {
            return false;
        }
        let mut i: usize = 0;
        while i < self.entries.len()
            invariant
                i <= self.entries.len() == other.entries.len(),
                forall|j: int|
                    0 <= j < i ==> json::has_key(other@, (#[trigger] self@[j]).0) && json::equal(
                        self@[j].1,
                        other@[json::key_index(other@, self@[j].0)].1,
                    ),
            decreases self.entries.len() - i,
        {
            let ghost field = self@[i as int];
            let at: usize = other.position(self.entries[i].0.as_str());
            if at == other.entries.len() {
                assert(!json::has_key(other@, field.0));
                return false;
            }
            assert(decreases_to!(self => self.entries));
            assert(decreases_to!(self.entries => self.entries@));
            assert(decreases_to!(self.entries@ => self.entries@[i as int]));
            assert(decreases_to!(self.entries@[i as int] => self.entries@[i as int].1));
            if !self.entries[i].1.equal(&other.entries[at].1) {
                assert(!json::equal(field.1, other@[json::key_index(other@, field.0)].1));
                return false;
            }
            i += 1;
        }
        true
    }
}

/// A copy of a list.
pub fn clone_items(items: &Vec<Value>) -> (r: Vec<Value>)
    ensures
        items_view(r@) == items_view(items@),
    decreases items,
{
    let mut out: Vec<Value> = Vec::new();
    let mut i: usize = 0;
    while i < items.len()
        invariant
            i <= items.len(),
            items_view(out@) =~= items_view(items@).take(i as int),
        decreases items.len() - i,
    {
        broadcast use group_items_view;

        assert(decreases_to!(items => items@));
        assert(decreases_to!(items@ => items@[i as int]));
        out.push(items[i].clone());
        i += 1;
    }
    out
}

impl Clone for Value {
    fn clone(&self) -> (r: Value)
        ensures
            r@ == self@,
        decreases self,
    {
        match self {
            Value::Null => Value::Null,
            Value::Bool(b) => Value::Bool(*b),
            Value::Number(n) => Value::Number(n.clone()),
            Value::Str(s) => Value::Str(s.clone()),
            Value::Array(items) => Value::Array(clone_items(items)),
            Value::Object(o) => Value::Object(o.clone()),
        }
    }
}

impl Clone for Object {
    fn clone(&self) -> (r: Object)
        ensures
            r@ == self@,
        decreases self,
    {
        let mut entries: Vec<(String, Value)> = Vec::new();
        let mut i: usize = 0;
        while i < self.entries.len()
            invariant
                i <= self.entries.len(),
                pairs_view(entries@) =~= self@.take(i as int),
            decreases self.entries.len() - i,
        {
            broadcast use group_entries_view;

            entries.push((self.entries[i].0.clone(), self.entries[i].1.clone()));
            i += 1;
        }
        Object { entries }
    }
}

} // verus!
