//! JSON as mathematical values, and what holds of reading and changing their fields.

use vstd::prelude::*;

verus! {

/// A JSON value. A number is the text it is written as.
pub enum Json {
    Null,
    Bool(bool),
    Number(Seq<char>),
    Str(Seq<char>),
    Array(Seq<Json>),
    Object(Seq<(Seq<char>, Json)>),
}

/// The fields of an object, in order.
pub type Fields = Seq<(Seq<char>, Json)>;

// ----- Fields -----

/// Where `key` stands in `o`: the first index that has it, or the length if none has.
pub open spec fn key_index(o: Fields, key: Seq<char>) -> int
    decreases o.len(),
{
    if o.len() == 0 {
        0
    } else if o[0].0 == key {
        0
    } else {
        1 + key_index(o.drop_first(), key)
    }
}

pub open spec fn has_key(o: Fields, key: Seq<char>) -> bool {
    key_index(o, key) < o.len()
}

/// The value of `key`.
pub open spec fn field(o: Fields, key: Seq<char>) -> Option<Json> {
    if has_key(o, key) {
        Some(o[key_index(o, key)].1)
    } else {
        None
    }
}

/// `key` set to `v`: in place where it stands, else at the end.
pub open spec fn put(o: Fields, key: Seq<char>, v: Json) -> Fields {
    if has_key(o, key) {
        o.update(key_index(o, key), (key, v))
    } else {
        o.push((key, v))
    }
}

/// `key` taken out: the last field moves into its place.
pub open spec fn without(o: Fields, key: Seq<char>) -> Fields {
    if has_key(o, key) {
        o.update(key_index(o, key), o.last()).drop_last()
    } else {
        o
    }
}

/// The fields marked to be kept, in order.
pub open spec fn retained(o: Fields, keep: Seq<bool>) -> Fields
    decreases o.len(),
{
    if o.len() == 0 {
        seq![]
    } else {
        let before = retained(o.drop_last(), keep);
        if keep[o.len() - 1] {
            before.push(o.last())
        } else {
            before
        }
    }
}

/// No key occurs twice.
pub open spec fn distinct_keys(o: Fields) -> bool {
    forall|i: int, j: int| 0 <= i < j < o.len() ==> (#[trigger] o[i]).0 != (#[trigger] o[j]).0
}

/// In no object of `v`, however deep, a key occurs twice.
pub open spec fn well_formed(v: Json) -> bool
    decreases v,
{
    match v {
        Json::Array(items) => forall|i: int| 0 <= i < items.len() ==> well_formed(#[trigger] items[i]),
        Json::Object(o) => fields_well_formed(o),
        _ => true,
    }
}

/// As [`well_formed`], of the fields of an object.
pub open spec fn fields_well_formed(o: Fields) -> bool
    decreases o,
{
    &&& distinct_keys(o)
    &&& forall|i: int| 0 <= i < o.len() ==> well_formed((#[trigger] o[i]).1)
}

// ----- Reading -----

/// The field `key` of an object; `None` of anything else.
pub open spec fn get(v: Json, key: Seq<char>) -> Option<Json> {
    match v {
        Json::Object(o) => field(o, key),
        _ => None,
    }
}

pub open spec fn as_text(v: Option<Json>) -> Option<Seq<char>> {
    match v {
        Some(Json::Str(s)) => Some(s),
        _ => None,
    }
}

pub open spec fn as_items(v: Option<Json>) -> Option<Seq<Json>> {
    match v {
        Some(Json::Array(items)) => Some(items),
        _ => None,
    }
}

pub open spec fn as_fields(v: Option<Json>) -> Option<Fields> {
    match v {
        Some(Json::Object(o)) => Some(o),
        _ => None,
    }
}

/// The string under `key`.
pub open spec fn text_at(v: Json, key: Seq<char>) -> Option<Seq<char>> {
    as_text(get(v, key))
}

/// Equality of values: objects are equal when they hold the same keys with equal values, in
/// whatever order.
pub open spec fn equal(a: Json, b: Json) -> bool
    decreases a,
{
    match (a, b) {
        (Json::Null, Json::Null) => true,
        (Json::Bool(x), Json::Bool(y)) => x == y,
        (Json::Number(x), Json::Number(y)) => x == y,
        (Json::Str(x), Json::Str(y)) => x == y,
        (Json::Array(x), Json::Array(y)) => {
            &&& x.len() == y.len()
            &&& forall|i: int| 0 <= i < x.len() ==> equal(#[trigger] x[i], y[i])
        },
        (Json::Object(x), Json::Object(y)) => {
            &&& x.len() == y.len()
            &&& forall|i: int|
                0 <= i < x.len() ==> has_key(y, (#[trigger] x[i]).0) && equal(
                    x[i].1,
                    y[key_index(y, x[i].0)].1,
                )
        },
        _ => false,
    }
}

// ----- Facts about fields -----

pub proof fn lemma_key_index(o: Fields, key: Seq<char>)
    ensures
        0 <= key_index(o, key) <= o.len(),
        forall|j: int| 0 <= j < key_index(o, key) ==> (#[trigger] o[j]).0 != key,
        key_index(o, key) < o.len() ==> o[key_index(o, key)].0 == key,
    decreases o.len(),
{
    if o.len() > 0 && o[0].0 != key {
        lemma_key_index(o.drop_first(), key);
        assert forall|j: int| 0 <= j < key_index(o, key) implies (#[trigger] o[j]).0 != key by {
            if j > 0 {
                assert(o[j] == o.drop_first()[j - 1]);
            }
        }
    }
}

/// The first index that has the key is where the key stands.
pub proof fn lemma_key_index_is(o: Fields, key: Seq<char>, at: int)
    requires
        0 <= at <= o.len(),
        forall|j: int| 0 <= j < at ==> (#[trigger] o[j]).0 != key,
        at < o.len() ==> o[at].0 == key,
    ensures
        key_index(o, key) == at,
{
    lemma_key_index(o, key);
    let found = key_index(o, key);
    if found < at {
        assert(o[found].0 != key);
    }
    if at < found {
        assert(o[at].0 != key);
    }
}

/// A key that was put is read back, every other key reads as before, and no key occurs twice
/// if none did.
pub proof fn put_then_field(o: Fields, key: Seq<char>, v: Json)
    ensures
        field(put(o, key, v), key) == Some(v),
        forall|k: Seq<char>| k != key ==> #[trigger] field(put(o, key, v), k) == field(o, k),
        forall|k: Seq<char>| k != key ==> #[trigger] has_key(put(o, key, v), k) == has_key(o, k),
        distinct_keys(o) ==> distinct_keys(put(o, key, v)),
{
    let n = put(o, key, v);
    lemma_key_index(o, key);
    lemma_key_index_is(n, key, key_index(o, key));
    assert forall|k: Seq<char>| k != key implies #[trigger] field(n, k) == field(o, k) && has_key(
        n,
        k,
    ) == has_key(o, k) by {
        lemma_key_index(o, k);
        let at = key_index(o, k);
        if at < o.len() {
            lemma_key_index_is(n, k, at);
        } else {
            lemma_key_index_is(n, k, n.len() as int);
        }
    }
    assert forall|k: Seq<char>| k != key implies #[trigger] has_key(n, k) == has_key(o, k) by {
        assert(field(n, k) == field(o, k));
    }
}

/// Putting what stands there already changes nothing.
pub broadcast proof fn put_same(o: Fields, key: Seq<char>, v: Json)
    requires
        field(o, key) == Some(v),
    ensures
        #[trigger] put(o, key, v) == o,
{
    lemma_key_index(o, key);
    assert(put(o, key, v) =~= o);
}

/// Of two values put under one key, the second stays.
pub proof fn put_twice(o: Fields, key: Seq<char>, v: Json, w: Json)
    ensures
        put(put(o, key, v), key, w) == put(o, key, w),
{
    lemma_key_index(o, key);
    lemma_key_index_is(put(o, key, v), key, key_index(o, key));
    assert(put(put(o, key, v), key, w) =~= put(o, key, w));
}

/// Whatever was put under a key, taking the key out gives the same.
pub proof fn put_then_without(o: Fields, key: Seq<char>, v: Json)
    requires
        has_key(o, key),
    ensures
        without(put(o, key, v), key) == without(o, key),
{
    lemma_key_index(o, key);
    lemma_key_index_is(put(o, key, v), key, key_index(o, key));
    let i = key_index(o, key);
    assert(without(put(o, key, v), key) =~= without(o, key));
}

/// A key that was taken out is gone, every other key reads as before, and no key occurs twice.
pub proof fn without_then_field(o: Fields, key: Seq<char>)
    requires
        distinct_keys(o),
    ensures
        !has_key(without(o, key), key),
        forall|k: Seq<char>| k != key ==> #[trigger] field(without(o, key), k) == field(o, k),
        distinct_keys(without(o, key)),
{
    let n = without(o, key);
    lemma_key_index(o, key);
    let ix = key_index(o, key);
    if ix < o.len() {
        let last = o.len() - 1;
        assert forall|j: int| 0 <= j < n.len() implies (#[trigger] n[j]).0 != key by {
            if j == ix {
                assert(o[ix].0 != o[last].0);
            } else if j < ix {
                assert(o[j].0 != o[ix].0);
            } else {
                assert(o[ix].0 != o[j].0);
            }
        }
        lemma_key_index_is(n, key, n.len() as int);
        assert forall|i: int, j: int| 0 <= i < j < n.len() implies (#[trigger] n[i]).0 != (
        #[trigger] n[j]).0 by {
            if i == ix {
                assert(o[j].0 != o[last].0);
            } else if j == ix {
                assert(o[i].0 != o[last].0);
            } else {
                assert(o[i].0 != o[j].0);
            }
        }
        assert forall|k: Seq<char>| k != key implies #[trigger] field(n, k) == field(o, k) by {
            lemma_key_index(o, k);
            let at = key_index(o, k);
            if at == o.len() {
                assert forall|j: int| 0 <= j < n.len() implies (#[trigger] n[j]).0 != k by {
                    assert(n[j] == if j == ix { o[last] } else { o[j] });
                }
                lemma_key_index_is(n, k, n.len() as int);
            } else {
                let to = if at == last { ix } else { at };
                assert(n[to] == o[at]);
                assert forall|j: int| 0 <= j < to implies (#[trigger] n[j]).0 != k by {
                    assert(n[j].0 != n[to].0);
                }
                lemma_key_index_is(n, k, to);
            }
        }
    }
}

/// Putting a field whose value is well-formed keeps the fields well-formed.
pub proof fn put_keeps_well_formed(o: Fields, key: Seq<char>, v: Json)
    requires
        fields_well_formed(o),
        well_formed(v),
    ensures
        fields_well_formed(put(o, key, v)),
{
    put_then_field(o, key, v);
    lemma_key_index(o, key);
    let n = put(o, key, v);
    assert forall|i: int| 0 <= i < n.len() implies well_formed((#[trigger] n[i]).1) by {
        if i < o.len() {
            assert(well_formed(o[i].1));
        }
    }
}

/// Taking a field out keeps the fields well-formed.
pub proof fn without_keeps_well_formed(o: Fields, key: Seq<char>)
    requires
        fields_well_formed(o),
    ensures
        fields_well_formed(without(o, key)),
{
    without_then_field(o, key);
    lemma_key_index(o, key);
    let n = without(o, key);
    assert forall|i: int| 0 <= i < n.len() implies well_formed((#[trigger] n[i]).1) by {
        assert(well_formed(o[i].1));
        assert(well_formed(o[o.len() - 1].1));
    }
}

/// The value of a key of well-formed fields is well-formed.
pub proof fn lemma_field_well_formed(o: Fields, key: Seq<char>)
    requires
        fields_well_formed(o),
    ensures
        field(o, key) matches Some(v) ==> well_formed(v),
{
    lemma_key_index(o, key);
    if has_key(o, key) {
        assert(well_formed(o[key_index(o, key)].1));
    }
}

/// A well-formed value equals itself.
pub proof fn equal_to_itself(v: Json)
    requires
        well_formed(v),
    ensures
        equal(v, v),
    decreases v,
{
    match v {
        Json::Array(items) => {
            assert forall|i: int| 0 <= i < items.len() implies equal(#[trigger] items[i], items[i]) by {
                equal_to_itself(items[i]);
            }
        },
        Json::Object(o) => {
            assert(fields_well_formed(o));
            assert forall|i: int| 0 <= i < o.len() implies has_key(o, (#[trigger] o[i]).0) && equal(
                o[i].1,
                o[key_index(o, o[i].0)].1,
            ) by {
                equal_to_itself(o[i].1);
                assert forall|j: int| 0 <= j < i implies (#[trigger] o[j]).0 != o[i].0 by {}
                lemma_key_index_is(o, o[i].0, i);
            }
        },
        _ => {},
    }
}

} // verus!
