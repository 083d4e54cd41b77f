//! Fields by path: what it means to read, set and remove a field inside nested objects.

use crate::json::{self, Fields, Json};
use vstd::prelude::*;

verus! {

/// The value at `path`.
pub open spec fn at(o: Fields, path: Seq<Seq<char>>) -> Option<Json>
    decreases path.len(),
{
    if path.len() == 0 {
        None
    } else {
        match json::field(o, path[0]) {
            None => None,
            Some(v) => if path.len() == 1 {
                Some(v)
            } else {
                match v {
                    Json::Object(child) => at(child, path.drop_first()),
                    _ => None,
                }
            },
        }
    }
}

/// The object under `key`; empty if there is none.
pub open spec fn child(o: Fields, key: Seq<char>) -> Fields {
    match json::field(o, key) {
        Some(Json::Object(c)) => c,
        _ => seq![],
    }
}

/// The fields with `v` at `path`; the objects on the way are made where they are missing.
pub open spec fn with(o: Fields, path: Seq<Seq<char>>, v: Json) -> Fields
    decreases path.len(),
{
    if path.len() == 0 {
        o
    } else if path.len() == 1 {
        json::put(o, path[0], v)
    } else {
        json::put(o, path[0], Json::Object(with(child(o, path[0]), path.drop_first(), v)))
    }
}

/// The fields without what stands at `path`; objects that it leaves empty go too.
pub open spec fn cut(o: Fields, path: Seq<Seq<char>>) -> Fields
    decreases path.len(),
{
    if at(o, path) is None {
        o
    } else if path.len() == 1 {
        json::without(o, path[0])
    } else {
        let rest = cut(child(o, path[0]), path.drop_first());
        if rest.len() == 0 {
            json::without(o, path[0])
        } else {
            json::put(o, path[0], Json::Object(rest))
        }
    }
}

/// The fields with `path` set to `v`, or removed for none.
pub open spec fn set(o: Fields, path: Seq<Seq<char>>, v: Option<Json>) -> Fields {
    match v {
        Some(v) => with(o, path, v),
        None => cut(o, path),
    }
}

/// A string as it is, a number or a flag as text; nothing of anything else.
pub open spec fn scalar_text(v: Option<Json>) -> Seq<char> {
    match v {
        Some(Json::Str(s)) => s,
        Some(Json::Number(n)) => n,
        Some(Json::Bool(b)) => if b {
            "true"@
        } else {
            "false"@
        },
        _ => seq![],
    }
}

pub open spec fn text(o: Fields, path: Seq<Seq<char>>) -> Seq<char> {
    scalar_text(at(o, path))
}

/// Whether the flag at `path` is set; the text `true` counts.
pub open spec fn flag(o: Fields, path: Seq<Seq<char>>) -> bool {
    at(o, path) == Some(Json::Bool(true)) || at(o, path) == Some(Json::Str("true"@))
}

/// An empty text stands for none.
pub open spec fn text_value(s: Seq<char>) -> Option<Json> {
    if s.len() == 0 {
        None
    } else {
        Some(Json::Str(s))
    }
}

// ----- Inside arrays too -----

/// The value at `path` below `v`, where a number picks an array's item.
pub open spec fn deep(v: Json, path: Seq<Seq<char>>) -> Option<Json>
    decreases path.len(),
{
    if path.len() == 0 {
        Some(v)
    } else {
        match step(v, path[0]) {
            Some(next) => deep(next, path.drop_first()),
            None => None,
        }
    }
}

/// The field or item that one segment picks.
pub open spec fn step(v: Json, segment: Seq<char>) -> Option<Json> {
    match v {
        Json::Object(o) => json::field(o, segment),
        Json::Array(items) => match crate::text::parsed(segment) {
            Some(i) if i < items.len() => Some(items[i as int]),
            _ => None,
        },
        _ => None,
    }
}

/// `v` with what one segment picks replaced.
pub open spec fn with_step(v: Json, segment: Seq<char>, to: Json) -> Json {
    match v {
        Json::Object(o) => Json::Object(json::put(o, segment, to)),
        Json::Array(items) => Json::Array(
            items.update(crate::text::parsed(segment)->Some_0 as int, to),
        ),
        _ => v,
    }
}

/// `v` with what stands at `path` replaced.
pub open spec fn with_deep(v: Json, path: Seq<Seq<char>>, to: Json) -> Json
    decreases path.len(),
{
    if path.len() == 0 {
        to
    } else {
        match step(v, path[0]) {
            Some(next) => with_step(v, path[0], with_deep(next, path.drop_first(), to)),
            None => v,
        }
    }
}

/// Two paths that part: behind the same segments, one picks another field or item than the other.
pub open spec fn diverge(p: Seq<Seq<char>>, q: Seq<Seq<char>>) -> bool
    decreases p.len(),
{
    if p.len() == 0 || q.len() == 0 {
        false
    } else if p[0] == q[0] {
        diverge(p.drop_first(), q.drop_first())
    } else {
        crate::text::parsed(p[0]) is None || crate::text::parsed(p[0]) != crate::text::parsed(q[0])
    }
}

// ----- Facts -----

/// Replacing an item by itself changes nothing.
pub broadcast proof fn update_same(items: Seq<Json>, i: int, v: Json)
    requires
        0 <= i < items.len(),
        items[i] == v,
    ensures
        #[trigger] items.update(i, v) == items,
{
    assert(items.update(i, v) =~= items);
}

/// Replacing what stands at a path by itself changes nothing.
pub proof fn with_deep_same(v: Json, path: Seq<Seq<char>>)
    requires
        deep(v, path) is Some,
    ensures
        with_deep(v, path, deep(v, path)->Some_0) == v,
    decreases path.len(),
{
    broadcast use {json::put_same, update_same};

    if path.len() > 0 {
        with_deep_same(step(v, path[0])->Some_0, path.drop_first());
    }
}

/// What was set at a path is read back there.
pub proof fn set_then_get(o: Fields, path: Seq<Seq<char>>, v: Json)
    requires
        path.len() > 0,
    ensures
        at(with(o, path, v), path) == Some(v),
    decreases path.len(),
{
    if path.len() == 1 {
        json::put_then_field(o, path[0], v);
    } else {
        let c = child(o, path[0]);
        set_then_get(c, path.drop_first(), v);
        json::put_then_field(o, path[0], Json::Object(with(c, path.drop_first(), v)));
    }
}

/// What was removed at a path isn't there any more.
pub proof fn remove_then_get(o: Fields, path: Seq<Seq<char>>)
    requires
        json::fields_well_formed(o),
    ensures
        at(cut(o, path), path) is None,
    decreases path.len(),
{
    if at(o, path) is Some {
        json::without_then_field(o, path[0]);
        if path.len() > 1 {
            let c = child(o, path[0]);
            json::lemma_key_index(o, path[0]);
            assert(json::well_formed(o[json::key_index(o, path[0])].1));
            remove_then_get(c, path.drop_first());
            let rest = cut(c, path.drop_first());
            json::put_then_field(o, path[0], Json::Object(rest));
        }
    }
}

/// Setting or removing a field leaves every field of another first key as it was.
pub proof fn set_keeps_other_keys(o: Fields, path: Seq<Seq<char>>, v: Option<Json>, key: Seq<char>)
    requires
        path.len() > 0,
        key != path[0],
        json::distinct_keys(o),
    ensures
        json::field(set(o, path, v), key) == json::field(o, key),
{
    json::without_then_field(o, path[0]);
    match v {
        Some(v) => {
            json::put_then_field(o, path[0], v);
            json::put_then_field(
                o,
                path[0],
                Json::Object(with(child(o, path[0]), path.drop_first(), v)),
            );
        },
        None => {
            json::put_then_field(
                o,
                path[0],
                Json::Object(cut(child(o, path[0]), path.drop_first())),
            );
        },
    }
}

/// Setting and removing keep the fields well-formed.
pub proof fn set_keeps_well_formed(o: Fields, path: Seq<Seq<char>>, v: Option<Json>)
    requires
        json::fields_well_formed(o),
        v is Some ==> json::well_formed(v->Some_0),
    ensures
        json::fields_well_formed(set(o, path, v)),
    decreases path.len(),
{
    if path.len() > 0 {
        let c = child(o, path[0]);
        json::lemma_key_index(o, path[0]);
        if json::field(o, path[0]) is Some {
            assert(json::well_formed(o[json::key_index(o, path[0])].1));
        }
        assert(json::fields_well_formed(c));
        json::without_keeps_well_formed(o, path[0]);
        if path.len() > 1 {
            set_keeps_well_formed(c, path.drop_first(), v);
            json::put_keeps_well_formed(
                o,
                path[0],
                Json::Object(set(c, path.drop_first(), v)),
            );
        } else if v is Some {
            json::put_keeps_well_formed(o, path[0], v->Some_0);
        }
    }
}

/// What was replaced, put back, gives the value as it was.
pub proof fn replace_then_restore(v: Json, path: Seq<Seq<char>>, to: Json)
    requires
        deep(v, path) is Some,
    ensures
        deep(with_deep(v, path, to), path) == Some(to),
        with_deep(with_deep(v, path, to), path, deep(v, path)->Some_0) == v,
    decreases path.len(),
{
    if path.len() > 0 {
        let next = step(v, path[0])->Some_0;
        replace_then_restore(next, path.drop_first(), to);
        let new = with_deep(next, path.drop_first(), to);
        match v {
            Json::Object(o) => {
                json::put_then_field(o, path[0], new);
                json::put_twice(o, path[0], new, next);
                json::put_same(o, path[0], next);
            },
            Json::Array(items) => {
                let i = crate::text::parsed(path[0])->Some_0 as int;
                assert(items.update(i, new).update(i, next) =~= items);
            },
            _ => {},
        }
    }
}

/// Paths part whichever comes first.
pub proof fn diverge_both_ways(p: Seq<Seq<char>>, q: Seq<Seq<char>>)
    ensures
        diverge(p, q) == diverge(q, p),
    decreases p.len(),
{
    if p.len() > 0 && q.len() > 0 && p[0] == q[0] {
        diverge_both_ways(p.drop_first(), q.drop_first());
    }
}

/// Behind the same segments, a field and another one part.
pub proof fn diverge_at_the_end(prefix: Seq<Seq<char>>, a: Seq<char>, b: Seq<char>)
    requires
        a != b,
        crate::text::parsed(a) is None,
    ensures
        diverge(prefix.push(a), prefix.push(b)),
    decreases prefix.len(),
{
    let p = prefix.push(a);
    let q = prefix.push(b);
    if prefix.len() > 0 {
        diverge_at_the_end(prefix.drop_first(), a, b);
        assert(p.drop_first() =~= prefix.drop_first().push(a));
        assert(q.drop_first() =~= prefix.drop_first().push(b));
    }
}

/// Replacing what stands at a path leaves what stands at a path that parts from it.
pub proof fn replace_elsewhere(v: Json, p: Seq<Seq<char>>, to: Json, q: Seq<Seq<char>>)
    requires
        diverge(p, q),
    ensures
        deep(with_deep(v, p, to), q) == deep(v, q),
    decreases p.len(),
{
    if let Some(next) = step(v, p[0]) {
        let new = with_deep(next, p.drop_first(), to);
        match v {
            Json::Object(o) => {
                json::put_then_field(o, p[0], new);
                if p[0] == q[0] {
                    replace_elsewhere(next, p.drop_first(), to, q.drop_first());
                } else {
                    assert(json::field(json::put(o, p[0], new), q[0]) == json::field(o, q[0]));
                }
            },
            Json::Array(items) => {
                let i = crate::text::parsed(p[0])->Some_0 as int;
                assert(items.update(i, new)[i] == new);
                if p[0] == q[0] {
                    replace_elsewhere(next, p.drop_first(), to, q.drop_first());
                }
            },
            _ => {},
        }
    }
}

} // verus!
