//! JSON values written out on one line.

use crate::json::Json;
use crate::text::{self, join};
use crate::value::{self, Object, Value};
use vstd::prelude::*;

verus! {

/// How serde_json writes a string: in quotes, with escapes.
pub uninterp spec fn quoted(s: Seq<char>) -> Seq<char>;

/// `serde_json::Value::String` displayed. The text is named, not described: it depends on the
/// characters alone.
#[verifier::external_body]
fn quote(s: &str) -> (r: String)
    ensures
        r@ == quoted(s@),
{
    serde_json::Value::from(s).to_string()
}

/// A value without spaces between its parts.
pub open spec fn json_text(v: Json) -> Seq<char>
    decreases v,
{
    match v {
        Json::Null => "null"@,
        Json::Bool(b) => if b {
            "true"@
        } else {
            "false"@
        },
        Json::Number(n) => n,
        Json::Str(s) => quoted(s),
        Json::Array(items) => "["@ + text::joined(items_json(items), ","@) + "]"@,
        Json::Object(o) => "{"@ + text::joined(fields_json(o), ","@) + "}"@,
    }
}

pub open spec fn items_json(items: Seq<Json>) -> Seq<Seq<char>>
    decreases items,
{
    Seq::new(
        items.len(),
        |i: int|
            if 0 <= i < items.len() {
                json_text(items[i])
            } else {
                seq![]
            },
    )
}

pub open spec fn fields_json(o: Seq<(Seq<char>, Json)>) -> Seq<Seq<char>>
    decreases o,
{
    Seq::new(
        o.len(),
        |i: int|
            if 0 <= i < o.len() {
                quoted(o[i].0) + ":"@ + json_text(o[i].1)
            } else {
                seq![]
            },
    )
}

/// The value as JSON, without spaces between its parts.
pub fn to_json(v: &Value) -> (r: String)
    ensures
        r@ == json_text(v@),
    decreases v,
{
    match v {
        Value::Null => "null".to_string(),
        Value::Bool(b) => if *b {
            "true".to_string()
        } else {
            "false".to_string()
        },
        Value::Number(n) => n.clone(),
        Value::Str(s) => quote(s.as_str()),
        Value::Array(items) => {
            let parts: Vec<String> = items_to_json(items);
            text::cat3("[", join(&parts, ",").as_str(), "]")
        },
        Value::Object(o) => {
            let parts: Vec<String> = fields_to_json(o);
            text::cat3("{", join(&parts, ",").as_str(), "}")
        },
    }
}

fn items_to_json(items: &Vec<Value>) -> (r: Vec<String>)
    ensures
        text::texts(r@) == items_json(value::items_view(items@)),
    decreases items,
{
    let mut out: Vec<String> = Vec::new();
    let ghost all = items_json(value::items_view(items@));
    let mut i: usize = 0;
    assert(text::texts(out@) =~= all.take(0));
    while i < items.len()
        invariant
            i <= items@.len(),
            all == items_json(value::items_view(items@)),
            text::texts(out@) == all.take(i as int),
        decreases items@.len() - i,
    {
        broadcast use text::texts_push;

        assert(decreases_to!(items => items@));
        assert(decreases_to!(items@ => items@[i as int]));
        out.push(to_json(&items[i]));
        assert(all.take(i + 1) =~= all.take(i as int).push(all[i as int]));
        i += 1;
    }
    assert(all.take(i as int) =~= all);
    out
}

fn fields_to_json(o: &Object) -> (r: Vec<String>)
    ensures
        text::texts(r@) == fields_json(o@),
    decreases o,
{
    let mut out: Vec<String> = Vec::new();
    let ghost all = fields_json(o@);
    let mut i: usize = 0;
    assert(text::texts(out@) =~= all.take(0));
    while i < o.len()
        invariant
            i <= o@.len(),
            all == fields_json(o@),
            text::texts(out@) == all.take(i as int),
        decreases o@.len() - i,
    {
        broadcast use text::texts_push;

        out.push(
            text::cat3(quote(o.key_at(i)).as_str(), ":", to_json(o.value_at(i)).as_str()),
        );
        assert(all.take(i + 1) =~= all.take(i as int).push(all[i as int]));
        i += 1;
    }
    assert(all.take(i as int) =~= all);
    out
}

} // verus!
