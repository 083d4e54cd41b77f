//! What a kubeconfig document means: its three lists, their entries and what refers to what.
//!
//! A document is a [`Json`] value. A list is the array under the list's key; an entry is found
//! by its `name`, and its body stands under `context`, `cluster` or `user`.

use crate::json::{self, Fields, Json};
use crate::model::Kind;
use crate::text;
use vstd::prelude::*;

verus! {

// ----- Keys -----

pub open spec fn list_key(kind: Kind) -> Seq<char> {
    match kind {
        Kind::Context => "contexts"@,
        Kind::Cluster => "clusters"@,
        Kind::User => "users"@,
    }
}

pub open spec fn body_key(kind: Kind) -> Seq<char> {
    match kind {
        Kind::Context => "context"@,
        Kind::Cluster => "cluster"@,
        Kind::User => "user"@,
    }
}

// ----- Values that hold fields -----

/// The fields of an object; none of anything else.
pub open spec fn fields_of(v: Json) -> Fields {
    match v {
        Json::Object(o) => o,
        _ => seq![],
    }
}

/// `v` as an object with `key` set.
pub open spec fn with_field(v: Json, key: Seq<char>, to: Json) -> Json {
    Json::Object(json::put(fields_of(v), key, to))
}

pub open spec fn list_at(v: Json, key: Seq<char>) -> Seq<Json> {
    match json::as_items(json::get(v, key)) {
        Some(items) => items,
        None => seq![],
    }
}

// ----- Lists and entries -----

/// A list of the document; empty if it is missing or not a list.
pub open spec fn list(d: Json, kind: Kind) -> Seq<Json> {
    list_at(d, list_key(kind))
}

/// The document with a list replaced.
pub open spec fn with_list(d: Json, kind: Kind, entries: Seq<Json>) -> Json {
    with_field(d, list_key(kind), Json::Array(entries))
}

pub open spec fn name_of(entry: Json) -> Option<Seq<char>> {
    json::text_at(entry, "name"@)
}

/// The names in a list, in order; entries without one are skipped.
pub open spec fn names_in(entries: Seq<Json>) -> Seq<Seq<char>>
    decreases entries.len(),
{
    if entries.len() == 0 {
        seq![]
    } else {
        match name_of(entries.last()) {
            Some(name) => names_in(entries.drop_last()).push(name),
            None => names_in(entries.drop_last()),
        }
    }
}

pub open spec fn names(d: Json, kind: Kind) -> Seq<Seq<char>> {
    names_in(list(d, kind))
}

/// The named entries with their bodies, in order.
pub open spec fn bodies_in(entries: Seq<Json>, kind: Kind) -> Seq<(Seq<char>, Option<Fields>)>
    decreases entries.len(),
{
    if entries.len() == 0 {
        seq![]
    } else {
        match name_of(entries.last()) {
            Some(name) => bodies_in(entries.drop_last(), kind).push(
                (name, body_of(entries.last(), kind)),
            ),
            None => bodies_in(entries.drop_last(), kind),
        }
    }
}

/// How often a name occurs.
pub open spec fn occurrences(names: Seq<Seq<char>>, name: Seq<char>) -> nat
    decreases names.len(),
{
    if names.len() == 0 {
        0
    } else {
        occurrences(names.drop_last(), name) + if names.last() == name {
            1nat
        } else {
            0nat
        }
    }
}

/// The first entry with this name, or the length if none has it.
pub open spec fn name_index(entries: Seq<Json>, name: Seq<char>) -> int
    decreases entries.len(),
{
    if entries.len() == 0 {
        0
    } else if name_of(entries[0]) == Some(name) {
        0
    } else {
        1 + name_index(entries.drop_first(), name)
    }
}

pub open spec fn entry_index(d: Json, kind: Kind, name: Seq<char>) -> int {
    name_index(list(d, kind), name)
}

pub open spec fn contains(d: Json, kind: Kind, name: Seq<char>) -> bool {
    entry_index(d, kind, name) < list(d, kind).len()
}

/// The first entry with this name, whole.
pub open spec fn entry(d: Json, kind: Kind, name: Seq<char>) -> Option<Json> {
    if contains(d, kind, name) {
        Some(list(d, kind)[entry_index(d, kind, name)])
    } else {
        None
    }
}

/// What stands under the kind's key in an entry.
pub open spec fn body_of(entry: Json, kind: Kind) -> Option<Fields> {
    json::as_fields(json::get(entry, body_key(kind)))
}

pub open spec fn body(d: Json, kind: Kind, name: Seq<char>) -> Option<Fields> {
    match entry(d, kind, name) {
        Some(e) => body_of(e, kind),
        None => None,
    }
}

/// The document with the body of an entry replaced.
pub open spec fn with_body(d: Json, kind: Kind, name: Seq<char>, to: Fields) -> Json {
    let i = entry_index(d, kind, name);
    let entries = list(d, kind);
    with_list(
        d,
        kind,
        entries.update(i, with_field(entries[i], body_key(kind), Json::Object(to))),
    )
}

/// An entry as it is added: the name, then the body.
pub open spec fn new_entry(kind: Kind, name: Seq<char>, body: Fields) -> Json {
    Json::Object(seq![("name"@, Json::Str(name)), (body_key(kind), Json::Object(body))])
}

/// The entry under another name.
pub open spec fn with_name(entry: Json, name: Seq<char>) -> Json {
    with_field(entry, "name"@, Json::Str(name))
}

// ----- The current context and references -----

/// The current context; an empty one counts as none.
pub open spec fn current_context(d: Json) -> Option<Seq<char>> {
    match json::text_at(d, "current-context"@) {
        Some(s) if s.len() > 0 => Some(s),
        _ => None,
    }
}

/// The document with another current context. For none the key stays, as an empty string.
pub open spec fn with_current_context(d: Json, name: Option<Seq<char>>) -> Json {
    match name {
        Some(name) => with_field(d, "current-context"@, Json::Str(name)),
        None => if json::has_key(fields_of(d), "current-context"@) {
            with_field(d, "current-context"@, Json::Str(seq![]))
        } else {
            Json::Object(fields_of(d))
        },
    }
}

/// The non-empty string under `key`.
pub open spec fn reference(body: Fields, key: Seq<char>) -> Option<Seq<char>> {
    match json::as_text(json::field(body, key)) {
        Some(s) if s.len() > 0 => Some(s),
        _ => None,
    }
}

/// The cluster (or user) that a context refers to.
pub open spec fn context_reference(d: Json, context: Seq<char>, kind: Kind) -> Option<Seq<char>> {
    match body(d, Kind::Context, context) {
        Some(b) => reference(b, body_key(kind)),
        None => None,
    }
}

/// Whether a context entry refers to this cluster (or user).
pub open spec fn refers_to(context: Json, kind: Kind, name: Seq<char>) -> bool {
    match json::get(context, "context"@) {
        Some(b) => json::text_at(b, body_key(kind)) == Some(name),
        None => false,
    }
}

/// The names of the contexts that refer to this cluster (or user).
pub open spec fn users_in(contexts: Seq<Json>, kind: Kind, name: Seq<char>) -> Seq<Seq<char>>
    decreases contexts.len(),
{
    if contexts.len() == 0 {
        seq![]
    } else {
        let before = users_in(contexts.drop_last(), kind, name);
        match name_of(contexts.last()) {
            Some(context) if refers_to(contexts.last(), kind, name) => before.push(context),
            _ => before,
        }
    }
}

pub open spec fn used_by(d: Json, kind: Kind, name: Seq<char>) -> Seq<Seq<char>> {
    if kind == Kind::Context {
        seq![]
    } else {
        users_in(list(d, Kind::Context), kind, name)
    }
}

// ----- Names -----

/// Why a name isn't accepted.
pub open spec fn name_error(name: Seq<char>) -> Option<Seq<char>> {
    if name.len() == 0 {
        Some("the name can't be empty"@)
    } else if text::trimmed(name) != name {
        Some("the name can't start or end with a space"@)
    } else {
        None
    }
}

pub open spec fn taken_error(kind: Kind, name: Seq<char>) -> Seq<char> {
    "a "@ + body_key(kind) + " named \""@ + name + "\" already exists"@
}

pub open spec fn missing_error(kind: Kind, name: Seq<char>) -> Seq<char> {
    "no "@ + body_key(kind) + " named \""@ + name + "\""@
}

/// `base-n`.
pub open spec fn numbered(base: Seq<char>, n: nat) -> Seq<char> {
    base + "-"@ + text::decimal(n)
}

/// `n` is the first number from 2 on for which `base-n` isn't taken.
pub open spec fn first_free(d: Json, kind: Kind, base: Seq<char>, n: nat) -> bool {
    &&& n >= 2
    &&& !contains(d, kind, numbered(base, n))
    &&& forall|m: nat| 2 <= m < n ==> contains(d, kind, #[trigger] numbered(base, m))
}

/// `base` without the space around it (the kind's own word if nothing is left), with the first
/// free number if it is taken.
pub open spec fn unique_name(d: Json, kind: Kind, base: Seq<char>) -> Seq<char> {
    let base = if text::trimmed(base).len() == 0 {
        body_key(kind)
    } else {
        text::trimmed(base)
    };
    if contains(d, kind, base) {
        numbered(base, choose|n: nat| first_free(d, kind, base, n))
    } else {
        base
    }
}

// ----- Edits -----

/// A new, empty kubeconfig.
pub open spec fn empty_document() -> Json {
    Json::Object(
        seq![
            ("apiVersion"@, Json::Str("v1"@)),
            ("kind"@, Json::Str("Config"@)),
            ("clusters"@, Json::Array(seq![])),
            ("contexts"@, Json::Array(seq![])),
            ("users"@, Json::Array(seq![])),
            ("preferences"@, Json::Object(seq![])),
        ],
    )
}

/// Why a document isn't a kubeconfig: the first list that is something else.
pub open spec fn list_error(d: Json) -> Option<Kind> {
    if !list_or_nothing(d, Kind::Context) {
        Some(Kind::Context)
    } else if !list_or_nothing(d, Kind::Cluster) {
        Some(Kind::Cluster)
    } else if !list_or_nothing(d, Kind::User) {
        Some(Kind::User)
    } else {
        None
    }
}

pub open spec fn list_or_nothing(d: Json, kind: Kind) -> bool {
    match json::get(d, list_key(kind)) {
        None | Some(Json::Null) | Some(Json::Array(_)) => true,
        Some(_) => false,
    }
}

/// Why an entry can't be added.
pub open spec fn add_error(d: Json, kind: Kind, name: Seq<char>) -> Option<Seq<char>> {
    match name_error(name) {
        Some(e) => Some(e),
        None => if contains(d, kind, name) {
            Some(taken_error(kind, name))
        } else {
            None
        },
    }
}

/// The document with an entry more, at the end of its list.
pub open spec fn added(d: Json, kind: Kind, name: Seq<char>, body: Fields) -> Json {
    with_list(d, kind, list(d, kind).push(new_entry(kind, name, body)))
}

/// The document with a copy of an entry right behind it.
pub open spec fn duplicated(d: Json, kind: Kind, name: Seq<char>) -> Json {
    let i = entry_index(d, kind, name);
    let copy = with_name(list(d, kind)[i], unique_name(d, kind, name + "-copy"@));
    with_list(d, kind, list(d, kind).insert(i + 1, copy))
}

/// Why an entry can't be renamed.
pub open spec fn rename_error(d: Json, kind: Kind, from: Seq<char>, to: Seq<char>) -> Option<
    Seq<char>,
> {
    if from == to {
        None
    } else {
        match name_error(to) {
            Some(e) => Some(e),
            None => if contains(d, kind, to) {
                Some(taken_error(kind, to))
            } else if !contains(d, kind, from) {
                Some(missing_error(kind, from))
            } else {
                None
            },
        }
    }
}

/// A context entry with its reference to `from` replaced.
pub open spec fn redirected(context: Json, kind: Kind, from: Seq<char>, to: Seq<char>) -> Json {
    match json::as_fields(json::get(context, "context"@)) {
        Some(b) if json::as_text(json::field(b, body_key(kind))) == Some(from) => with_field(
            context,
            "context"@,
            Json::Object(json::put(b, body_key(kind), Json::Str(to))),
        ),
        _ => context,
    }
}

pub open spec fn all_redirected(
    contexts: Seq<Json>,
    kind: Kind,
    from: Seq<char>,
    to: Seq<char>,
) -> Seq<Json> {
    Seq::new(contexts.len(), |i: int| redirected(contexts[i], kind, from, to))
}

/// The document with an entry renamed, and everything that refers to it.
pub open spec fn renamed(d: Json, kind: Kind, from: Seq<char>, to: Seq<char>) -> Json {
    let i = entry_index(d, kind, from);
    let d1 = with_list(d, kind, list(d, kind).update(i, with_name(list(d, kind)[i], to)));
    if from == to {
        d
    } else if kind != Kind::Context {
        with_list(d1, Kind::Context, all_redirected(list(d1, Kind::Context), kind, from, to))
    } else if current_context(d) == Some(from) {
        with_current_context(d1, Some(to))
    } else {
        d1
    }
}

/// The document without an entry. A removed current context is no longer current.
pub open spec fn removed(d: Json, kind: Kind, name: Seq<char>) -> Json {
    let d1 = with_list(d, kind, list(d, kind).remove(entry_index(d, kind, name)));
    if !contains(d, kind, name) {
        d
    } else if kind == Kind::Context && current_context(d) == Some(name) {
        with_current_context(d1, None)
    } else {
        d1
    }
}

// ----- Facts -----

pub proof fn lemma_name_index(entries: Seq<Json>, name: Seq<char>)
    ensures
        0 <= name_index(entries, name) <= entries.len(),
        forall|j: int|
            0 <= j < name_index(entries, name) ==> name_of(#[trigger] entries[j]) != Some(name),
        name_index(entries, name) < entries.len() ==> name_of(entries[name_index(entries, name)])
            == Some(name),
    decreases entries.len(),
{
    if entries.len() > 0 && name_of(entries[0]) != Some(name) {
        let rest = entries.drop_first();
        lemma_name_index(rest, name);
        assert forall|j: int| 0 <= j < name_index(entries, name) implies name_of(
            #[trigger] entries[j],
        ) != Some(name) by {
            if j > 0 {
                assert(entries[j] == rest[j - 1]);
            }
        }
    }
}

/// The first entry with the name is where the name stands.
pub proof fn lemma_name_index_is(entries: Seq<Json>, name: Seq<char>, at: int)
    requires
        0 <= at <= entries.len(),
        forall|j: int| 0 <= j < at ==> name_of(#[trigger] entries[j]) != Some(name),
        at < entries.len() ==> name_of(entries[at]) == Some(name),
    ensures
        name_index(entries, name) == at,
{
    lemma_name_index(entries, name);
    let found = name_index(entries, name);
    if found < at {
        assert(name_of(entries[found]) != Some(name));
    }
    if at < found {
        assert(name_of(entries[at]) != Some(name));
    }
}

/// The keys of a document that this library writes are all different.
pub proof fn lemma_keys_differ()
    ensures
        forall|a: Kind, b: Kind| a != b ==> #[trigger] list_key(a) != #[trigger] list_key(b),
        forall|a: Kind, b: Kind| a != b ==> #[trigger] body_key(a) != #[trigger] body_key(b),
        forall|a: Kind| #[trigger] list_key(a) != "current-context"@,
        forall|a: Kind| #[trigger] body_key(a) != "name"@,
{
    reveal_strlit("contexts");
    reveal_strlit("clusters");
    reveal_strlit("users");
    reveal_strlit("context");
    reveal_strlit("cluster");
    reveal_strlit("user");
    reveal_strlit("name");
    reveal_strlit("current-context");
    assert("contexts"@[1] == 'o' && "clusters"@[1] == 'l');
    assert("context"@[1] == 'o' && "cluster"@[1] == 'l');
    assert("name"@[0] == 'n' && "user"@[0] == 'u');
    assert("current-context"@.len() == 15 && "contexts"@.len() == 8 && "users"@.len() == 5);
    assert("clusters"@.len() == 8);
}

/// A replaced list reads as what it was replaced by; the other lists and the current context
/// stay.
pub proof fn with_list_reads(d: Json, kind: Kind, entries: Seq<Json>)
    ensures
        list(with_list(d, kind, entries), kind) == entries,
        forall|k: Kind| k != kind ==> #[trigger] list(with_list(d, kind, entries), k) == list(d, k),
        current_context(with_list(d, kind, entries)) == current_context(d),
{
    lemma_keys_differ();
    json::put_then_field(fields_of(d), list_key(kind), Json::Array(entries));
    let n = with_list(d, kind, entries);
    assert forall|k: Kind| k != kind implies #[trigger] list(n, k) == list(d, k) by {
        assert(json::field(fields_of(n), list_key(k)) == json::field(fields_of(d), list_key(k)));
        assert(json::get(n, list_key(k)) == json::get(d, list_key(k)) || !(d is Object));
    }
    let c = "current-context"@;
    assert(list_key(kind) != c);
    assert(json::field(fields_of(n), c) == json::field(fields_of(d), c));
}

// ----- A free name exists -----

/// Different numbers are written differently.
pub proof fn lemma_decimal_injective(a: nat, b: nat)
    requires
        text::decimal(a) == text::decimal(b),
    ensures
        a == b,
    decreases a,
{
    let s = text::decimal(a);
    lemma_decimal_len(a);
    lemma_decimal_len(b);
    if a >= 10 && b >= 10 {
        assert(s.drop_last() =~= text::decimal(a / 10));
        assert(s.drop_last() =~= text::decimal(b / 10));
        assert(s.last() == text::digit((a % 10) as int));
        assert(s.last() == text::digit((b % 10) as int));
        lemma_decimal_injective(a / 10, b / 10);
    } else if a < 10 && b < 10 {
        assert(s[0] == text::digit(a as int));
        assert(s[0] == text::digit(b as int));
    } else {
        lemma_decimal_len(a / 10);
        lemma_decimal_len(b / 10);
    }
}

proof fn lemma_decimal_len(n: nat)
    ensures
        text::decimal(n).len() >= 1,
        n < 10 <==> text::decimal(n).len() == 1,
    decreases n,
{
    if n >= 10 {
        lemma_decimal_len(n / 10);
    }
}

pub proof fn lemma_numbered_injective(base: Seq<char>, a: nat, b: nat)
    requires
        numbered(base, a) == numbered(base, b),
    ensures
        a == b,
{
    let prefix = base + "-"@;
    let n = prefix.len() as int;
    assert(numbered(base, a).skip(n) =~= text::decimal(a));
    assert(numbered(base, b).skip(n) =~= text::decimal(b));
    lemma_decimal_injective(a, b);
}

/// Of more names than a list has entries, one isn't in the list.
proof fn lemma_some_name_is_free(entries: Seq<Json>, base: Seq<char>, upto: nat)
    requires
        forall|m: nat|
            2 <= m < upto ==> name_index(entries, #[trigger] numbered(base, m)) < entries.len(),
    ensures
        upto <= entries.len() + 2,
{
    if upto > 2 {
        let count = (upto - 2) as nat;
        let at = Seq::new(count, |i: int| name_index(entries, numbered(base, (i + 2) as nat)));
        assert forall|i: int, j: int| 0 <= i < count && 0 <= j < count && i != j implies at[i]
            != at[j] by {
            let a = numbered(base, (i + 2) as nat);
            let b = numbered(base, (j + 2) as nat);
            lemma_name_index(entries, a);
            lemma_name_index(entries, b);
            if at[i] == at[j] {
                lemma_numbered_injective(base, (i + 2) as nat, (j + 2) as nat);
            }
        }
        assert(at.no_duplicates());
        at.unique_seq_to_set();
        let all = vstd::set_lib::set_int_range(0, entries.len() as int);
        vstd::set_lib::lemma_int_range(0, entries.len() as int);
        assert forall|x: int| at.to_set().contains(x) implies all.contains(x) by {
            let i = choose|i: int| 0 <= i < at.len() && at[i] == x;
            lemma_name_index(entries, numbered(base, (i + 2) as nat));
        }
        vstd::set_lib::lemma_len_subset(at.to_set(), all);
    }
}

/// Numbers that are all taken don't reach further than the list is long.
pub proof fn lemma_taken_numbers(d: Json, kind: Kind, base: Seq<char>, upto: nat)
    requires
        forall|m: nat| 2 <= m < upto ==> contains(d, kind, #[trigger] numbered(base, m)),
    ensures
        upto <= list(d, kind).len() + 2,
{
    lemma_some_name_is_free(list(d, kind), base, upto);
}

/// There is one first free number.
pub proof fn lemma_first_free_is(d: Json, kind: Kind, base: Seq<char>, n: nat)
    requires
        first_free(d, kind, base, n),
    ensures
        (choose|n: nat| first_free(d, kind, base, n)) == n,
{
    let other = choose|n: nat| first_free(d, kind, base, n);
    assert(first_free(d, kind, base, other));
    if other < n {
        assert(contains(d, kind, numbered(base, other)));
    }
    if n < other {
        assert(contains(d, kind, numbered(base, n)));
    }
}

/// From `n` on, some number is free, and the first one is.
pub proof fn lemma_first_free_exists(d: Json, kind: Kind, base: Seq<char>, n: nat)
    requires
        n >= 2,
        forall|m: nat| 2 <= m < n ==> contains(d, kind, #[trigger] numbered(base, m)),
    ensures
        exists|k: nat| first_free(d, kind, base, k),
    decreases list(d, kind).len() + 2 - n,
{
    lemma_taken_numbers(d, kind, base, n);
    if contains(d, kind, numbered(base, n)) {
        lemma_taken_numbers(d, kind, base, n + 1);
        lemma_first_free_exists(d, kind, base, n + 1);
    } else {
        assert(first_free(d, kind, base, n));
    }
}

/// The name that is made unique isn't taken.
pub proof fn unique_name_is_free(d: Json, kind: Kind, base: Seq<char>)
    ensures
        !contains(d, kind, unique_name(d, kind, base)),
{
    let base = if text::trimmed(base).len() == 0 {
        body_key(kind)
    } else {
        text::trimmed(base)
    };
    lemma_first_free_exists(d, kind, base, 2);
}

} // verus!
