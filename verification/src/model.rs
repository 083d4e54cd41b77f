//! The kubeconfig document being edited.
//!
//! [`Doc`] keeps the whole tree, so fields that nothing here knows (extensions, preferences,
//! newer kubectl fields) survive every edit. Forms read and write single fields of an entry by
//! path ([`get_str`], [`set_str`], …).

use crate::document;
use crate::issues;
use crate::json::{self, Fields, Json};
use crate::text::{self, cat, cat3, cat5, decimal_text, same, trim};
use crate::transfer;
use crate::users::{secret_paths, strip_secrets};
use crate::value::{self, Object, Value};
use vstd::prelude::*;

verus! {

/// The three lists of a kubeconfig.
#[derive(Clone, Copy, Debug, PartialEq, Eq, Structural, Hash, PartialOrd, Ord)]
pub enum Kind {
    Context,
    Cluster,
    User,
}

impl Kind {
    pub const ALL: [Kind; 3] = [Kind::Context, Kind::Cluster, Kind::User];

    /// `contexts`, `clusters`, `users`.
    pub fn list_key(self) -> (r: &'static str)
        ensures
            r@ == document::list_key(self),
    {
        match self {
            Kind::Context => "contexts",
            Kind::Cluster => "clusters",
            Kind::User => "users",
        }
    }

    /// The key of an entry's body: `context`, `cluster`, `user`.
    pub fn body_key(self) -> (r: &'static str)
        ensures
            r@ == document::body_key(self),
    {
        match self {
            Kind::Context => "context",
            Kind::Cluster => "cluster",
            Kind::User => "user",
        }
    }

    pub fn label(self) -> (r: &'static str)
        ensures
            r@ == document::body_key(self),
    {
        self.body_key()
    }

    /// `Contexts`, `Clusters`, `Users`.
    pub fn title(self) -> (r: &'static str)
        ensures
            r@ == match self {
                Kind::Context => "Contexts"@,
                Kind::Cluster => "Clusters"@,
                Kind::User => "Users"@,
            },
    {
        match self {
            Kind::Context => "Contexts",
            Kind::Cluster => "Clusters",
            Kind::User => "Users",
        }
    }
}

/// An entry of a list.
#[derive(Debug, PartialEq, Eq, Hash, PartialOrd, Ord)]
pub struct EntryRef {
    pub kind: Kind,
    pub name: String,
}

impl EntryRef {
    pub fn new(kind: Kind, name: &str) -> (r: EntryRef)
        ensures
            r.kind == kind,
            r.name@ == name@,
    {
        EntryRef { kind, name: name.to_string() }
    }
}

impl Clone for EntryRef {
    fn clone(&self) -> (r: EntryRef)
        ensures
            r == *self,
    {
        EntryRef { kind: self.kind, name: self.name.clone() }
    }
}

/// A kubeconfig document.
#[derive(Debug)]
pub struct Doc(pub Value);

impl View for Doc {
    type V = Json;

    open spec fn view(&self) -> Json {
        self.0@
    }
}

impl Default for Doc {
    fn default() -> (d: Doc)
        ensures
            d@ == document::empty_document(),
    {
        Doc::empty()
    }
}

impl Clone for Doc {
    fn clone(&self) -> (d: Doc)
        ensures
            d@ == self@,
    {
        Doc(self.0.clone())
    }
}

impl Doc {
    /// A new, empty kubeconfig.
    pub fn empty() -> (d: Doc)
        ensures
            d@ == document::empty_document(),
    {
        let fields: Vec<(String, Value)> = vec![
            ("apiVersion".to_string(), Value::text("v1")),
            ("kind".to_string(), Value::text("Config")),
            ("clusters".to_string(), Value::Array(Vec::new())),
            ("contexts".to_string(), Value::Array(Vec::new())),
            ("users".to_string(), Value::Array(Vec::new())),
            ("preferences".to_string(), Value::Object(Object::new())),
        ];
        proof {
            reveal_strlit("apiVersion");
            reveal_strlit("kind");
            reveal_strlit("clusters");
            reveal_strlit("contexts");
            reveal_strlit("users");
            reveal_strlit("preferences");
            assert(value::items_view(Seq::<Value>::empty()) =~= Seq::<Json>::empty());
            let o = document::empty_document()->Object_0;
            assert("clusters"@[1] == 'l' && "contexts"@[1] == 'o');
            assert("apiVersion"@.len() == 10 && "kind"@.len() == 4 && "users"@.len() == 5);
            assert("clusters"@.len() == 8 && "contexts"@.len() == 8 && "preferences"@.len() == 11);
            assert(json::distinct_keys(o));
            assert(value::pairs_view(fields@) =~= o);
        }
        Doc(Value::Object(Object::of(fields)))
    }

    /// The document of a loaded tree. A list that is something else is refused.
    pub fn parse(value: Value) -> (r: Result<Doc, String>)
        ensures
            match document::list_error(value@) {
                Some(kind) => r is Err && r->Err_0@ == "`"@ + document::list_key(kind)
                    + "` isn't a list"@,
                None => r is Ok && r->Ok_0@ == value@,
            },
    {
        let kinds: [Kind; 3] = Kind::ALL;
        let mut i: usize = 0;
        while i < 3
            invariant
                i <= 3,
                kinds@ == seq![Kind::Context, Kind::Cluster, Kind::User],
                forall|j: int| 0 <= j < i ==> document::list_or_nothing(value@, #[trigger] kinds@[j]),
            decreases 3 - i,
        {
            let kind: Kind = kinds[i];
            match value.get(kind.list_key()) {
                None | Some(Value::Null) | Some(Value::Array(_)) => {},
                Some(_) => {
                    assert(i > 0 ==> document::list_or_nothing(value@, kinds@[0]));
                    assert(i > 1 ==> document::list_or_nothing(value@, kinds@[1]));
                    return Err(cat3("`", kind.list_key(), "` isn't a list"));
                },
            }
            i += 1;
        }
        assert(document::list_or_nothing(value@, kinds@[0]));
        assert(document::list_or_nothing(value@, kinds@[1]));
        assert(document::list_or_nothing(value@, kinds@[2]));
        Ok(Doc(value))
    }

    fn root(&mut self) -> (r: &mut Object)
        ensures
            r@ == document::fields_of(old(self)@),
            final(self)@ == Json::Object(final(r)@),
    {
        if self.0.as_object().is_none() {
            self.0 = Value::Object(Object::new());
        }
        match &mut self.0 {
            Value::Object(o) => o,
            _ => vstd::pervasive::unreached(),
        }
    }

    pub(crate) fn list(&self, kind: Kind) -> (r: Option<&Vec<Value>>)
        ensures
            match r {
                Some(entries) => value::items_view(entries@) == document::list(self@, kind),
                None => document::list(self@, kind) == Seq::<Json>::empty(),
            },
    {
        match self.0.get(kind.list_key()) {
            Some(v) => v.as_array(),
            None => None,
        }
    }

    pub(crate) fn list_mut(&mut self, kind: Kind) -> (r: &mut Vec<Value>)
        ensures
            value::items_view(r@) == document::list(old(self)@, kind),
            final(self)@ == document::with_list(
                old(self)@,
                kind,
                value::items_view(final(r)@),
            ),
    {
        let slot = self.root().entry_or_insert(kind.list_key(), Value::Array(Vec::new()));
        assert(value::items_view(Seq::<Value>::empty()) =~= Seq::<Json>::empty());
        if slot.as_array().is_none() {
            *slot = Value::Array(Vec::new());
        }
        match slot {
            Value::Array(entries) => entries,
            _ => vstd::pervasive::unreached(),
        }
    }

    /// Entry names in file order (entries without a name are skipped).
    pub fn names(&self, kind: Kind) -> (r: Vec<String>)
        ensures
            text::texts(r@) == document::names(self@, kind),
    {
        let mut out: Vec<String> = Vec::new();
        assert(text::texts(out@) =~= Seq::empty());
        if let Some(entries) = self.list(kind) {
            let ghost all = value::items_view(entries@);
            let mut i: usize = 0;
            assert(all.take(0) =~= Seq::empty());
            while i < entries.len()
                invariant
                    i <= entries@.len(),
                    all == value::items_view(entries@),
                    text::texts(out@) == document::names_in(all.take(i as int)),
                decreases entries@.len() - i,
            {
                broadcast use text::texts_push;

                assert(all.take(i + 1).drop_last() =~= all.take(i as int));
                if let Some(name) = entries[i].text_at("name") {
                    out.push(name.to_string());
                }
                i += 1;
            }
            assert(all.take(i as int) =~= all);
        }
        out
    }

    /// Where the first entry with this name stands.
    pub fn index(&self, kind: Kind, name: &str) -> (r: Option<usize>)
        ensures
            match r {
                Some(i) => i < document::list(self@, kind).len() && document::entry_index(
                    self@,
                    kind,
                    name@,
                ) == i,
                None => !document::contains(self@, kind, name@),
            },
    {
        if let Some(entries) = self.list(kind) {
            let ghost all = value::items_view(entries@);
            let mut i: usize = 0;
            while i < entries.len()
                invariant
                    i <= entries@.len(),
                    all == value::items_view(entries@),
                    all == document::list(self@, kind),
                    forall|j: int|
                        0 <= j < i ==> document::name_of(#[trigger] all[j]) != Some(name@),
                decreases entries@.len() - i,
            {
                let found: bool = match entries[i].text_at("name") {
                    Some(s) => same(s, name),
                    None => false,
                };
                if found {
                    proof {
                        document::lemma_name_index_is(all, name@, i as int);
                    }
                    return Some(i);
                }
                i += 1;
            }
            proof {
                document::lemma_name_index_is(all, name@, i as int);
            }
        }
        None
    }

    pub fn contains(&self, kind: Kind, name: &str) -> (r: bool)
        ensures
            r == document::contains(self@, kind, name@),
    {
        self.index(kind, name).is_some()
    }

    /// The whole list entry (`name` plus body and anything else).
    pub fn entry(&self, kind: Kind, name: &str) -> (r: Option<&Value>)
        ensures
            match r {
                Some(e) => document::entry(self@, kind, name@) == Some(e@),
                None => document::entry(self@, kind, name@) is None,
            },
    {
        match (self.list(kind), self.index(kind, name)) {
            (Some(entries), Some(i)) => Some(&entries[i]),
            _ => None,
        }
    }

    /// An entry's body (`cluster:`, `user:` or `context:`).
    pub fn body(&self, kind: Kind, name: &str) -> (r: Option<&Object>)
        ensures
            match r {
                Some(b) => document::body(self@, kind, name@) == Some(b@),
                None => document::body(self@, kind, name@) is None,
            },
    {
        match self.entry(kind, name) {
            Some(e) => match e.get(kind.body_key()) {
                Some(v) => v.as_object(),
                None => None,
            },
            None => None,
        }
    }

    /// An entry's body for editing (created when missing or not a mapping).
    pub fn body_mut(&mut self, kind: Kind, name: &str) -> (r: Option<&mut Object>)
        ensures
            match r {
                Some(b) => {
                    &&& document::contains(old(self)@, kind, name@)
                    &&& b@ == match document::body(old(self)@, kind, name@) {
                        Some(b) => b,
                        None => Seq::empty(),
                    }
                    &&& final(self)@ == document::with_body(old(self)@, kind, name@, final(b)@)
                },
                None => !document::contains(old(self)@, kind, name@) && *final(self) == *old(self),
            },
    {
        broadcast use value::group_items_view;

        match self.index(kind, name) {
            Some(i) => {
                proof {
                    document::lemma_name_index(document::list(self@, kind), name@);
                }
                match &mut self.list_mut(kind)[i] {
                    Value::Object(entry) => {
                        let slot = entry.entry_or_insert(
                            kind.body_key(),
                            Value::Object(Object::new()),
                        );
                        if slot.as_object().is_none() {
                            *slot = Value::Object(Object::new());
                        }
                        slot.as_object_mut()
                    },
                    _ => vstd::pervasive::unreached(),
                }
            },
            None => None,
        }
    }

    /// Adds an entry (`name` first, then the body). Fails on a taken name.
    pub fn add(&mut self, kind: Kind, name: &str, body: Object) -> (r: Result<(), String>)
        ensures
            match document::add_error(old(self)@, kind, name@) {
                Some(e) => r is Err && r->Err_0@ == e && *final(self) == *old(self),
                None => r is Ok && final(self)@ == document::added(
                    old(self)@,
                    kind,
                    name@,
                    body@,
                ),
            },
    {
        broadcast use value::group_items_view;

        match validate_name(name) {
            Err(e) => {
                return Err(e);
            },
            Ok(()) => {},
        }
        if self.contains(kind, name) {
            return Err(cat5("a ", kind.label(), " named \"", name, "\" already exists"));
        }
        let fields: Vec<(String, Value)> = vec![
            ("name".to_string(), Value::text(name)),
            (kind.body_key().to_string(), Value::Object(body)),
        ];
        proof {
            document::lemma_keys_differ();
            let o = document::new_entry(kind, name@, body@)->Object_0;
            assert(value::pairs_view(fields@) =~= o);
        }
        self.list_mut(kind).push(Value::Object(Object::of(fields)));
        Ok(())
    }

    /// `base`, or `base-2`, `base-3`… if taken.
    pub fn unique_name(&self, kind: Kind, base: &str) -> (r: String)
        ensures
            r@ == document::unique_name(self@, kind, base@),
            !document::contains(self@, kind, r@),
    {
        let trimmed: String = trim(base);
        let base: String = if trimmed.as_str().is_empty() {
            kind.label().to_string()
        } else {
            trimmed
        };
        if !self.contains(kind, base.as_str()) {
            return base;
        }
        let len: usize = match self.list(kind) {
            Some(entries) => entries.len(),
            None => 0,
        };
        let mut n: u128 = 2;
        loop
            invariant
                len == document::list(self@, kind).len(),
                2 <= n <= len + 2,
                forall|m: nat|
                    2 <= m < n ==> document::contains(
                        self@,
                        kind,
                        #[trigger] document::numbered(base@, m),
                    ),
            ensures
                document::first_free(self@, kind, base@, n as nat),
            decreases len + 2 - n,
        {
            let name: String = cat3(base.as_str(), "-", decimal_text(n).as_str());
            if !self.contains(kind, name.as_str()) {
                break;
            }
            proof {
                document::lemma_taken_numbers(self@, kind, base@, (n + 1) as nat);
            }
            n += 1;
        }
        proof {
            document::lemma_first_free_is(self@, kind, base@, n as nat);
        }
        cat3(base.as_str(), "-", decimal_text(n).as_str())
    }

    /// Copies an entry under a new name (`<name>-copy`). Returns the new name.
    pub fn duplicate(&mut self, kind: Kind, name: &str) -> (r: Option<String>)
        ensures
            match r {
                Some(new) => {
                    &&& document::contains(old(self)@, kind, name@)
                    &&& new@ == document::unique_name(old(self)@, kind, name@ + "-copy"@)
                    &&& final(self)@ == document::duplicated(old(self)@, kind, name@)
                },
                None => !document::contains(old(self)@, kind, name@) && *final(self) == *old(self),
            },
    {
        broadcast use value::group_items_view;

        let i: usize = match self.index(kind, name) {
            Some(i) => i,
            None => {
                return None;
            },
        };
        let new: String = self.unique_name(kind, cat(name, "-copy").as_str());
        let entries = self.list_mut(kind);
        let mut copy: Value = entries[i].clone();
        set_field(&mut copy, "name", Value::text(new.as_str()));
        if i < entries.len() {
            entries.insert(i + 1, copy);
        }
        Some(new)
    }

    /// Renames an entry and everything that refers to it (contexts, `current-context`).
    pub fn rename(&mut self, kind: Kind, old_name: &str, new: &str) -> (r: Result<(), String>)
        ensures
            match document::rename_error(old(self)@, kind, old_name@, new@) {
                Some(e) => r is Err && r->Err_0@ == e && *final(self) == *old(self),
                None => r is Ok && final(self)@ == document::renamed(
                    old(self)@,
                    kind,
                    old_name@,
                    new@,
                ),
            },
    {
        broadcast use value::group_items_view;

        if same(old_name, new) {
            return Ok(());
        }
        match validate_name(new) {
            Err(e) => {
                return Err(e);
            },
            Ok(()) => {},
        }
        if self.contains(kind, new) {
            return Err(cat5("a ", kind.label(), " named \"", new, "\" already exists"));
        }
        let i: usize = match self.index(kind, old_name) {
            Some(i) => i,
            None => {
                return Err(cat5("no ", kind.label(), " named \"", old_name, "\""));
            },
        };
        set_field(&mut self.list_mut(kind)[i], "name", Value::text(new));
        proof {
            let entries = document::list(old(self)@, kind);
            document::with_list_reads(
                old(self)@,
                kind,
                entries.update(i as int, document::with_name(entries[i as int], new@)),
            );
        }
        match kind {
            Kind::Context => {
                let current: bool = match self.current_context() {
                    Some(c) => same(c, old_name),
                    None => false,
                };
                if current {
                    self.set_current_context(Some(new));
                }
            },
            Kind::Cluster | Kind::User => {
                redirect(self.list_mut(Kind::Context), kind, old_name, new);
            },
        }
        Ok(())
    }

    /// Contexts that use a cluster or user.
    pub fn used_by(&self, kind: Kind, name: &str) -> (r: Vec<String>)
        ensures
            text::texts(r@) == document::used_by(self@, kind, name@),
    {
        let mut out: Vec<String> = Vec::new();
        assert(text::texts(out@) =~= Seq::empty());
        if kind == Kind::Context {
            return out;
        }
        if let Some(contexts) = self.list(Kind::Context) {
            let ghost all = value::items_view(contexts@);
            let mut i: usize = 0;
            assert(all.take(0) =~= Seq::empty());
            while i < contexts.len()
                invariant
                    i <= contexts@.len(),
                    all == value::items_view(contexts@),
                    text::texts(out@) == document::users_in(all.take(i as int), kind, name@),
                decreases contexts@.len() - i,
            {
                broadcast use text::texts_push;

                assert(all.take(i + 1).drop_last() =~= all.take(i as int));
                let uses: bool = match contexts[i].get("context") {
                    Some(body) => match body.text_at(kind.body_key()) {
                        Some(s) => same(s, name),
                        None => false,
                    },
                    None => false,
                };
                if uses {
                    if let Some(context) = contexts[i].text_at("name") {
                        out.push(context.to_string());
                    }
                }
                i += 1;
            }
            assert(all.take(i as int) =~= all);
        }
        out
    }

    /// Removes an entry. A removed current context clears `current-context`.
    pub fn remove(&mut self, kind: Kind, name: &str) -> (r: bool)
        ensures
            r == document::contains(old(self)@, kind, name@),
            final(self)@ == document::removed(old(self)@, kind, name@),
    {
        broadcast use value::group_items_view;

        let i: usize = match self.index(kind, name) {
            Some(i) => i,
            None => {
                return false;
            },
        };
        self.list_mut(kind).remove(i);
        proof {
            document::with_list_reads(
                old(self)@,
                kind,
                document::list(old(self)@, kind).remove(i as int),
            );
        }
        let current: bool = match self.current_context() {
            Some(c) => same(c, name),
            None => false,
        };
        if kind == Kind::Context && current {
            self.set_current_context(None);
        }
        true
    }

    pub fn current_context(&self) -> (r: Option<&str>)
        ensures
            match r {
                Some(s) => document::current_context(self@) == Some(s@),
                None => document::current_context(self@) is None,
            },
    {
        match self.0.text_at("current-context") {
            Some(s) => if s.is_empty() {
                None
            } else {
                Some(s)
            },
            None => None,
        }
    }

    pub fn set_current_context(&mut self, name: Option<&str>)
        ensures
            final(self)@ == document::with_current_context(
                old(self)@,
                match name {
                    Some(s) => Some(s@),
                    None => None,
                },
            ),
    {
        let root = self.root();
        match name {
            Some(name) => {
                root.insert("current-context", Value::text(name));
            },
            None => {
                if root.contains_key("current-context") {
                    root.insert("current-context", Value::text(""));
                    proof {
                        reveal_strlit("");
                        assert(""@ =~= Seq::<char>::empty());
                    }
                }
            },
        }
    }

    /// The context's cluster and user names.
    pub fn context_refs(&self, context: &str) -> (r: (Option<String>, Option<String>))
        ensures
            text::text_of(r.0) == document::context_reference(self@, context@, Kind::Cluster),
            text::text_of(r.1) == document::context_reference(self@, context@, Kind::User),
    {
        match self.body(Kind::Context, context) {
            Some(b) => (reference(b, "cluster"), reference(b, "user")),
            None => (None, None),
        }
    }

    /// A standalone document with one context, its cluster and user.
    /// `credentials: false` removes every secret from the user.
    pub fn extract(&self, context: &str, credentials: bool) -> (r: Option<Doc>)
        ensures
            match r {
                Some(d) => transfer::extracted(self@, context@, credentials) == Some(d@),
                None => transfer::extracted(self@, context@, credentials) is None,
            },
    {
        broadcast use {value::group_items_view, json::put_same};

        let entry: Value = match self.entry(Kind::Context, context) {
            Some(e) => e.clone(),
            None => {
                return None;
            },
        };
        let mut out: Doc = Doc::empty();
        out.list_mut(Kind::Context).push(entry);
        let (cluster, user) = self.context_refs(context);
        if let Some(name) = cluster {
            if let Some(e) = self.entry(Kind::Cluster, name.as_str()) {
                out.list_mut(Kind::Cluster).push(e.clone());
            }
        }
        if let Some(name) = user {
            if let Some(e) = self.entry(Kind::User, name.as_str()) {
                let mut entry: Value = e.clone();
                if !credentials {
                    if let Some(slot) = entry.get_mut("user") {
                        if let Some(body) = slot.as_object_mut() {
                            strip_secrets(body);
                        }
                    }
                }
                out.list_mut(Kind::User).push(entry);
            }
        }
        out.set_current_context(Some(context));
        Some(out)
    }

    /// Brings a cluster (or user) in; the same entry already here is shared. Its name here.
    fn copy_ref(&mut self, from: &Doc, kind: Kind, name: Option<String>) -> (r: Option<String>)
        ensures
            transfer::with_reference(old(self)@, from@, kind, text::text_of(name)) == (
                final(self)@,
                text::text_of(r),
            ),
    {
        broadcast use value::group_items_view;

        let name: String = match name {
            Some(name) => name,
            None => {
                return None;
            },
        };
        let mut theirs: Value = match from.entry(kind, name.as_str()) {
            Some(e) => e.clone(),
            None => {
                return None;
            },
        };
        let shared: bool = match self.entry(kind, name.as_str()) {
            Some(mine) => mine.equal(&theirs),
            None => false,
        };
        if shared {
            return Some(name);
        }
        let new: String = self.unique_name(kind, name.as_str());
        set_field(&mut theirs, "name", Value::text(new.as_str()));
        self.list_mut(kind).push(theirs);
        Some(new)
    }

    /// Copies a context with its cluster and user into this document. Names already taken get
    /// a counter; returns the context's name here.
    pub fn import_context(&mut self, from: &Doc, context: &str) -> (r: Option<String>)
        ensures
            match r {
                Some(name) => transfer::imported(old(self)@, from@, context@) == Some(
                    (final(self)@, name@),
                ),
                None => transfer::imported(old(self)@, from@, context@) is None && *final(self)
                    == *old(self),
            },
    {
        broadcast use {value::group_items_view, json::put_same};

        let mut entry: Value = match from.entry(Kind::Context, context) {
            Some(e) => e.clone(),
            None => {
                return None;
            },
        };
        let (cluster, user) = from.context_refs(context);
        let cluster: Option<String> = self.copy_ref(from, Kind::Cluster, cluster);
        let user: Option<String> = self.copy_ref(from, Kind::User, user);
        let name: String = self.unique_name(Kind::Context, context);
        set_field(&mut entry, "name", Value::text(name.as_str()));
        if let Some(slot) = entry.get_mut("context") {
            if let Some(body) = slot.as_object_mut() {
                if let Some(cluster) = cluster {
                    body.insert("cluster", Value::text(cluster.as_str()));
                }
                if let Some(user) = user {
                    body.insert("user", Value::text(user.as_str()));
                }
            }
        }
        self.list_mut(Kind::Context).push(entry);
        Some(name)
    }

    /// Removes an entry that no context uses.
    fn remove_unused(&mut self, kind: Kind, name: Option<String>)
        ensures
            final(self)@ == transfer::without_unused(old(self)@, kind, text::text_of(name)),
    {
        if let Some(name) = name {
            let users: Vec<String> = self.used_by(kind, name.as_str());
            assert(text::texts(users@).len() == users@.len());
            if users.len() == 0 {
                self.remove(kind, name.as_str());
            }
        }
    }

    /// Removes a context and the cluster and user no other context uses.
    pub fn remove_context_with_refs(&mut self, context: &str)
        ensures
            final(self)@ == transfer::without_context(old(self)@, context@),
    {
        let (cluster, user) = self.context_refs(context);
        self.remove(Kind::Context, context);
        self.remove_unused(Kind::Cluster, cluster);
        self.remove_unused(Kind::User, user);
    }

    /// Whether any user holds a secret inline (the file must be 0600).
    pub fn has_inline_credentials(&self) -> (r: bool)
        ensures
            r == transfer::holds_secrets(self@),
    {
        if let Some(users) = self.list(Kind::User) {
            let ghost all = document::list(self@, Kind::User);
            let mut i: usize = 0;
            while i < users.len()
                invariant
                    i <= users@.len(),
                    all == value::items_view(users@),
                    all == document::list(self@, Kind::User),
                    forall|j: int| 0 <= j < i ==> !transfer::holds_secret(#[trigger] all[j]),
                decreases users@.len() - i,
            {
                let secret: bool = match users[i].get("user") {
                    Some(slot) => match slot.as_object() {
                        Some(body) => {
                            let at: Vec<Vec<String>> = secret_paths(body);
                            assert(text::text_lists(at@).len() == at@.len());
                            at.len() > 0
                        },
                        None => false,
                    },
                    None => false,
                };
                assert(secret == transfer::holds_secret(all[i as int]));
                if secret {
                    return true;
                }
                i += 1;
            }
        }
        false
    }

    /// The tree for the Kubernetes client, which wants lists where kubectl tolerates `null`.
    pub fn to_kube(&self) -> (r: Value)
        ensures
            r@ == transfer::with_lists(self@),
    {
        let mut out: Doc = self.clone();
        out.list_instead_of_null(Kind::Context);
        out.list_instead_of_null(Kind::Cluster);
        out.list_instead_of_null(Kind::User);
        out.0
    }

    fn list_instead_of_null(&mut self, kind: Kind)
        ensures
            final(self)@ == transfer::without_null(old(self)@, kind),
    {
        let null: bool = match self.0.get(kind.list_key()) {
            Some(Value::Null) => true,
            _ => false,
        };
        if null {
            self.list_mut(kind);
            assert(value::items_view(Seq::<Value>::empty()) =~= Seq::<Json>::empty());
        }
    }

    /// How many entries of a list have no name.
    pub fn unnamed(&self, kind: Kind) -> (r: usize)
        ensures
            r == issues::unnamed(document::list(self@, kind)),
    {
        let mut count: usize = 0;
        if let Some(entries) = self.list(kind) {
            let ghost all = value::items_view(entries@);
            let mut i: usize = 0;
            assert(all.take(0) =~= Seq::empty());
            while i < entries.len()
                invariant
                    count <= i <= entries@.len(),
                    all == value::items_view(entries@),
                    count == issues::unnamed(all.take(i as int)),
                decreases entries@.len() - i,
            {
                assert(all.take(i + 1).drop_last() =~= all.take(i as int));
                let named: bool = match entries[i].text_at("name") {
                    Some(name) => !name.is_empty(),
                    None => false,
                };
                if !named {
                    count += 1;
                }
                i += 1;
            }
            assert(all.take(i as int) =~= all);
        }
        count
    }

    /// The named entries of a list with their bodies, in file order.
    pub fn bodies(&self, kind: Kind) -> (r: Vec<(String, Option<Object>)>)
        ensures
            bodies_view(r@) == document::bodies_in(document::list(self@, kind), kind),
    {
        let mut out: Vec<(String, Option<Object>)> = Vec::new();
        assert(bodies_view(out@) =~= Seq::empty());
        if let Some(entries) = self.list(kind) {
            let ghost all = value::items_view(entries@);
            let mut i: usize = 0;
            assert(all.take(0) =~= Seq::empty());
            while i < entries.len()
                invariant
                    i <= entries@.len(),
                    all == value::items_view(entries@),
                    bodies_view(out@) == document::bodies_in(all.take(i as int), kind),
                decreases entries@.len() - i,
            {
                assert(all.take(i + 1).drop_last() =~= all.take(i as int));
                let ghost before = out@;
                if let Some(name) = entries[i].text_at("name") {
                    let body: Option<Object> = match entries[i].get(kind.body_key()) {
                        Some(v) => match v.as_object() {
                            Some(b) => Some(b.clone()),
                            None => None,
                        },
                        None => None,
                    };
                    let ghost pair = (name@, object_of(body));
                    out.push((name.to_string(), body));
                    assert(bodies_view(out@) =~= bodies_view(before).push(pair));
                }
                i += 1;
            }
            assert(all.take(i as int) =~= all);
        }
        out
    }
}

/// Names with the fields of their bodies.
pub open spec fn bodies_view(v: Seq<(String, Option<Object>)>) -> Seq<(Seq<char>, Option<Fields>)> {
    Seq::new(v.len(), |i: int| (v[i].0@, object_of(v[i].1)))
}

pub open spec fn object_of(o: Option<Object>) -> Option<Fields> {
    match o {
        Some(o) => Some(o@),
        None => None,
    }
}

/// Every `name` used more than once in a list, each once, in the order of their characters.
pub fn duplicate_names(doc: &Doc, kind: Kind) -> (r: Vec<String>)
    ensures
        text::ascending(text::texts(r@)),
        forall|name: Seq<char>|
            #[trigger] text::texts(r@).contains(name) <==> document::occurrences(
                document::names(doc@, kind),
                name,
            ) >= 2,
{
    let names: Vec<String> = doc.names(kind);
    let ghost all = text::texts(names@);
    let mut out: Vec<String> = Vec::new();
    let mut i: usize = 0;
    assert(all.take(0) =~= Seq::empty());
    while i < names.len()
        invariant
            i <= names@.len(),
            all == text::texts(names@),
            text::ascending(text::texts(out@)),
            forall|name: Seq<char>|
                #[trigger] text::texts(out@).contains(name) <==> document::occurrences(
                    all.take(i as int),
                    name,
                ) >= 2,
        decreases names@.len() - i,
    {
        let name: &str = names[i].as_str();
        let ghost done = text::texts(out@);
        assert(all.take(i + 1).drop_last() =~= all.take(i as int));
        assert(all.take(i + 1).last() == name@);
        let mut seen: bool = false;
        let mut j: usize = 0;
        while j < i
            invariant
                j <= i < names@.len(),
                name@ == names@[i as int]@,
                all == text::texts(names@),
                seen == (document::occurrences(all.take(j as int), name@) > 0),
            decreases i - j,
        {
            assert(all.take(j + 1).drop_last() =~= all.take(j as int));
            if same(names[j].as_str(), name) {
                seen = true;
            }
            j += 1;
        }
        if seen {
            text::insert_sorted(&mut out, name);
        }
        assert forall|x: Seq<char>| #[trigger] text::texts(out@).contains(x) <==>
            document::occurrences(all.take(i + 1), x) >= 2 by {
            assert(done.contains(x) <==> document::occurrences(all.take(i as int), x) >= 2);
        }
        i += 1;
    }
    assert(all.take(i as int) =~= all);
    out
}

/// The non-empty string under `key`.
fn reference(body: &Object, key: &str) -> (r: Option<String>)
    ensures
        text::text_of(r) == document::reference(body@, key@),
{
    match body.get(key) {
        Some(v) => match v.as_str() {
            Some(s) => if s.is_empty() {
                None
            } else {
                Some(s.to_string())
            },
            None => None,
        },
        None => None,
    }
}

/// Sets a field; a value that isn't an object becomes one.
fn set_field(v: &mut Value, key: &str, to: Value)
    ensures
        final(v)@ == document::with_field(old(v)@, key@, to@),
{
    if v.as_object().is_none() {
        *v = Value::Object(Object::new());
    }
    if let Some(o) = v.as_object_mut() {
        o.insert(key, to);
    }
}

/// Replaces the contexts' references to a cluster or user.
fn redirect(contexts: &mut Vec<Value>, kind: Kind, from: &str, to: &str)
    ensures
        value::items_view(final(contexts)@) == document::all_redirected(
            value::items_view(old(contexts)@),
            kind,
            from@,
            to@,
        ),
{
    let ghost all = value::items_view(contexts@);
    let mut i: usize = 0;
    while i < contexts.len()
        invariant
            i <= contexts@.len() == all.len(),
            forall|j: int|
                0 <= j < i ==> (#[trigger] value::items_view(contexts@)[j])
                    == document::redirected(all[j], kind, from@, to@),
            forall|j: int|
                i <= j < all.len() ==> (#[trigger] value::items_view(contexts@)[j]) == all[j],
        decreases contexts@.len() - i,
    {
        broadcast use value::group_items_view;

        assert(value::items_view(contexts@)[i as int] == all[i as int]);
        redirect_one(&mut contexts[i], kind, from, to);
        i += 1;
    }
    assert(value::items_view(contexts@) =~= document::all_redirected(all, kind, from@, to@));
}

fn redirect_one(context: &mut Value, kind: Kind, from: &str, to: &str)
    ensures
        final(context)@ == document::redirected(old(context)@, kind, from@, to@),
{
    broadcast use json::put_same;

    if let Some(slot) = context.get_mut("context") {
        if let Some(body) = slot.as_object_mut() {
            let refers: bool = match body.get(kind.body_key()) {
                Some(v) => match v.as_str() {
                    Some(s) => same(s, from),
                    None => false,
                },
                None => false,
            };
            if refers {
                body.insert(kind.body_key(), Value::text(to));
            }
        }
    }
}

/// Names can't be empty or have surrounding spaces.
pub fn validate_name(name: &str) -> (r: Result<(), String>)
    ensures
        match document::name_error(name@) {
            Some(e) => r is Err && r->Err_0@ == e,
            None => r is Ok,
        },
{
    if name.is_empty() {
        return Err("the name can't be empty".to_string());
    }
    if !same(trim(name).as_str(), name) {
        return Err("the name can't start or end with a space".to_string());
    }
    Ok(())
}

} // verus!
