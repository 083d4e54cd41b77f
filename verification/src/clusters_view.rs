//! What the Clusters & kubeconfigs tab shows: kubeconfig sources, the merged context table and
//! connection details.

use crate::certs::Moment;
use crate::locations;
use crate::moves::SourceKind;
use crate::names::holds;
use crate::outside;
use crate::report::clone_text;
use crate::text::{self, cat, cat3, cat4, cat5, same, trim};
use vstd::prelude::*;

verus! {

/// The state of a cluster's connection.
#[derive(Debug)]
pub enum ConnectionState {
    Disconnected,
    Connecting,
    Connected { millis: u64 },
    /// `sign_in`: the user can sign in.
    AuthRequired { message: String, detail: Option<String>, sign_in: bool },
    /// `retry`: seconds until the next try.
    Unreachable { message: String, retry: Option<u64> },
    Forbidden(String),
}

// ----- The selection -----

/// The context that is selected: the one that was if it's still there, else the active one, else
/// the first.
pub open spec fn selection_of(
    selected: Option<Seq<char>>,
    active: Option<Seq<char>>,
    ids: Seq<Seq<char>>,
) -> Option<Seq<char>> {
    match selected {
        Some(id) if ids.contains(id) => Some(id),
        _ => match active {
            Some(id) => Some(id),
            None => if ids.len() > 0 {
                Some(ids[0])
            } else {
                None
            },
        },
    }
}

/// The context that is selected after the contexts changed.
pub fn ensure_selection(selected: Option<String>, active: &Option<String>, ids: &Vec<String>) -> (r:
    Option<String>)
    ensures
        text::text_of(r) == selection_of(
            text::text_of(selected),
            text::text_of(*active),
            text::texts(ids@),
        ),
{
    if let Some(id) = selected {
        if holds(ids, id.as_str()) {
            return Some(id);
        }
    }
    assert(text::texts(ids@).len() == ids@.len());
    match active {
        Some(id) => Some(id.clone()),
        None => if ids.len() > 0 {
            assert(text::texts(ids@)[0] == ids@[0]@);
            Some(ids[0].clone())
        } else {
            None
        },
    }
}

/// The default namespace that a text gives; none for an empty one.
pub open spec fn namespace_of(value: Seq<char>) -> Option<Seq<char>> {
    if text::trimmed(value).len() == 0 {
        None
    } else {
        Some(text::trimmed(value))
    }
}

/// The new default namespace, if the text changes it.
pub fn namespace_change(current: &Option<String>, value: &str) -> (r: Option<Option<String>>)
    ensures
        match r {
            Some(new) => text::text_of(*current) != namespace_of(value@) && text::text_of(new)
                == namespace_of(value@),
            None => text::text_of(*current) == namespace_of(value@),
        },
{
    let value: String = trim(value);
    let empty: bool = value.as_str().is_empty();
    let unchanged: bool = match current {
        Some(c) => !empty && same(c.as_str(), value.as_str()),
        None => empty,
    };
    if unchanged {
        None
    } else if empty {
        Some(None)
    } else {
        Some(Some(value))
    }
}

// ----- Sources -----

/// What a source's row says of it.
#[derive(Debug)]
pub struct SourceFacts {
    pub kind: SourceKind,
    pub is_dir: bool,
    /// The files that the source names.
    pub named: usize,
    /// The files that were loaded.
    pub loaded: usize,
    pub contexts: usize,
    pub has_oidc: bool,
    pub errors: Vec<String>,
}

/// The icon of a source.
#[derive(Clone, Copy, Debug, PartialEq, Eq, Structural)]
pub enum SourceIcon {
    Bolt,
    Copy,
    Folder,
    File,
}

/// A source's row.
#[derive(Debug)]
pub struct SourceRow {
    pub icon: SourceIcon,
    pub subtitle: String,
    pub error: Option<String>,
    /// A key: contexts sign in, and nothing is wrong.
    pub shows_key: bool,
    /// The user added it, and can remove it.
    pub can_remove: bool,
}

/// A number of contexts, in words.
pub open spec fn contexts_text(n: nat) -> Seq<char> {
    text::decimal(n) + " context"@ + (if n == 1 {
        ""@
    } else {
        "s"@
    })
}

/// What a source's row says below its path.
pub open spec fn source_subtitle(s: SourceFacts) -> Seq<char> {
    let contexts = contexts_text(s.contexts as nat);
    if s.kind == SourceKind::Env {
        "merged · "@ + text::decimal(s.named as nat) + " files · "@ + contexts
    } else if s.is_dir {
        text::decimal(s.loaded as nat) + " files · "@ + contexts + " · watched"@
    } else if s.has_oidc {
        contexts + " · OIDC"@
    } else {
        contexts + " · watched for changes"@
    }
}

/// The first error, and how many more there are.
pub open spec fn errors_text(errors: Seq<Seq<char>>) -> Option<Seq<char>> {
    if errors.len() == 0 {
        None
    } else if errors.len() == 1 {
        Some(errors[0])
    } else {
        Some(errors[0] + " (+"@ + text::decimal((errors.len() - 1) as nat) + " more)"@)
    }
}

/// The row of a source.
pub fn source_row(s: &SourceFacts) -> (r: SourceRow)
    ensures
        r.icon == match s.kind {
            SourceKind::Env => SourceIcon::Bolt,
            SourceKind::Pasted => SourceIcon::Copy,
            _ => if s.is_dir {
                SourceIcon::Folder
            } else {
                SourceIcon::File
            },
        },
        r.subtitle@ == source_subtitle(*s),
        text::text_of(r.error) == errors_text(text::texts(s.errors@)),
        r.shows_key == (s.errors@.len() == 0 && s.has_oidc),
        r.can_remove == (s.kind == SourceKind::User),
{
    let count: String = text::decimal_text(s.contexts as u128);
    let contexts: String = cat3(
        count.as_str(),
        " context",
        if s.contexts == 1 {
            ""
        } else {
            "s"
        },
    );
    assert(text::texts(s.errors@).len() == s.errors@.len());
    let error: Option<String> = if s.errors.len() == 0 {
        None
    } else {
        assert(text::texts(s.errors@)[0] == s.errors@[0]@);
        if s.errors.len() == 1 {
            Some(s.errors[0].clone())
        } else {
            Some(
                cat4(
                    s.errors[0].as_str(),
                    " (+",
                    text::decimal_text((s.errors.len() - 1) as u128).as_str(),
                    " more)",
                ),
            )
        }
    };
    SourceRow {
        icon: match s.kind {
            SourceKind::Env => SourceIcon::Bolt,
            SourceKind::Pasted => SourceIcon::Copy,
            _ => if s.is_dir {
                SourceIcon::Folder
            } else {
                SourceIcon::File
            },
        },
        subtitle: if s.kind == SourceKind::Env {
            cat4(
                "merged · ",
                text::decimal_text(s.named as u128).as_str(),
                " files · ",
                contexts.as_str(),
            )
        } else if s.is_dir {
            cat4(
                text::decimal_text(s.loaded as u128).as_str(),
                " files · ",
                contexts.as_str(),
                " · watched",
            )
        } else if s.has_oidc {
            cat(contexts.as_str(), " · OIDC")
        } else {
            cat(contexts.as_str(), " · watched for changes")
        },
        error,
        shows_key: s.errors.len() == 0 && s.has_oidc,
        can_remove: s.kind == SourceKind::User,
    }
}

/// Whether a source is listed: pasted kubeconfigs only once there are some.
pub fn lists_source(kind: SourceKind, files: usize) -> (r: bool)
    ensures
        r == (kind != SourceKind::Pasted || files > 0),
{
    kind != SourceKind::Pasted || files > 0
}

/// What stands in place of the sources.
pub fn no_sources_note(loading: bool) -> (r: &'static str)
    ensures
        r@ == if loading {
            "Loading kubeconfigs…"@
        } else {
            "No kubeconfigs yet."@
        },
{
    if loading {
        "Loading kubeconfigs…"
    } else {
        "No kubeconfigs yet."
    }
}

// ----- Contexts -----

/// A context of the table.
#[derive(Debug)]
pub struct ContextItem {
    pub id: String,
    pub name: String,
    pub display_name: String,
    pub server: Option<String>,
    /// How it authenticates, in words.
    pub auth: String,
    /// The state of its connection, in words.
    pub state: String,
    pub hidden: bool,
}

/// Whether a context is shown under a filter: its name, server or display name has it, in
/// whatever case.
pub open spec fn shown_under(c: ContextItem, filter: Seq<char>) -> bool {
    let wanted = outside::lowercase(filter);
    ||| wanted.len() == 0
    ||| text::contains_text(outside::lowercase(c.name@), wanted)
    ||| text::contains_text(
        outside::lowercase(
            match c.server {
                Some(s) => s@,
                None => ""@,
            },
        ),
        wanted,
    )
    ||| text::contains_text(outside::lowercase(c.display_name@), wanted)
}

/// The places of the contexts that are shown under a filter.
pub open spec fn shown_places(items: Seq<ContextItem>, filter: Seq<char>) -> Seq<int>
    decreases items.len(),
{
    if items.len() == 0 {
        seq![]
    } else {
        let before = shown_places(items.drop_last(), filter);
        if shown_under(items.last(), filter) {
            before.push(items.len() - 1)
        } else {
            before
        }
    }
}

/// Whether a text has another one in it, in whatever case; `wanted` is in lower case.
fn has_lower(s: &str, wanted: &str) -> (r: bool)
    ensures
        r == text::contains_text(outside::lowercase(s@), wanted@),
{
    text::contains(outside::to_lowercase(s).as_str(), wanted)
}

/// A row of the context table.
#[derive(Debug)]
pub struct ContextRow {
    /// The place of the context.
    pub place: usize,
    pub selected: bool,
    pub name: String,
    pub server: String,
}

pub open spec fn row_places(v: Seq<ContextRow>) -> Seq<int> {
    Seq::new(v.len(), |i: int| v[i].place as int)
}

/// A server's address, or a dash.
pub open spec fn server_text(server: Option<Seq<char>>) -> Seq<char> {
    match server {
        Some(s) => s,
        None => "—"@,
    }
}

fn server_or_dash(server: &Option<String>) -> (r: String)
    ensures
        r@ == server_text(text::text_of(*server)),
{
    match server {
        Some(s) => s.clone(),
        None => "—".to_string(),
    }
}

/// The rows of the context table under a filter.
pub fn context_rows(items: &Vec<ContextItem>, filter: &str, selected: Option<&str>) -> (r: Vec<
    ContextRow,
>)
    ensures
        row_places(r@) == shown_places(items@, filter@),
        forall|i: int|
            0 <= i < r@.len() ==> {
                let row = #[trigger] r@[i];
                &&& row.place < items@.len()
                &&& row.name@ == items@[row.place as int].display_name@
                &&& row.server@ == server_text(text::text_of(items@[row.place as int].server))
                &&& row.selected == match selected {
                    Some(id) => id@ == items@[row.place as int].id@,
                    None => false,
                }
            },
{
    let wanted: String = outside::to_lowercase(filter);
    let all: bool = wanted.as_str().is_empty();
    let mut out: Vec<ContextRow> = Vec::new();
    let mut i: usize = 0;
    assert(items@.take(0) =~= seq![]);
    assert(row_places(out@) =~= seq![]);
    while i < items.len()
        invariant
            i <= items@.len(),
            wanted@ == outside::lowercase(filter@),
            all == (wanted@.len() == 0),
            row_places(out@) == shown_places(items@.take(i as int), filter@),
            forall|k: int|
                0 <= k < out@.len() ==> {
                    let row = #[trigger] out@[k];
                    &&& row.place < items@.len()
                    &&& row.name@ == items@[row.place as int].display_name@
                    &&& row.server@ == server_text(text::text_of(items@[row.place as int].server))
                    &&& row.selected == match selected {
                        Some(id) => id@ == items@[row.place as int].id@,
                        None => false,
                    }
                },
        decreases items@.len() - i,
    {
        let ghost before = out@;
        assert(items@.take(i + 1).drop_last() =~= items@.take(i as int));
        let c: &ContextItem = &items[i];
        let server: &str = match &c.server {
            Some(s) => s.as_str(),
            None => "",
        };
        if all || has_lower(c.name.as_str(), wanted.as_str()) || has_lower(server, wanted.as_str())
            || has_lower(c.display_name.as_str(), wanted.as_str()) {
            out.push(
                ContextRow {
                    place: i,
                    selected: match selected {
                        Some(id) => same(id, c.id.as_str()),
                        None => false,
                    },
                    name: c.display_name.clone(),
                    server: server_or_dash(&c.server),
                },
            );
            assert(row_places(out@) =~= row_places(before).push(i as int));
        }
        i += 1;
    }
    assert(items@.take(i as int) =~= items@);
    out
}

/// How many contexts there are, from how many sources.
pub fn contexts_note(total: usize, sources: usize) -> (r: String)
    ensures
        r@ == text::decimal(total as nat) + " from "@ + text::decimal(sources as nat)
            + " source"@ + (if sources == 1 {
            ""@
        } else {
            "s"@
        }),
{
    cat5(
        text::decimal_text(total as u128).as_str(),
        " from ",
        text::decimal_text(sources as u128).as_str(),
        " source",
        if sources == 1 {
            ""
        } else {
            "s"
        },
    )
}

/// What stands in place of the table's rows.
pub fn no_contexts_note(total: usize) -> (r: &'static str)
    ensures
        r@ == if total == 0 {
            "No contexts. Add a kubeconfig on the left."@
        } else {
            "No context matches the filter."@
        },
{
    if total == 0 {
        "No contexts. Add a kubeconfig on the left."
    } else {
        "No context matches the filter."
    }
}

/// The first context of a source, which clicking the source selects. `sources` are the paths
/// of the contexts' sources, in the order of the contexts.
pub fn first_context(sources: &Vec<String>, source: &str) -> (r: Option<usize>)
    ensures
        match r {
            Some(i) => i < sources@.len() && locations::same_path(sources@[i as int]@, source@)
                && forall|j: int|
                0 <= j < i ==> !locations::same_path((#[trigger] sources@[j])@, source@),
            None => forall|j: int|
                0 <= j < sources@.len() ==> !locations::same_path(
                    (#[trigger] sources@[j])@,
                    source@,
                ),
        },
{
    let mut i: usize = 0;
    while i < sources.len()
        invariant
            i <= sources@.len(),
            forall|j: int|
                0 <= j < i ==> !locations::same_path((#[trigger] sources@[j])@, source@),
        decreases sources@.len() - i,
    {
        if locations::is_same_path(sources[i].as_str(), source) {
            return Some(i);
        }
        i += 1;
    }
    None
}

/// A switch of a context's settings.
#[derive(Clone, Copy, Debug, PartialEq, Eq, Structural)]
pub enum SafetySwitch {
    Production,
    ReadOnly,
    Hidden,
}

/// The title of a card, in capitals.
pub fn safety_title(name: &str) -> (r: String)
    ensures
        r@ == outside::uppercase(name@ + " · safety"@),
{
    outside::to_uppercase(cat(name, " · safety").as_str())
}

impl SafetySwitch {
    pub const ALL: [SafetySwitch; 3] = [
        SafetySwitch::Production,
        SafetySwitch::ReadOnly,
        SafetySwitch::Hidden,
    ];

    /// The title of a switch, and what it does.
    pub fn texts(self) -> (r: (&'static str, &'static str))
        ensures
            (r.0@, r.1@) == match self {
                SafetySwitch::Production => (
                    "Production cluster"@,
                    "Red accent in title bar, typed confirmation for delete / scale to 0"@,
                ),
                SafetySwitch::ReadOnly => (
                    "Read-only mode"@,
                    "Block all mutating requests from this app"@,
                ),
                SafetySwitch::Hidden => (
                    "Hide context"@,
                    "Leave it out of the sidebar and the cluster switcher"@,
                ),
            },
    {
        match self {
            SafetySwitch::Production => (
                "Production cluster",
                "Red accent in title bar, typed confirmation for delete / scale to 0",
            ),
            SafetySwitch::ReadOnly => (
                "Read-only mode",
                "Block all mutating requests from this app",
            ),
            SafetySwitch::Hidden => (
                "Hide context",
                "Leave it out of the sidebar and the cluster switcher",
            ),
        }
    }
}

/// What the switches of a context are set to.
#[derive(Clone, Copy, Debug, PartialEq, Eq, Structural)]
pub struct ContextSwitches {
    pub production: bool,
    pub read_only: bool,
    pub hidden: bool,
}

impl ContextSwitches {
    /// What a switch is set to.
    pub open spec fn on(self, switch: SafetySwitch) -> bool {
        match switch {
            SafetySwitch::Production => self.production,
            SafetySwitch::ReadOnly => self.read_only,
            SafetySwitch::Hidden => self.hidden,
        }
    }

    /// What a switch is set to.
    pub fn is_on(&self, switch: SafetySwitch) -> (r: bool)
        ensures
            r == self.on(switch),
    {
        match switch {
            SafetySwitch::Production => self.production,
            SafetySwitch::ReadOnly => self.read_only,
            SafetySwitch::Hidden => self.hidden,
        }
    }

    /// Sets a switch; the others stay.
    pub fn set(&mut self, switch: SafetySwitch, on: bool)
        ensures
            forall|s: SafetySwitch|
                #[trigger] final(self).on(s) == if s == switch {
                    on
                } else {
                    old(self).on(s)
                },
    {
        match switch {
            SafetySwitch::Production => {
                self.production = on;
            },
            SafetySwitch::ReadOnly => {
                self.read_only = on;
            },
            SafetySwitch::Hidden => {
                self.hidden = on;
            },
        }
    }
}

// ----- A connection -----

/// How long a cached credential is valid, in words.
pub open spec fn expiry_text(at: Moment, now: Moment) -> Seq<char> {
    let secs = at.second - now.second;
    if secs <= 0 {
        "expired"@
    } else if secs < 120 {
        "cached · expires in "@ + text::decimal(secs as nat) + "s"@
    } else if secs < 7200 {
        "cached · expires in "@ + text::decimal((secs / 60) as nat) + "m"@
    } else {
        "cached · expires in "@ + text::decimal((secs / 3600) as nat) + "h"@
    }
}

/// How long a cached credential is valid, in words.
pub fn expiry_label(at: Moment, now: Moment) -> (r: String)
    ensures
        r@ == expiry_text(at, now),
{
    let secs: i128 = at.second as i128 - now.second as i128;
    if secs <= 0 {
        "expired".to_string()
    } else if secs < 120 {
        cat3("cached · expires in ", text::decimal_text(secs as u128).as_str(), "s")
    } else if secs < 7200 {
        cat3("cached · expires in ", text::decimal_text(secs as u128 / 60).as_str(), "m")
    } else {
        cat3("cached · expires in ", text::decimal_text(secs as u128 / 3600).as_str(), "h")
    }
}

/// How a context authenticates, as the card shows it.
#[derive(Debug)]
pub enum ConnectionAuth {
    Oidc { issuer_host: String, client_id: String },
    Exec { label: String, interactive: bool },
    Other(String),
}

/// Where the CA of a context comes from, as the card shows it.
#[derive(Debug)]
pub enum ShownCa {
    Inline,
    File(String),
    System,
}

/// What is known of a cluster that was connected to.
#[derive(Debug)]
pub struct ClusterFacts {
    /// When its credential expires.
    pub expires: Option<Moment>,
    pub proxy: Option<String>,
    /// Its version in words, and who the user is.
    pub version: Option<(String, Option<String>)>,
    /// How many kinds discovery found.
    pub kinds: Option<usize>,
    pub crds: Option<usize>,
    pub namespaces: usize,
    /// The namespaces could be listed.
    pub listed: bool,
}

/// What is known of a context.
#[derive(Debug)]
pub struct ConnectionFacts {
    /// Its file, as it is shown.
    pub source: String,
    pub name: String,
    pub context: String,
    pub server: Option<String>,
    pub auth: ConnectionAuth,
    /// Where tokens are stored, in words.
    pub store: String,
    pub insecure: bool,
    pub ca: ShownCa,
    pub tls_server_name: Option<String>,
    pub proxy_url: Option<String>,
    pub error: Option<String>,
    pub cluster: Option<ClusterFacts>,
}

/// A row of the card: a label and a text.
pub type Line = (Seq<char>, Seq<char>);

/// A row, if there is a text for it.
pub open spec fn optional_line(label: Seq<char>, s: Option<Seq<char>>) -> Seq<Line> {
    match s {
        Some(s) => seq![(label, s)],
        None => seq![],
    }
}

/// How a context authenticates, in words.
pub open spec fn auth_text(auth: ConnectionAuth) -> Seq<char> {
    match auth {
        ConnectionAuth::Oidc { issuer_host, client_id } => "OIDC · "@ + issuer_host@ + " · client "@
            + client_id@,
        ConnectionAuth::Exec { label, interactive } => if interactive {
            label@ + " · interactive"@
        } else {
            label@
        },
        ConnectionAuth::Other(label) => label@,
    }
}

/// What is known of a context's token, in words.
pub open spec fn token_text(f: ConnectionFacts, state: ConnectionState, now: Moment) -> Option<
    Seq<char>,
> {
    let expires = match f.cluster {
        Some(c) => c.expires,
        None => None,
    };
    match (f.auth, expires) {
        (ConnectionAuth::Other(_), _) => None,
        (_, Some(at)) => Some(expiry_text(at, now)),
        (ConnectionAuth::Exec { label: _, interactive: _ }, None) => if state is Connected {
            Some("cached · no expiry"@)
        } else {
            None
        },
        (ConnectionAuth::Oidc { issuer_host: _, client_id: _ }, None) => Some(
            "stored in "@ + f.store@,
        ),
    }
}

/// Where the CA comes from, in words.
pub open spec fn ca_text(f: ConnectionFacts) -> Seq<char> {
    if f.insecure {
        "TLS verification disabled"@
    } else {
        match f.ca {
            ShownCa::Inline => "inline certificate"@,
            ShownCa::File(path) => path@,
            ShownCa::System => "system trust store"@,
        }
    }
}

/// The proxy that is used: that of the connection, else that of the kubeconfig.
pub open spec fn proxy_text(f: ConnectionFacts) -> Seq<char> {
    let used = match f.cluster {
        Some(c) => text::text_of(c.proxy),
        None => None,
    };
    match used {
        Some(p) => p,
        None => match f.proxy_url {
            Some(p) => p@,
            None => "none"@,
        },
    }
}

/// The rows on the cluster's version.
pub open spec fn version_lines(f: ConnectionFacts) -> Seq<Line> {
    match f.cluster {
        Some(c) => match c.version {
            Some((version, user)) => seq![("Version"@, version@)] + optional_line(
                "User"@,
                text::text_of(user),
            ),
            None => seq![],
        },
        None => seq![],
    }
}

/// What discovery found, in words.
pub open spec fn discovery_text(kinds: Option<usize>, crds: Option<usize>) -> Seq<char> {
    match (kinds, crds) {
        (Some(k), Some(n)) => text::decimal(k as nat) + " kinds · "@ + text::decimal(n as nat)
            + " CRDs"@,
        (Some(k), None) => text::decimal(k as nat) + " kinds"@,
        (None, _) => "running…"@,
    }
}

/// The rows on what a connected cluster has.
pub open spec fn content_lines(f: ConnectionFacts, state: ConnectionState) -> Seq<Line> {
    match f.cluster {
        Some(c) if state is Connected => seq![
            ("Discovery"@, discovery_text(c.kinds, c.crds)),
            (
                "Namespaces"@,
                text::decimal(c.namespaces as nat) + (if c.listed {
                    " (watched)"@
                } else {
                    " (listing not allowed)"@
                }),
            ),
        ],
        _ => seq![],
    }
}

/// The rows about the context itself.
pub open spec fn context_lines(f: ConnectionFacts, state: ConnectionState, now: Moment) -> Seq<
    Line,
> {
    seq![("Source"@, f.source@)] + optional_line(
        "Context"@,
        if f.name@ != f.context@ {
            Some(f.context@)
        } else {
            None
        },
    ) + seq![("Server"@, server_text(text::text_of(f.server))), ("Auth"@, auth_text(f.auth))]
        + optional_line("Token"@, token_text(f, state, now)) + seq![("CA"@, ca_text(f))]
        + optional_line("TLS name"@, text::text_of(f.tls_server_name)) + seq![
        ("Proxy"@, proxy_text(f)),
    ]
}

/// The rows of the card.
pub open spec fn connection_lines(f: ConnectionFacts, state: ConnectionState, now: Moment) -> Seq<
    Line,
> {
    context_lines(f, state, now) + version_lines(f) + content_lines(f, state)
}

/// What is wrong with a connection: a message, with details of it.
pub open spec fn connection_error(f: ConnectionFacts, state: ConnectionState) -> Option<
    (Seq<char>, Option<Seq<char>>),
> {
    match state {
        ConnectionState::AuthRequired { message, detail, sign_in: _ } => Some(
            (message@, text::text_of(detail)),
        ),
        ConnectionState::Unreachable { message, retry: _ } => Some((message@, None)),
        ConnectionState::Forbidden(message) => Some((message@, None)),
        _ => match f.error {
            Some(e) => Some((e@, None)),
            None => None,
        },
    }
}

/// Whether the user can sign in: the cluster asks for it, or the context signs in with a
/// provider and isn't connected.
pub open spec fn offers_sign_in(f: ConnectionFacts, state: ConnectionState) -> bool {
    ||| match state {
        ConnectionState::AuthRequired { message: _, detail: _, sign_in } => sign_in,
        _ => false,
    }
    ||| (f.auth is Oidc && !(state is Connected) && !(state is Connecting))
}

/// The card of a connection.
#[derive(Debug)]
pub struct ConnectionCard {
    pub rows: Vec<(&'static str, String)>,
    pub error: Option<(String, Option<String>)>,
    pub connect_label: &'static str,
    pub can_connect: bool,
    pub can_sign_in: bool,
}

pub open spec fn lines_view(v: Seq<(&'static str, String)>) -> Seq<Line> {
    Seq::new(v.len(), |i: int| (v[i].0@, v[i].1@))
}

pub open spec fn error_view(e: Option<(String, Option<String>)>) -> Option<
    (Seq<char>, Option<Seq<char>>),
> {
    match e {
        Some((message, detail)) => Some((message@, text::text_of(detail))),
        None => None,
    }
}

fn push_line(rows: &mut Vec<(&'static str, String)>, label: &'static str, s: String)
    ensures
        lines_view(final(rows)@) == lines_view(old(rows)@).push((label@, s@)),
{
    rows.push((label, s));
    assert(lines_view(rows@) =~= lines_view(old(rows)@).push((label@, s@)));
}

fn push_optional(rows: &mut Vec<(&'static str, String)>, label: &'static str, s: Option<String>)
    ensures
        lines_view(final(rows)@) == lines_view(old(rows)@) + optional_line(
            label@,
            text::text_of(s),
        ),
{
    match s {
        Some(s) => push_line(rows, label, s),
        None => {},
    }
    assert(lines_view(rows@) =~= lines_view(old(rows)@) + optional_line(
        label@,
        text::text_of(s),
    ));
}

fn auth_words(auth: &ConnectionAuth) -> (r: String)
    ensures
        r@ == auth_text(*auth),
{
    match auth {
        ConnectionAuth::Oidc { issuer_host, client_id } => cat4(
            "OIDC · ",
            issuer_host.as_str(),
            " · client ",
            client_id.as_str(),
        ),
        ConnectionAuth::Exec { label, interactive } => if *interactive {
            cat(label.as_str(), " · interactive")
        } else {
            label.clone()
        },
        ConnectionAuth::Other(label) => label.clone(),
    }
}

fn is_connected(state: &ConnectionState) -> (r: bool)
    ensures
        r == (*state is Connected),
{
    match state {
        ConnectionState::Connected { millis: _ } => true,
        _ => false,
    }
}

fn is_connecting(state: &ConnectionState) -> (r: bool)
    ensures
        r == (*state is Connecting),
{
    match state {
        ConnectionState::Connecting => true,
        _ => false,
    }
}

fn token_words(f: &ConnectionFacts, state: &ConnectionState, now: Moment) -> (r: Option<String>)
    ensures
        text::text_of(r) == token_text(*f, *state, now),
{
    let expires: Option<Moment> = match &f.cluster {
        Some(c) => c.expires,
        None => None,
    };
    match &f.auth {
        ConnectionAuth::Other(_) => None,
        ConnectionAuth::Exec { label: _, interactive: _ } => match expires {
            Some(at) => Some(expiry_label(at, now)),
            None => if is_connected(state) {
                Some("cached · no expiry".to_string())
            } else {
                None
            },
        },
        ConnectionAuth::Oidc { issuer_host: _, client_id: _ } => match expires {
            Some(at) => Some(expiry_label(at, now)),
            None => Some(cat("stored in ", f.store.as_str())),
        },
    }
}

fn proxy_words(f: &ConnectionFacts) -> (r: String)
    ensures
        r@ == proxy_text(*f),
{
    if let Some(c) = &f.cluster {
        if let Some(p) = &c.proxy {
            return p.clone();
        }
    }
    match &f.proxy_url {
        Some(p) => p.clone(),
        None => "none".to_string(),
    }
}

fn discovery_words(kinds: Option<usize>, crds: Option<usize>) -> (r: String)
    ensures
        r@ == discovery_text(kinds, crds),
{
    match kinds {
        Some(k) => {
            let found: String = text::decimal_text(k as u128);
            match crds {
                Some(n) => cat4(
                    found.as_str(),
                    " kinds · ",
                    text::decimal_text(n as u128).as_str(),
                    " CRDs",
                ),
                None => cat(found.as_str(), " kinds"),
            }
        },
        None => "running…".to_string(),
    }
}

fn ca_words(f: &ConnectionFacts) -> (r: String)
    ensures
        r@ == ca_text(*f),
{
    if f.insecure {
        return "TLS verification disabled".to_string();
    }
    match &f.ca {
        ShownCa::Inline => "inline certificate".to_string(),
        ShownCa::File(path) => path.clone(),
        ShownCa::System => "system trust store".to_string(),
    }
}

fn context_rows_of(f: &ConnectionFacts, state: &ConnectionState, now: Moment) -> (r: Vec<
    (&'static str, String),
>)
    ensures
        lines_view(r@) == context_lines(*f, *state, now),
{
    let mut rows: Vec<(&'static str, String)> = Vec::new();
    assert(lines_view(rows@) =~= seq![]);
    push_line(&mut rows, "Source", f.source.clone());
    let context: Option<String> = if same(f.name.as_str(), f.context.as_str()) {
        None
    } else {
        Some(f.context.clone())
    };
    push_optional(&mut rows, "Context", context);
    push_line(&mut rows, "Server", server_or_dash(&f.server));
    push_line(&mut rows, "Auth", auth_words(&f.auth));
    push_optional(&mut rows, "Token", token_words(f, state, now));
    push_line(&mut rows, "CA", ca_words(f));
    push_optional(&mut rows, "TLS name", clone_text(&f.tls_server_name));
    push_line(&mut rows, "Proxy", proxy_words(f));
    assert(lines_view(rows@) =~= context_lines(*f, *state, now));
    rows
}

fn push_version(rows: &mut Vec<(&'static str, String)>, f: &ConnectionFacts)
    ensures
        lines_view(final(rows)@) == lines_view(old(rows)@) + version_lines(*f),
{
    if let Some(c) = &f.cluster {
        if let Some((version, user)) = &c.version {
            push_line(rows, "Version", version.clone());
            push_optional(rows, "User", clone_text(user));
        }
    }
    assert(lines_view(rows@) =~= lines_view(old(rows)@) + version_lines(*f));
}

fn push_contents(
    rows: &mut Vec<(&'static str, String)>,
    f: &ConnectionFacts,
    state: &ConnectionState,
)
    ensures
        lines_view(final(rows)@) == lines_view(old(rows)@) + content_lines(*f, *state),
{
    if let Some(c) = &f.cluster {
        if is_connected(state) {
            push_line(rows, "Discovery", discovery_words(c.kinds, c.crds));
            push_line(
                rows,
                "Namespaces",
                cat(
                    text::decimal_text(c.namespaces as u128).as_str(),
                    if c.listed {
                        " (watched)"
                    } else {
                        " (listing not allowed)"
                    },
                ),
            );
        }
    }
    assert(lines_view(rows@) =~= lines_view(old(rows)@) + content_lines(*f, *state));
}

/// The card of a connection: where the context comes from, how it authenticates and is
/// verified, and what the cluster has.
pub fn connection_card(f: &ConnectionFacts, state: &ConnectionState, now: Moment) -> (r:
    ConnectionCard)
    ensures
        lines_view(r.rows@) == connection_lines(*f, *state, now),
        error_view(r.error) == connection_error(*f, *state),
        r.connect_label@ == if *state is Connected {
            "Disconnect"@
        } else if *state is Connecting {
            "Connecting…"@
        } else {
            "Connect"@
        },
        r.can_connect == !(*state is Connecting),
        r.can_sign_in == offers_sign_in(*f, *state),
{
    let connected: bool = is_connected(state);
    let connecting: bool = is_connecting(state);
    let mut rows: Vec<(&'static str, String)> = context_rows_of(f, state, now);
    push_version(&mut rows, f);
    push_contents(&mut rows, f, state);
    let error: Option<(String, Option<String>)> = match state {
        ConnectionState::AuthRequired { message, detail, sign_in: _ } => Some(
            (message.clone(), clone_text(detail)),
        ),
        ConnectionState::Unreachable { message, retry: _ } => Some((message.clone(), None)),
        ConnectionState::Forbidden(message) => Some((message.clone(), None)),
        _ => match &f.error {
            Some(e) => Some((e.clone(), None)),
            None => None,
        },
    };
    let asked: bool = match state {
        ConnectionState::AuthRequired { message: _, detail: _, sign_in } => *sign_in,
        _ => false,
    };
    let oidc: bool = match &f.auth {
        ConnectionAuth::Oidc { issuer_host: _, client_id: _ } => true,
        _ => false,
    };
    ConnectionCard {
        rows,
        error,
        connect_label: if connected {
            "Disconnect"
        } else if connecting {
            "Connecting…"
        } else {
            "Connect"
        },
        can_connect: !connecting,
        can_sign_in: asked || (oidc && !connected && !connecting),
    }
}

// ----- The status bar -----

/// The colour of the status bar's text.
#[derive(Clone, Copy, Debug, PartialEq, Eq, Structural)]
pub enum StatusTone {
    Dim,
    Yellow,
    Red,
}

/// What the status bar says of the active cluster. `label` is its state in words, in lower
/// case.
pub open spec fn status_of(state: Option<ConnectionState>, label: Seq<char>) -> (Seq<char>, StatusTone) {
    match state {
        Some(ConnectionState::Connected { millis }) => (
            text::decimal(
                if millis == 0 {
                    1
                } else {
                    millis as nat
                },
            ) + " ms"@,
            StatusTone::Dim,
        ),
        Some(ConnectionState::Connecting) => ("connecting…"@, StatusTone::Yellow),
        Some(ConnectionState::AuthRequired { message: _, detail: _, sign_in: _ }) => (
            label,
            StatusTone::Yellow,
        ),
        Some(ConnectionState::Unreachable { message: _, retry }) => match retry {
            Some(secs) => (
                "unreachable · retry in "@ + text::decimal(secs as nat) + "s"@,
                StatusTone::Red,
            ),
            None => (label, StatusTone::Red),
        },
        Some(ConnectionState::Forbidden(_)) => (label, StatusTone::Red),
        Some(ConnectionState::Disconnected) | None => (seq![], StatusTone::Dim),
    }
}

/// What the status bar says of the active cluster, given its state in lower-case words.
pub fn status_on(state: Option<&ConnectionState>, label: String) -> (r: (String, StatusTone))
    ensures
        (r.0@, r.1) == status_of(
            match state {
                Some(s) => Some(*s),
                None => None,
            },
            label@,
        ),
{
    match state {
        Some(ConnectionState::Connected { millis }) => {
            let shown: u64 = if *millis == 0 {
                1
            } else {
                *millis
            };
            (cat(text::decimal_text(shown as u128).as_str(), " ms"), StatusTone::Dim)
        },
        Some(ConnectionState::Connecting) => ("connecting…".to_string(), StatusTone::Yellow),
        Some(ConnectionState::AuthRequired { message: _, detail: _, sign_in: _ }) => (
            label,
            StatusTone::Yellow,
        ),
        Some(ConnectionState::Unreachable { message: _, retry }) => match retry {
            Some(secs) => (
                cat3(
                    "unreachable · retry in ",
                    text::decimal_text(*secs as u128).as_str(),
                    "s",
                ),
                StatusTone::Red,
            ),
            None => (label, StatusTone::Red),
        },
        Some(ConnectionState::Forbidden(_)) => (label, StatusTone::Red),
        Some(ConnectionState::Disconnected) | None => {
            let none: String = String::new();
            assert(none@ =~= seq![]);
            (none, StatusTone::Dim)
        },
    }
}

/// What the status bar says of the active cluster. `label` is its state in words.
pub fn status_item(state: Option<&ConnectionState>, label: &str) -> (r: (String, StatusTone))
    ensures
        (r.0@, r.1) == status_of(
            match state {
                Some(s) => Some(*s),
                None => None,
            },
            outside::lowercase(label@),
        ),
{
    status_on(state, outside::to_lowercase(label))
}

/// How many clusters are connected, if more than one is.
pub fn connected_note(connected: usize) -> (r: Option<String>)
    ensures
        text::text_of(r) == if connected > 1 {
            Some("· "@ + text::decimal(connected as nat) + " clusters connected"@)
        } else {
            None
        },
{
    if connected > 1 {
        Some(cat3("· ", text::decimal_text(connected as u128).as_str(), " clusters connected"))
    } else {
        None
    }
}

} // verus!
