//! The "New from a service account" dialog: what it starts with, checks, shows and says.

use crate::certs::Moment;
use crate::files;
use crate::import::{self, Grant, SaToken, TokenKind};
use crate::json::Json;
use crate::locations;
use crate::model::Doc;
use crate::outside;
use crate::state::Draft;
use crate::text::{self, cat, cat3, cat4, trim};
use vstd::prelude::*;

verus! {

/// How long a requested token is valid by default, in seconds.
pub const DEFAULT_SECONDS: i64 = 28_800;

/// How long a token can be asked for, in seconds, and how that is called.
pub open spec fn durations() -> Seq<(i64, Seq<char>)> {
    seq![
        (3_600i64, "1 hour"@),
        (28_800i64, "8 hours"@),
        (86_400i64, "1 day"@),
        (604_800i64, "7 days"@),
        (2_592_000i64, "30 days"@),
        (31_536_000i64, "1 year"@),
    ]
}

pub open spec fn durations_view(v: Seq<(i64, &'static str)>) -> Seq<(i64, Seq<char>)> {
    Seq::new(v.len(), |i: int| (v[i].0, v[i].1@))
}

/// How long a token can be asked for, in seconds, and how that is called.
pub fn duration_choices() -> (r: Vec<(i64, &'static str)>)
    ensures
        durations_view(r@) == durations(),
{
    let v: Vec<(i64, &'static str)> = vec![
        (3_600, "1 hour"),
        (28_800, "8 hours"),
        (86_400, "1 day"),
        (604_800, "7 days"),
        (2_592_000, "30 days"),
        (31_536_000, "1 year"),
    ];
    assert(durations_view(v@) =~= durations());
    v
}

/// What a duration is called.
pub open spec fn duration_name(seconds: i64) -> Seq<char> {
    if seconds == 3_600 {
        "1 hour"@
    } else if seconds == 28_800 {
        "8 hours"@
    } else if seconds == 86_400 {
        "1 day"@
    } else if seconds == 604_800 {
        "7 days"@
    } else if seconds == 2_592_000 {
        "30 days"@
    } else if seconds == 31_536_000 {
        "1 year"@
    } else {
        "custom"@
    }
}

fn duration_label(seconds: i64) -> (r: &'static str)
    ensures
        r@ == duration_name(seconds),
{
    if seconds == 3_600 {
        "1 hour"
    } else if seconds == 28_800 {
        "8 hours"
    } else if seconds == 86_400 {
        "1 day"
    } else if seconds == 604_800 {
        "7 days"
    } else if seconds == 2_592_000 {
        "30 days"
    } else if seconds == 31_536_000 {
        "1 year"
    } else {
        "custom"
    }
}

/// The choices of the dialog.
#[derive(Clone, Copy, Debug)]
pub struct SaChoices {
    pub create: bool,
    pub kind: TokenKind,
    pub grant: Grant,
}

impl SaChoices {
    /// What the dialog starts with: a token that expires, and reading in the namespace.
    pub fn new() -> (r: SaChoices)
        ensures
            r.create,
            r.kind == TokenKind::Request(DEFAULT_SECONDS),
            r.grant == Grant::Namespace(import::Role::View),
    {
        SaChoices {
            create: true,
            kind: TokenKind::Request(DEFAULT_SECONDS),
            grant: Grant::Namespace(import::Role::View),
        }
    }

    /// Switches between a token that expires and a token Secret.
    pub fn set_expiring(&mut self, expiring: bool)
        ensures
            *final(self) == (SaChoices {
                kind: if expiring {
                    TokenKind::Request(DEFAULT_SECONDS)
                } else {
                    TokenKind::Secret
                },
                ..*old(self)
            }),
    {
        self.kind = if expiring {
            TokenKind::Request(DEFAULT_SECONDS)
        } else {
            TokenKind::Secret
        };
    }
}

/// What stands in the way of a request: whether a cluster is picked and connected, whether
/// Kubyl treats it as read-only, and what was entered.
#[derive(Debug)]
pub struct SaForm {
    pub picked: bool,
    pub connected: bool,
    pub read_only: bool,
    pub namespace: String,
    pub name: String,
}

/// Why the request isn't made.
pub open spec fn form_error(f: SaForm) -> Option<Seq<char>> {
    if !f.picked {
        Some("Pick a cluster."@)
    } else if !f.connected {
        Some("Connecting to the cluster… try again in a moment."@)
    } else if f.read_only {
        Some("This cluster is read-only in Kubyl."@)
    } else if text::trimmed(f.namespace@).len() == 0 || text::trimmed(f.name@).len() == 0 {
        Some("Enter a namespace and a service account name."@)
    } else {
        None
    }
}

impl SaForm {
    /// Why the request isn't made.
    pub fn problem(&self) -> (r: Option<&'static str>)
        ensures
            match r {
                Some(e) => form_error(*self) == Some(e@),
                None => form_error(*self) is None,
            },
    {
        if !self.picked {
            return Some("Pick a cluster.");
        }
        if !self.connected {
            return Some("Connecting to the cluster… try again in a moment.");
        }
        if self.read_only {
            return Some("This cluster is read-only in Kubyl.");
        }
        if trim(self.namespace.as_str()).as_str().is_empty() || trim(
            self.name.as_str(),
        ).as_str().is_empty() {
            return Some("Enter a namespace and a service account name.");
        }
        None
    }
}

/// What is said of a new kubeconfig.
pub open spec fn note_text(
    namespace: Seq<char>,
    name: Seq<char>,
    expires: Option<Moment>,
    created: Seq<Seq<char>>,
) -> Seq<char> {
    "Kubeconfig for "@ + namespace + "/"@ + name + match expires {
        Some(at) => ", token valid until "@ + outside::minute_at(at.second, at.nanosecond),
        None => seq![],
    } + if created.len() == 0 {
        seq![]
    } else {
        ". Created: "@ + text::joined(created, ", "@)
    }
}

/// What is said of a new kubeconfig.
pub fn note(namespace: &str, name: &str, expires: Option<Moment>, created: &Vec<String>) -> (r:
    String)
    ensures
        r@ == note_text(namespace@, name@, expires, text::texts(created@)),
{
    let head: String = cat4("Kubeconfig for ", namespace, "/", name);
    let with_expiry: String = match expires {
        Some(at) => cat3(
            head.as_str(),
            ", token valid until ",
            outside::minute_text(at.second, at.nanosecond).as_str(),
        ),
        None => head,
    };
    assert(text::texts(created@).len() == created@.len());
    let r: String = if created.len() == 0 {
        with_expiry
    } else {
        cat3(with_expiry.as_str(), ". Created: ", text::join(created, ", ").as_str())
    };
    assert(r@ =~= note_text(namespace@, name@, expires, text::texts(created@)));
    r
}

/// What the dialog shows.
#[derive(Debug)]
pub struct SaDialog {
    /// `valid for 8 hours`; none for a token Secret.
    pub duration: Option<String>,
    pub grant: String,
    /// What is said of the token's kind, as a warning for a token Secret.
    pub token_note: &'static str,
    pub token_warning: bool,
    pub grant_warning: Option<&'static str>,
    pub run_label: &'static str,
    pub run_enabled: bool,
}

/// What the dialog shows for its choices.
pub fn dialog(choices: &SaChoices, busy: bool) -> (r: SaDialog)
    ensures
        text::text_of(r.duration) == match choices.kind {
            TokenKind::Request(seconds) => Some("valid for "@ + duration_name(seconds)),
            TokenKind::Secret => None,
        },
        r.grant@ == import::grant_label(choices.grant),
        r.token_warning == (choices.kind is Secret),
        r.token_note@ == if choices.kind is Secret {
            "A token Secret never expires and anyone who can read Secrets in this namespace can copy it. Prefer a TokenRequest with an expiry."@
        } else {
            "Recommended: the token expires, and deleting the service account revokes it. Create a new kubeconfig when it runs out."@
        },
        match r.grant_warning {
            Some(w) => choices.grant is ClusterAdmin && w@
                == "cluster-admin can do anything on the whole cluster."@,
            None => !(choices.grant is ClusterAdmin),
        },
        r.run_label@ == if busy {
            "Creating…"@
        } else {
            "Create kubeconfig"@
        },
        r.run_enabled == !busy,
{
    let (duration, token_note, token_warning): (Option<String>, &'static str, bool) =
        match choices.kind {
        TokenKind::Request(seconds) => (
            Some(cat("valid for ", duration_label(seconds))),
            "Recommended: the token expires, and deleting the service account revokes it. Create a new kubeconfig when it runs out.",
            false,
        ),
        TokenKind::Secret => (
            None,
            "A token Secret never expires and anyone who can read Secrets in this namespace can copy it. Prefer a TokenRequest with an expiry.",
            true,
        ),
    };
    SaDialog {
        duration,
        grant: choices.grant.label(),
        token_note,
        token_warning,
        grant_warning: match choices.grant {
            Grant::ClusterAdmin => Some("cluster-admin can do anything on the whole cluster."),
            _ => None,
        },
        run_label: if busy {
            "Creating…"
        } else {
            "Create kubeconfig"
        },
        run_enabled: !busy,
    }
}

// ----- The end of a request -----

/// A request that went well: the new kubeconfig and what is said of it.
pub struct SaDone {
    pub draft: Draft,
    pub note: String,
}

/// A new kubeconfig as a mathematical value: the document, where it is saved, its title, and what
/// is said of it.
pub struct SaEnd {
    pub doc: Json,
    pub path: Seq<char>,
    pub title: Seq<char>,
    pub note: Seq<char>,
}

impl View for SaDone {
    type V = SaEnd;

    open spec fn view(&self) -> SaEnd {
        SaEnd {
            doc: self.draft.doc@,
            path: self.draft.path@,
            title: self.draft.title@,
            note: self.note@,
        }
    }
}

/// What a request is about: the service account, and the context of the cluster that has it.
#[derive(Debug)]
pub struct SaSubject {
    pub namespace: String,
    pub name: String,
    /// The context of the cluster, in its kubeconfig.
    pub context: String,
    /// The folder of that kubeconfig.
    pub dir: String,
}

/// The file that a new kubeconfig is saved to by default.
pub open spec fn draft_path(s: SaSubject, owned: Seq<char>, taken: Seq<Seq<char>>) -> Seq<char> {
    locations::resolved(owned, files::owned_file(taken, s.name@ + "-"@ + s.context@))
}

/// How a request ends: with the token's error, else with that of the kubeconfig of the cluster,
/// else with a new kubeconfig if the cluster is in it.
pub open spec fn ended(
    s: SaSubject,
    token: Result<SaToken, String>,
    source: Result<Doc, String>,
    owned: Seq<char>,
    taken: Seq<Seq<char>>,
) -> Result<SaEnd, Seq<char>> {
    match (token, source) {
        (Err(e), _) => Err(e@),
        (Ok(_), Err(e)) => Err(e@),
        (Ok(sa), Ok(source)) => match import::service_account_document(
            source@,
            s.dir@,
            s.context@,
            s.namespace@,
            s.name@,
            sa.token@,
        ) {
            None => Err("the context's cluster isn't in its kubeconfig"@),
            Some(doc) => Ok(
                SaEnd {
                    doc,
                    path: draft_path(s, owned, taken),
                    title: s.name@ + "@"@ + s.context@,
                    note: note_text(
                        s.namespace@,
                        s.name@,
                        sa.expires,
                        text::texts(sa.created@),
                    ),
                },
            ),
        },
    }
}

/// The request ended: the new kubeconfig, or the error that the dialog shows. `token` is what the
/// request gave, `source` the kubeconfig of the cluster; `owned` is the folder of Kubyl-owned
/// kubeconfigs and `taken` what is in it.
pub fn finish(
    subject: &SaSubject,
    token: Result<SaToken, String>,
    source: Result<Doc, String>,
    owned: &str,
    taken: &Vec<String>,
) -> (r: Result<SaDone, String>)
    ensures
        match r {
            Ok(done) => ended(*subject, token, source, owned@, text::texts(taken@)) == Ok::<
                _,
                Seq<char>,
            >(done@),
            Err(e) => ended(*subject, token, source, owned@, text::texts(taken@)) == Err::<
                SaEnd,
                _,
            >(e@),
        },
{
    let sa: SaToken = match token {
        Ok(sa) => sa,
        Err(e) => {
            return Err(e);
        },
    };
    let source: Doc = match source {
        Ok(source) => source,
        Err(e) => {
            return Err(e);
        },
    };
    let name: &str = subject.name.as_str();
    let context: &str = subject.context.as_str();
    match import::service_account_doc(
        &source,
        subject.dir.as_str(),
        context,
        subject.namespace.as_str(),
        name,
        sa.token.as_str(),
    ) {
        None => Err("the context's cluster isn't in its kubeconfig".to_string()),
        Some(doc) => {
            let file: String = files::new_owned_path(taken, cat3(name, "-", context).as_str());
            Ok(
                SaDone {
                    draft: Draft {
                        doc,
                        path: locations::resolve(owned, file.as_str()),
                        title: cat3(name, "@", context),
                    },
                    note: note(subject.namespace.as_str(), name, sa.expires, &sa.created),
                },
            )
        },
    }
}

} // verus!
