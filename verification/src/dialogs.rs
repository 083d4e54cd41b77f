//! What the editor's dialogs ask and say: exec-plugin consent, fetching a CA (trust on first
//! use), the save preview, editing opt-in, rename and delete.

use crate::certs::{self, CertInfo};
use crate::consent;
use crate::credentials;
use crate::document;
use crate::edits;
use crate::editor::{self, KubeconfigEditor};
use crate::exec::{self, ExecSpec};
use crate::fields::{self, get_str, PemSource};
use crate::files::SaveError;
use crate::json::{self, Json};
use crate::model::{Doc, EntryRef, Kind};
use crate::outside;
use crate::paths;
use crate::report::clone_text;
use crate::state::{self, Kubeconfigs};
use crate::text::{self, cat, cat3, cat4, cat5};
use crate::tls::{self, CaOrigin, FetchedCa, Target};
use crate::transfer;
use crate::users::is_secret_env;
use crate::value::Object;
use vstd::prelude::*;

verus! {

/// A question with a yes and a no.
#[derive(Debug)]
pub struct Confirm {
    pub title: String,
    pub action: &'static str,
    pub lines: Vec<String>,
    pub note: Option<String>,
    pub danger: bool,
}

// ----- Rename and delete -----

/// The title above the new name of an entry.
pub fn rename_title(entry: &EntryRef) -> (r: String)
    ensures
        r@ == "Rename "@ + document::body_key(entry.kind) + " "@ + entry.name@,
{
    cat4("Rename ", entry.kind.label(), " ", entry.name.as_str())
}

/// Every text with the same words before it.
pub open spec fn prefixed(prefix: Seq<char>, v: Seq<Seq<char>>) -> Seq<Seq<char>> {
    Seq::new(v.len(), |i: int| prefix + v[i])
}

fn prefix_all(prefix: &str, v: &Vec<String>) -> (r: Vec<String>)
    ensures
        text::texts(r@) == prefixed(prefix@, text::texts(v@)),
{
    let mut out: Vec<String> = Vec::new();
    let ghost wanted = prefixed(prefix@, text::texts(v@));
    let mut i: usize = 0;
    assert(text::texts(out@) =~= wanted.take(0));
    while i < v.len()
        invariant
            i <= v@.len(),
            wanted == prefixed(prefix@, text::texts(v@)),
            text::texts(out@) == wanted.take(i as int),
        decreases v@.len() - i,
    {
        broadcast use text::texts_push;

        out.push(cat(prefix, v[i].as_str()));
        assert(wanted.take(i + 1) =~= wanted.take(i as int).push(wanted[i as int]));
        i += 1;
    }
    assert(wanted.take(i as int) =~= wanted);
    out
}

/// What is said before an entry is deleted: what still uses it.
pub open spec fn delete_note(used: nat, kind: Kind) -> Seq<char> {
    if used == 0 {
        "Nothing is written until you save."@
    } else {
        (if used == 1 {
            "This context"@
        } else {
            "These contexts"@
        }) + " still use this "@ + document::body_key(kind)
            + "; they'll point at a missing entry until you change them."@
    }
}

/// The question before an entry is deleted.
pub fn delete(doc: &Doc, entry: &EntryRef) -> (r: Confirm)
    ensures
        r.title@ == "Delete "@ + document::body_key(entry.kind) + " "@ + entry.name@ + "?"@,
        r.action@ == "Delete"@,
        r.danger,
        text::texts(r.lines@) == prefixed(
            "context "@,
            document::used_by(doc@, entry.kind, entry.name@),
        ),
        text::text_of(r.note) == Some(
            delete_note(document::used_by(doc@, entry.kind, entry.name@).len(), entry.kind),
        ),
{
    let used: Vec<String> = doc.used_by(entry.kind, entry.name.as_str());
    assert(text::texts(used@).len() == used@.len());
    let note: String = if used.len() == 0 {
        "Nothing is written until you save.".to_string()
    } else {
        cat4(
            if used.len() == 1 {
                "This context"
            } else {
                "These contexts"
            },
            " still use this ",
            entry.kind.label(),
            "; they'll point at a missing entry until you change them.",
        )
    };
    Confirm {
        title: cat5("Delete ", entry.kind.label(), " ", entry.name.as_str(), "?"),
        action: "Delete",
        lines: prefix_all("context ", &used),
        note: Some(note),
        danger: true,
    }
}

// ----- Exec plugin consent -----

/// A variable as it is shown: the value of a secret one isn't.
pub open spec fn var_shown(name: Seq<char>, value: Seq<char>) -> Seq<char> {
    if credentials::secret_env(name) {
        name + "=••••"@
    } else {
        name + "="@ + value
    }
}

/// The variables as they are shown.
pub open spec fn vars_shown(env: Seq<(Seq<char>, Seq<char>)>) -> Seq<Seq<char>> {
    Seq::new(env.len(), |i: int| var_shown(env[i].0, env[i].1))
}

/// Texts joined, or a word for nothing.
pub open spec fn or_none(s: Seq<char>) -> Seq<char> {
    if s.len() == 0 {
        "(none)"@
    } else {
        s
    }
}

/// What is asked about a plugin.
#[derive(Debug)]
pub struct ConsentCard {
    /// `for a, b`: the contexts that run it.
    pub contexts: Option<String>,
    pub command: String,
    pub args: String,
    pub env: String,
    pub api_version: String,
    pub interactive: String,
    /// Where the command was found.
    pub resolved: String,
}

/// What is asked about a plugin, as a mathematical value.
pub struct ConsentCardView {
    pub contexts: Option<Seq<char>>,
    pub command: Seq<char>,
    pub args: Seq<char>,
    pub env: Seq<char>,
    pub api_version: Seq<char>,
    pub interactive: Seq<char>,
    pub resolved: Seq<char>,
}

impl View for ConsentCard {
    type V = ConsentCardView;

    open spec fn view(&self) -> ConsentCardView {
        ConsentCardView {
            contexts: text::text_of(self.contexts),
            command: self.command@,
            args: self.args@,
            env: self.env@,
            api_version: self.api_version@,
            interactive: self.interactive@,
            resolved: self.resolved@,
        }
    }
}

/// What is asked about a plugin. `several`: there is more than one question or context.
pub open spec fn consent_card_of(
    contexts: Seq<Seq<char>>,
    p: exec::Plugin,
    found: Option<Seq<char>>,
    several: bool,
) -> ConsentCardView {
    ConsentCardView {
        contexts: if several {
            Some("for "@ + text::joined(contexts, ", "@))
        } else {
            None
        },
        command: p.command,
        args: if p.args.len() == 0 {
            "(none)"@
        } else {
            text::joined(p.args, " "@)
        },
        env: or_none(text::joined(vars_shown(p.env), " "@)),
        api_version: p.api_version,
        interactive: if p.interactive_mode.len() == 0 {
            "(not set)"@
        } else {
            p.interactive_mode
        },
        resolved: match found {
            Some(path) => "Resolved with your login shell PATH: "@ + path,
            None => "`"@ + p.command + "` wasn't found in your login shell's PATH."@,
        },
    }
}

fn vars_text(env: &Vec<(String, String)>) -> (r: Vec<String>)
    ensures
        text::texts(r@) == vars_shown(exec::pair_texts(env@)),
{
    let mut out: Vec<String> = Vec::new();
    let ghost wanted = vars_shown(exec::pair_texts(env@));
    let mut i: usize = 0;
    assert(text::texts(out@) =~= wanted.take(0));
    while i < env.len()
        invariant
            i <= env@.len(),
            wanted == vars_shown(exec::pair_texts(env@)),
            text::texts(out@) == wanted.take(i as int),
        decreases env@.len() - i,
    {
        broadcast use text::texts_push;

        let name: &str = env[i].0.as_str();
        if is_secret_env(name) {
            out.push(cat(name, "=••••"));
        } else {
            out.push(cat3(name, "=", env[i].1.as_str()));
        }
        assert(wanted.take(i + 1) =~= wanted.take(i as int).push(wanted[i as int]));
        i += 1;
    }
    assert(wanted.take(i as int) =~= wanted);
    out
}

/// What is asked about a plugin.
pub fn consent_card(contexts: &Vec<String>, spec: &ExecSpec, found: Option<&str>, several: bool) -> (r:
    ConsentCard)
    ensures
        r@ == consent_card_of(
            text::texts(contexts@),
            spec@,
            match found {
                Some(path) => Some(path@),
                None => None,
            },
            several,
        ),
{
    let env: String = text::join(&vars_text(&spec.env), " ");
    assert(text::texts(spec.args@).len() == spec.args@.len());
    ConsentCard {
        contexts: if several {
            Some(cat("for ", text::join(contexts, ", ").as_str()))
        } else {
            None
        },
        command: spec.command.clone(),
        args: if spec.args.len() == 0 {
            "(none)".to_string()
        } else {
            text::join(&spec.args, " ")
        },
        env: if env.as_str().is_empty() {
            "(none)".to_string()
        } else {
            env
        },
        api_version: spec.api_version.clone(),
        interactive: if spec.interactive_mode.as_str().is_empty() {
            "(not set)".to_string()
        } else {
            spec.interactive_mode.clone()
        },
        resolved: match found {
            Some(path) => cat("Resolved with your login shell PATH: ", path),
            None => cat3("`", spec.command.as_str(), "` wasn't found in your login shell's PATH."),
        },
    }
}

/// The title of the question.
pub open spec fn consent_title_of(asks: Seq<(Seq<Seq<char>>, exec::Plugin)>) -> Seq<char> {
    if asks.len() == 1 && asks[0].0.len() == 1 {
        "Run an exec plugin for "@ + asks[0].0[0] + "?"@
    } else {
        "Run "@ + text::decimal(asks.len()) + " exec plugins?"@
    }
}

/// The title of the question.
pub fn consent_title(asks: &Vec<(Vec<String>, ExecSpec)>) -> (r: String)
    ensures
        r@ == consent_title_of(editor::groups_view(asks@)),
{
    let ghost all = editor::groups_view(asks@);
    assert(all.len() == asks@.len());
    if asks.len() == 1 {
        assert(all[0].0 == text::texts(asks@[0].0@));
        if asks[0].0.len() == 1 {
            assert(text::texts(asks@[0].0@)[0] == asks@[0].0@[0]@);
            return cat3("Run an exec plugin for ", asks[0].0[0].as_str(), "?");
        }
    }
    cat3("Run ", text::decimal_text(asks.len() as u128).as_str(), " exec plugins?")
}

/// Whether any plugin of the questions has this id.
pub open spec fn asked_for(asks: Seq<(Seq<Seq<char>>, exec::Plugin)>, p: exec::Plugin) -> bool {
    exists|i: int|
        0 <= i < asks.len() && consent::id_of((#[trigger] asks[i]).1)
            == consent::id_of(p)
}

/// The user agreed: consent is remembered for every plugin that was asked for.
pub fn agree_to_all(global: &mut Kubeconfigs, asks: &Vec<(Vec<String>, ExecSpec)>)
    ensures
        forall|p: exec::Plugin| #[trigger]
            final(global).agreed_to(p) == (old(global).agreed_to(p) || asked_for(
                editor::groups_view(asks@),
                p,
            )),
        *final(global) == (Kubeconfigs { consents: final(global).consents, ..*old(global) }),
{
    let ghost all = editor::groups_view(asks@);
    let ghost start = *global;
    let mut i: usize = 0;
    while i < asks.len()
        invariant
            i <= asks@.len(),
            all == editor::groups_view(asks@),
            forall|p: exec::Plugin| #[trigger]
                global.agreed_to(p) == (start.agreed_to(p) || asked_for(all.take(i as int), p)),
            *global == (Kubeconfigs { consents: global.consents, ..start }),
        decreases asks@.len() - i,
    {
        let ghost before = *global;
        global.consent(&asks[i].1);
        assert forall|p: exec::Plugin| #[trigger]
            global.agreed_to(p) == (start.agreed_to(p) || asked_for(all.take(i + 1), p)) by {
            assert(before.agreed_to(p) == (start.agreed_to(p) || asked_for(
                all.take(i as int),
                p,
            )));
            let more = all.take(i + 1);
            assert(more[i as int].1 == asks@[i as int].1@);
            if asked_for(all.take(i as int), p) {
                let j = choose|j: int|
                    0 <= j < i && consent::id_of((#[trigger] all.take(i as int)[j]).1)
                        == consent::id_of(p);
                assert(more[j] == all.take(i as int)[j]);
            }
            if asked_for(more, p) && consent::id_of(asks@[i as int].1@)
                != consent::id_of(p) {
                let j = choose|j: int|
                    0 <= j < more.len() && consent::id_of((#[trigger] more[j]).1)
                        == consent::id_of(p);
                assert(all.take(i as int)[j] == more[j]);
            }
        }
        i += 1;
    }
    assert(all.take(i as int) =~= all);
}

/// What the question shows doesn't depend on the values of secret variables.
pub proof fn secret_values_are_not_shown(
    a: Seq<(Seq<char>, Seq<char>)>,
    b: Seq<(Seq<char>, Seq<char>)>,
)
    requires
        a.len() == b.len(),
        forall|i: int| 0 <= i < a.len() ==> (#[trigger] a[i]).0 == b[i].0,
        forall|i: int|
            0 <= i < a.len() && !credentials::secret_env(a[i].0) ==> (#[trigger] a[i]).1 == b[i].1,
    ensures
        vars_shown(a) == vars_shown(b),
{
    assert(vars_shown(a) =~= vars_shown(b));
}

// ----- Fetching a CA (trust on first use) -----

/// A CA fetch in progress or done.
#[derive(Debug)]
pub enum CaState {
    Fetching,
    Done(FetchedCa),
    Failed(String),
}

/// Where a cluster's CA is fetched from: its server URL, under its TLS server name.
pub fn ca_target(doc: &Doc, cluster: &str) -> (r: (String, Result<Target, String>))
    ensures
        ({
            let body = match document::body(doc@, Kind::Cluster, cluster@) {
                Some(b) => b,
                None => Seq::empty(),
            };
            let server = paths::text(body, seq!["server"@]);
            let target = tls::target_of(server, Some(paths::text(body, seq!["tls-server-name"@])));
            &&& r.0@ == server
            &&& match r.1 {
                Ok(t) => target == Ok::<_, Seq<char>>(t@),
                Err(e) => target == Err::<tls::Endpoint, _>(e@),
            }
        }),
{
    let none: Object = Object::new();
    let body: &Object = match doc.body(Kind::Cluster, cluster) {
        Some(b) => b,
        None => &none,
    };
    assert(text::slices(["server"]@) =~= seq!["server"@]);
    assert(text::slices(["tls-server-name"]@) =~= seq!["tls-server-name"@]);
    let server: String = get_str(body, &["server"]);
    let name: String = get_str(body, &["tls-server-name"]);
    let target: Result<Target, String> = Target::parse(server.as_str(), Some(name.as_str()));
    (server, target)
}

/// What is shown of a CA fetch.
#[derive(Debug)]
pub enum CaResult {
    /// Still at it.
    Progress(String),
    Error(String),
    /// Nothing that verifies the server was found.
    Warning(String),
    Candidate(CaCard),
}

/// The fetched CA with its fingerprint.
#[derive(Debug)]
pub struct CaCard {
    pub subject: String,
    pub issuer: String,
    pub valid: String,
    pub source: &'static str,
    /// The fingerprint in two lines.
    pub sha256: (String, String),
    pub public_key: String,
}

/// A fingerprint's two lines.
pub open spec fn halves(s: Seq<char>) -> (Seq<char>, Seq<char>) {
    let at = (s.len() / 2 + 1) as int;
    (text::without_trailing(s.take(at), ':'), s.skip(at))
}

fn drop_trailing(s: &str, c: char) -> (r: String)
    ensures
        r@ == text::without_trailing(s@, c),
{
    let cs: Vec<char> = text::chars(s);
    let mut to: usize = cs.len();
    assert(s@.take(to as int) =~= s@);
    while to > 0 && cs[to - 1] == c
        invariant
            to <= cs@.len(),
            cs@ == s@,
            text::without_trailing(s@, c) == text::without_trailing(s@.take(to as int), c),
        decreases to,
    {
        assert(s@.take(to as int).drop_last() =~= s@.take(to - 1));
        to -= 1;
    }
    let start: String = text::text_between(&cs, 0, to);
    assert(start@ =~= s@.take(to as int));
    start
}

/// A fingerprint's two lines.
pub fn split_fingerprint(s: &str) -> (r: (String, String))
    requires
        s@.len() > 0,
    ensures
        (r.0@, r.1@) == halves(s@),
{
    let cs: Vec<char> = text::chars(s);
    let at: usize = cs.len() / 2 + 1;
    let first: String = text::text_between(&cs, 0, at);
    let second: String = text::text_between(&cs, at, cs.len());
    assert(first@ =~= s@.take(at as int));
    assert(second@ =~= s@.skip(at as int));
    (drop_trailing(first.as_str(), ':'), second)
}

/// What is shown of a fetched CA, as a mathematical value.
pub struct CaCardView {
    pub subject: Seq<char>,
    pub issuer: Seq<char>,
    pub valid: Seq<char>,
    pub source: Seq<char>,
    pub sha256: (Seq<char>, Seq<char>),
    pub public_key: Seq<char>,
}

impl View for CaCard {
    type V = CaCardView;

    open spec fn view(&self) -> CaCardView {
        CaCardView {
            subject: self.subject@,
            issuer: self.issuer@,
            valid: self.valid@,
            source: self.source@,
            sha256: (self.sha256.0@, self.sha256.1@),
            public_key: self.public_key@,
        }
    }
}

/// What is shown of a fetched CA. `from` and `to` are the days between which it is valid.
pub open spec fn ca_card_of(cert: certs::Cert, origin: CaOrigin, from: Seq<char>, to: Seq<char>) -> CaCardView {
    CaCardView {
        subject: cert.subject,
        issuer: if cert.self_signed {
            cert.issuer + " (self-signed)"@
        } else {
            cert.issuer
        },
        valid: from + " → "@ + to,
        source: match origin {
            CaOrigin::ClusterInfo => "kube-public/cluster-info (anonymous)"@,
            CaOrigin::ServedChain => "the server's certificate chain"@,
        },
        sha256: halves(certs::colon_hex_text(cert.sha256)),
        public_key: "sha256:"@ + text::hex(cert.spki_sha256),
    }
}

/// What is shown of a fetched CA, given the days between which it is valid.
pub fn ca_card_on(cert: &CertInfo, origin: CaOrigin, from: &str, to: &str) -> (r: CaCard)
    requires
        cert.sha256@.len() > 0,
    ensures
        r@ == ca_card_of(cert@, origin, from@, to@),
{
    let fingerprint: String = cert.fingerprint();
    proof {
        certs::lemma_colon_hex_len(cert.sha256@);
    }
    CaCard {
        subject: cert.subject.clone(),
        issuer: if cert.self_signed {
            cat(cert.issuer.as_str(), " (self-signed)")
        } else {
            cert.issuer.clone()
        },
        valid: cat3(from, " → ", to),
        source: origin.label(),
        sha256: split_fingerprint(fingerprint.as_str()),
        public_key: cert.spki_hash(),
    }
}

/// What is shown of a fetched CA.
pub fn ca_card(cert: &CertInfo, origin: CaOrigin) -> (r: CaCard)
    requires
        cert.sha256@.len() > 0,
    ensures
        r@ == ca_card_of(
            cert@,
            origin,
            outside::date_at(cert.not_before),
            outside::date_at(cert.not_after),
        ),
{
    let from: String = outside::date_text(cert.not_before);
    let to: String = outside::date_text(cert.not_after);
    ca_card_on(cert, origin, from.as_str(), to.as_str())
}

/// What is said where the server publishes no CA.
pub open spec fn no_ca_text(why: Option<Seq<char>>) -> Seq<char> {
    "The server doesn't publish a CA that verifies its certificate"@ + (match why {
        Some(e) => " ("@ + e + ")"@,
        None => seq![],
    }) + ". Get the CA from your admin or the cloud CLI, and paste it or pick its file."@
}

/// What is shown of a CA fetch.
pub fn ca_result(state: &CaState, server: &str) -> (r: CaResult)
    requires
        match *state {
            CaState::Done(f) => f.candidates@.len() > 0 ==> f.candidates@[0].cert.sha256@.len()
                > 0,
            _ => true,
        },
    ensures
        match *state {
            CaState::Fetching => r is Progress && r->Progress_0@
                == "Fetching the certificate of "@ + server@ + "…"@,
            CaState::Failed(e) => r is Error && r->Error_0@ == "Couldn't fetch the CA: "@ + e@,
            CaState::Done(f) => if f.candidates@.len() == 0 {
                r is Warning && r->Warning_0@ == no_ca_text(text::text_of(f.cluster_info_error))
            } else {
                r is Candidate && r->Candidate_0@ == ca_card_of(
                    f.candidates@[0].cert@,
                    f.candidates@[0].origin,
                    outside::date_at(f.candidates@[0].cert.not_before),
                    outside::date_at(f.candidates@[0].cert.not_after),
                )
            },
        },
{
    match state {
        CaState::Fetching => CaResult::Progress(cat3("Fetching the certificate of ", server, "…")),
        CaState::Failed(e) => CaResult::Error(cat("Couldn't fetch the CA: ", e.as_str())),
        CaState::Done(f) => if f.candidates.len() == 0 {
            let why: String = match &f.cluster_info_error {
                Some(e) => cat3(" (", e.as_str(), ")"),
                None => String::new(),
            };
            assert(f.cluster_info_error is None ==> why@ =~= seq![]);
            CaResult::Warning(
                cat3(
                    "The server doesn't publish a CA that verifies its certificate",
                    why.as_str(),
                    ". Get the CA from your admin or the cloud CLI, and paste it or pick its file.",
                ),
            )
        } else {
            CaResult::Candidate(ca_card(&f.candidates[0].cert, f.candidates[0].origin))
        },
    }
}

/// Whether "Use this CA" can be pressed: there is a CA, and the user compared its fingerprint.
pub fn can_use_ca(state: &CaState, confirmed: bool) -> (r: bool)
    ensures
        r == (confirmed && match *state {
            CaState::Done(f) => f.candidates@.len() > 0,
            _ => false,
        }),
{
    match state {
        CaState::Done(f) => confirmed && f.candidates.len() > 0,
        _ => false,
    }
}

/// Trusts `pem` as a cluster's CA (after the user confirmed its fingerprint). Skipping TLS
/// verification can't be combined with a CA, so that goes. Gives what is said of it.
pub fn set_ca(doc: &mut Doc, cluster: &str, pem: &str) -> (r: String)
    ensures
        final(doc)@ == edits::with_new_body(
            old(doc)@,
            Kind::Cluster,
            cluster@,
            json::without(
                paths::set(
                    json::without(
                        edits::body_or_nothing(old(doc)@, Kind::Cluster, cluster@),
                        fields::CA_FILE@,
                    ),
                    seq![fields::CA_DATA@],
                    paths::text_value(
                        outside::base64_encoded(
                            vstd::utf8::encode_utf8(text::trimmed(pem@) + "\n"@),
                        ),
                    ),
                ),
                "insecure-skip-tls-verify"@,
            ),
        ),
        r@ == "CA set for "@ + cluster@ + ". Test the connection to check it."@,
{
    let data: String = certs::data_from_pem(pem);
    if let Some(body) = doc.body_mut(Kind::Cluster, cluster) {
        PemSource::Data(data).write(body, fields::CA_FILE, fields::CA_DATA);
        body.remove("insecure-skip-tls-verify");
    }
    cat3("CA set for ", cluster, ". Test the connection to check it.")
}

// ----- Save preview -----

/// The plugins of the first users that a saved document doesn't have (by user and config).
pub open spec fn new_plugins(d: Json, base: Option<Json>, users: Seq<Seq<char>>) -> Seq<
    (Seq<char>, exec::Plugin),
>
    decreases users.len(),
{
    if users.len() == 0 {
        seq![]
    } else {
        let before = new_plugins(d, base, users.drop_last());
        let user = users.last();
        match state::plugin_of_user(d, user) {
            Some(p) => {
                let old = match base {
                    Some(b) => state::plugin_of_user(b, user),
                    None => None,
                };
                if old == Some(p) {
                    before
                } else {
                    before.push((user, p))
                }
            },
            None => before,
        }
    }
}

pub open spec fn plugins_view(v: Seq<(String, ExecSpec)>) -> Seq<(Seq<char>, exec::Plugin)> {
    Seq::new(v.len(), |i: int| (v[i].0@, v[i].1@))
}

/// Exec plugins of `doc` that `base` doesn't have (by user and config).
pub fn changed_exec(doc: &Doc, base: Option<&Doc>) -> (r: Vec<(String, ExecSpec)>)
    ensures
        plugins_view(r@) == new_plugins(
            doc@,
            match base {
                Some(b) => Some(b@),
                None => None,
            },
            document::names(doc@, Kind::User),
        ),
{
    let users: Vec<String> = doc.names(Kind::User);
    let ghost all = text::texts(users@);
    let ghost saved = match base {
        Some(b) => Some(b@),
        None => None,
    };
    let mut out: Vec<(String, ExecSpec)> = Vec::new();
    let mut i: usize = 0;
    assert(all.take(0) =~= seq![]);
    assert(plugins_view(out@) =~= seq![]);
    while i < users.len()
        invariant
            i <= users@.len(),
            all == text::texts(users@),
            saved == match base {
                Some(b) => Some(b@),
                None => None,
            },
            plugins_view(out@) == new_plugins(doc@, saved, all.take(i as int)),
        decreases users@.len() - i,
    {
        let ghost before = out@;
        assert(all.take(i + 1).drop_last() =~= all.take(i as int));
        let user: &str = users[i].as_str();
        assert(all.take(i + 1).last() == user@);
        if let Some(spec) = state::user_plugin(doc, user) {
            let old: Option<ExecSpec> = match base {
                Some(b) => state::user_plugin(b, user),
                None => None,
            };
            let same: bool = match &old {
                Some(o) => state::same_plugin(o, &spec),
                None => false,
            };
            if !same {
                let ghost pair = (user@, spec@);
                out.push((user.to_string(), spec));
                assert(plugins_view(out@) =~= plugins_view(before).push(pair));
            }
        }
        i += 1;
    }
    assert(all.take(i as int) =~= all);
    out
}

/// What the save preview is about.
#[derive(Debug)]
pub struct SavePreview {
    pub draft: bool,
    pub owned: bool,
    pub editable: bool,
    pub allow_opt_in: bool,
    /// Changed lines.
    pub changes: usize,
    /// Lines of the text to write.
    pub lines: usize,
    /// Comments in it.
    pub comments: usize,
    /// The file is changed in place: comments and key order stay.
    pub in_place: bool,
    pub lost_comments: Vec<String>,
    /// The hash the file had when it was loaded.
    pub expected: Option<String>,
    pub private: bool,
    /// Exec plugins that are new or changed by this save.
    pub new_exec: Vec<(String, ExecSpec)>,
    pub error: Option<String>,
    pub saving: bool,
}

/// A number of changes, in words.
pub open spec fn changes_text(n: nat) -> Seq<char> {
    if n == 1 {
        "1 change"@
    } else {
        text::decimal(n) + " changes"@
    }
}

fn changes_words(n: usize) -> (r: String)
    ensures
        r@ == changes_text(n as nat),
{
    if n == 1 {
        "1 change".to_string()
    } else {
        cat(text::decimal_text(n as u128).as_str(), " changes")
    }
}

/// What a save does, in a line.
pub open spec fn save_summary(s: SavePreview) -> Seq<char> {
    if s.draft {
        "new file · "@ + text::decimal(s.lines as nat) + " lines"@
    } else if s.in_place {
        changes_text(s.changes as nat) + " · comments and key order kept · "@ + text::decimal(
            s.comments as nat,
        ) + " comments"@
    } else {
        changes_text(s.changes as nat) + " · the file is written from scratch"@
    }
}

/// Comments in quotes.
pub open spec fn quoted_comments(v: Seq<Seq<char>>) -> Seq<Seq<char>> {
    Seq::new(v.len(), |i: int| "\"# "@ + v[i] + "\""@)
}

/// What is said of comments that get lost; nothing if none do.
pub open spec fn lost_text(lost: Seq<Seq<char>>) -> Option<Seq<char>> {
    if lost.len() == 0 {
        None
    } else {
        Some(
            text::decimal(lost.len()) + " comment"@ + (if lost.len() == 1 {
                ""@
            } else {
                "s"@
            }) + " won't be in the saved file: "@ + text::joined(quoted_comments(lost), ", "@),
        )
    }
}

/// A plugin that a file will run.
pub open spec fn runs_text(user: Seq<char>, p: exec::Plugin) -> Seq<char> {
    "`"@ + p.command + " "@ + text::joined(p.args, " "@) + "` (user "@ + user + ")"@
}

/// The plugins that a file will run.
pub open spec fn runs_texts(v: Seq<(Seq<char>, exec::Plugin)>) -> Seq<Seq<char>> {
    Seq::new(v.len(), |i: int| runs_text(v[i].0, v[i].1))
}

/// What is said of plugins that are new in a file; nothing if none are.
pub open spec fn exec_notice(v: Seq<(Seq<char>, exec::Plugin)>) -> Option<Seq<char>> {
    if v.len() == 0 {
        None
    } else {
        Some(
            "This file will run "@ + text::joined(runs_texts(v), ", "@)
                + ": Kubyl and kubectl run it whenever you connect."@,
        )
    }
}

/// What the save preview shows.
#[derive(Debug)]
pub struct SaveDialog {
    pub summary: String,
    /// The summary's mark is green (else yellow).
    pub safe: bool,
    pub chip: &'static str,
    pub lost: Option<String>,
    pub plugins: Option<String>,
    pub notice: Option<&'static str>,
    pub backup: String,
    pub write: &'static str,
    pub checked: String,
    /// "Save as a Kubyl copy…".
    pub can_copy: bool,
    /// The label of the button that saves, if there is one.
    pub save: Option<&'static str>,
    pub can_save: bool,
    /// Saving turns editing on for the file.
    pub opts_in: bool,
}

/// The label of a button, if there is one.
pub open spec fn label_of(s: Option<&'static str>) -> Option<Seq<char>> {
    match s {
        Some(s) => Some(s@),
        None => None,
    }
}

/// Whether a text can be the hash of a file: at least eight ASCII characters.
pub open spec fn hash_like(s: Seq<char>) -> bool {
    s.len() >= 8 && forall|i: int| 0 <= i < s.len() ==> (#[trigger] s[i] as u32) < 128
}

fn quote_comments(v: &Vec<String>) -> (r: Vec<String>)
    ensures
        text::texts(r@) == quoted_comments(text::texts(v@)),
{
    let mut out: Vec<String> = Vec::new();
    let ghost wanted = quoted_comments(text::texts(v@));
    let mut i: usize = 0;
    assert(text::texts(out@) =~= wanted.take(0));
    while i < v.len()
        invariant
            i <= v@.len(),
            wanted == quoted_comments(text::texts(v@)),
            text::texts(out@) == wanted.take(i as int),
        decreases v@.len() - i,
    {
        broadcast use text::texts_push;

        out.push(cat3("\"# ", v[i].as_str(), "\""));
        assert(wanted.take(i + 1) =~= wanted.take(i as int).push(wanted[i as int]));
        i += 1;
    }
    assert(wanted.take(i as int) =~= wanted);
    out
}

fn runs_words(v: &Vec<(String, ExecSpec)>) -> (r: Vec<String>)
    ensures
        text::texts(r@) == runs_texts(plugins_view(v@)),
{
    let mut out: Vec<String> = Vec::new();
    let ghost wanted = runs_texts(plugins_view(v@));
    let mut i: usize = 0;
    assert(text::texts(out@) =~= wanted.take(0));
    while i < v.len()
        invariant
            i <= v@.len(),
            wanted == runs_texts(plugins_view(v@)),
            text::texts(out@) == wanted.take(i as int),
        decreases v@.len() - i,
    {
        broadcast use text::texts_push;

        let spec: &ExecSpec = &v[i].1;
        let args: String = text::join(&spec.args, " ");
        let line: String = cat5("`", spec.command.as_str(), " ", args.as_str(), "` (user ");
        out.push(cat3(line.as_str(), v[i].0.as_str(), ")"));
        assert(plugins_view(v@)[i as int] == (v@[i as int].0@, spec@));
        assert(wanted[i as int] == runs_text(v@[i as int].0@, spec@));
        assert(wanted.take(i + 1) =~= wanted.take(i as int).push(wanted[i as int]));
        i += 1;
    }
    assert(wanted.take(i as int) =~= wanted);
    out
}

/// What the save preview shows. `backups` is the folder of the backups as it is shown, with the
/// separator behind it; `prefix` is how this file's backups begin.
pub fn save_dialog(s: &SavePreview, backups: &str, prefix: &str) -> (r: SaveDialog)
    requires
        !s.draft && s.expected is Some ==> hash_like(s.expected->0@),
    ensures
        r.summary@ == save_summary(*s),
        r.safe == (s.in_place || s.draft),
        r.chip@ == if s.draft {
            "new file"@
        } else if s.owned {
            "Kubyl-owned"@
        } else {
            "external file"@
        },
        text::text_of(r.lost) == lost_text(text::texts(s.lost_comments@)),
        text::text_of(r.plugins) == exec_notice(plugins_view(s.new_exec@)),
        label_of(r.notice) == if s.editable {
            None
        } else if s.allow_opt_in {
            Some(
                "Kubyl doesn't edit this file unless you allow it. Allow editing (with this preview, a backup and an atomic write on every save), or save a Kubyl copy that replaces it as a source."@,
            )
        } else {
            Some(
                "Editing files Kubyl doesn't own is turned off (kubeconfig_editor.allow_external_edits). Save a Kubyl copy instead."@,
            )
        },
        r.backup@ == if s.draft {
            "none (new file)"@
        } else {
            backups@ + prefix@ + "<timestamp>.yaml (0600)"@
        },
        r.write@ == if s.private {
            "atomic (temp file + rename) · mode 0600"@
        } else {
            "atomic (temp file + rename) · mode kept"@
        },
        r.checked@ == match s.expected {
            Some(hash) if !s.draft => "unchanged on disk since you opened it (sha256 "@
                + hash@.take(8) + "…)"@,
            _ => "the file doesn't exist yet"@,
        },
        r.can_copy == (!s.owned && !s.draft),
        label_of(r.save) == if s.editable || s.allow_opt_in {
            Some(
                if s.saving {
                    "Saving…"@
                } else if !s.editable {
                    "Allow editing and save"@
                } else {
                    "Save"@
                },
            )
        } else {
            None
        },
        r.can_save == ((s.editable || s.allow_opt_in) && !s.saving),
        r.opts_in == !s.editable,
{
    let summary: String = if s.draft {
        cat3("new file · ", text::decimal_text(s.lines as u128).as_str(), " lines")
    } else if s.in_place {
        cat4(
            changes_words(s.changes).as_str(),
            " · comments and key order kept · ",
            text::decimal_text(s.comments as u128).as_str(),
            " comments",
        )
    } else {
        cat(changes_words(s.changes).as_str(), " · the file is written from scratch")
    };
    assert(text::texts(s.lost_comments@).len() == s.lost_comments@.len());
    assert(plugins_view(s.new_exec@).len() == s.new_exec@.len());
    let lost: Option<String> = if s.lost_comments.len() == 0 {
        None
    } else {
        let quoted: String = text::join(&quote_comments(&s.lost_comments), ", ");
        Some(
            cat5(
                text::decimal_text(s.lost_comments.len() as u128).as_str(),
                " comment",
                if s.lost_comments.len() == 1 {
                    ""
                } else {
                    "s"
                },
                " won't be in the saved file: ",
                quoted.as_str(),
            ),
        )
    };
    let plugins: Option<String> = if s.new_exec.len() == 0 {
        None
    } else {
        let runs: String = text::join(&runs_words(&s.new_exec), ", ");
        Some(
            cat3(
                "This file will run ",
                runs.as_str(),
                ": Kubyl and kubectl run it whenever you connect.",
            ),
        )
    };
    let checked: String = match &s.expected {
        Some(hash) if !s.draft => {
            let cs: Vec<char> = text::chars(hash.as_str());
            let start: String = text::text_between(&cs, 0, 8);
            assert(start@ =~= hash@.take(8));
            cat3("unchanged on disk since you opened it (sha256 ", start.as_str(), "…)")
        },
        _ => "the file doesn't exist yet".to_string(),
    };
    SaveDialog {
        summary,
        safe: s.in_place || s.draft,
        chip: if s.draft {
            "new file"
        } else if s.owned {
            "Kubyl-owned"
        } else {
            "external file"
        },
        lost,
        plugins,
        notice: if s.editable {
            None
        } else if s.allow_opt_in {
            Some(
                "Kubyl doesn't edit this file unless you allow it. Allow editing (with this preview, a backup and an atomic write on every save), or save a Kubyl copy that replaces it as a source.",
            )
        } else {
            Some(
                "Editing files Kubyl doesn't own is turned off (kubeconfig_editor.allow_external_edits). Save a Kubyl copy instead.",
            )
        },
        backup: if s.draft {
            "none (new file)".to_string()
        } else {
            cat3(backups, prefix, "<timestamp>.yaml (0600)")
        },
        write: if s.private {
            "atomic (temp file + rename) · mode 0600"
        } else {
            "atomic (temp file + rename) · mode kept"
        },
        checked,
        can_copy: !s.owned && !s.draft,
        save: if s.editable || s.allow_opt_in {
            Some(
                if s.saving {
                    "Saving…"
                } else if !s.editable {
                    "Allow editing and save"
                } else {
                    "Save"
                },
            )
        } else {
            None
        },
        can_save: (s.editable || s.allow_opt_in) && !s.saving,
        opts_in: !s.editable,
    }
}

/// What the save preview is about. `in_place`, `changes`, `lines`, `comments` and
/// `lost_comments` are those of the text to write.
pub fn save_preview(
    editor: &KubeconfigEditor,
    opted_in: bool,
    allow_opt_in: bool,
    in_place: bool,
    changes: usize,
    lines: usize,
    comments: usize,
    lost_comments: Vec<String>,
) -> (r: SavePreview)
    ensures
        r.draft == (editor.draft is Some),
        r.owned == editor.owned(),
        r.editable == (editor.owned() || opted_in),
        r.allow_opt_in == allow_opt_in,
        r.in_place == in_place && r.changes == changes && r.lines == lines && r.comments
            == comments && r.lost_comments == lost_comments,
        text::text_of(r.expected) == editor::hash_of(editor.snapshot),
        r.private == (editor.draft is Some || transfer::holds_secrets(editor.doc@)),
        plugins_view(r.new_exec@) == new_plugins(
            editor.doc@,
            if editor.draft is Some {
                None
            } else {
                Some(editor.base@)
            },
            document::names(editor.doc@, Kind::User),
        ),
        r.error is None,
        !r.saving,
{
    SavePreview {
        draft: editor.is_draft(),
        owned: editor.is_owned(),
        editable: editor.is_editable(opted_in),
        allow_opt_in,
        changes,
        lines,
        comments,
        in_place,
        lost_comments,
        expected: match &editor.snapshot {
            Some(s) => clone_text(&s.hash),
            None => None,
        },
        private: editor.is_draft() || editor.doc.has_inline_credentials(),
        new_exec: changed_exec(
            &editor.doc,
            if editor.is_draft() {
                None
            } else {
                Some(&editor.base)
            },
        ),
        error: None,
        saving: false,
    }
}

impl SavePreview {
    /// "Save" was pressed.
    pub fn start(&mut self, opt_in: bool)
        ensures
            *final(self) == (SavePreview {
                editable: old(self).editable || opt_in,
                saving: true,
                error: None,
                ..*old(self)
            }),
    {
        if opt_in {
            self.editable = true;
        }
        self.saving = true;
        self.error = None;
    }

    /// The save ended. True if the dialog closes; else it shows the error.
    pub fn finish(&mut self, error: Option<&SaveError>) -> (r: bool)
        ensures
            r == (error is None),
            text::text_of(final(self).error) == match error {
                None => text::text_of(old(self).error),
                Some(e) => Some(
                    match *e {
                        SaveError::Changed { current: _ } => "The file changed on disk since you opened it (another tool wrote it). Kubyl didn't overwrite it: close this and use Reload or Keep mine."@,
                        SaveError::Exists => "Couldn't save: a file with that name already exists"@,
                        SaveError::Io(m) => "Couldn't save: "@ + m@,
                    },
                ),
            },
            *final(self) == (SavePreview {
                saving: false,
                error: final(self).error,
                ..*old(self)
            }),
    {
        self.saving = false;
        match error {
            None => true,
            Some(e) => {
                let shown: String = match e {
                    SaveError::Changed { current: _ } => "The file changed on disk since you opened it (another tool wrote it). Kubyl didn't overwrite it: close this and use Reload or Keep mine.".to_string(),
                    SaveError::Exists => "Couldn't save: a file with that name already exists".to_string(),
                    SaveError::Io(m) => cat("Couldn't save: ", m.as_str()),
                };
                self.error = Some(shown);
                false
            },
        }
    }
}

// ----- Opting in -----

/// The question before editing is turned on for a file. Both paths are as they are shown.
pub fn opt_in(path: &str, backups: &str) -> (r: Confirm)
    ensures
        r.title@ == "Edit "@ + path@ + "?"@,
        r.action@ == "Edit this file"@,
        !r.danger,
        text::texts(r.lines@) == seq![
            "Every save shows the changes first."@,
            "The old file is kept in "@ + backups@ + " (0600)."@,
            "Files are replaced atomically; comments and key order stay."@,
            "Kubyl refuses to overwrite changes other tools made meanwhile."@,
        ],
        text::text_of(r.note) == Some(
            "You can turn this off again from the editor's menu or in settings.json (kubeconfig_editor.editable_files)."@,
        ),
{
    let lines: Vec<String> = vec![
        "Every save shows the changes first.".to_string(),
        cat3("The old file is kept in ", backups, " (0600)."),
        "Files are replaced atomically; comments and key order stay.".to_string(),
        "Kubyl refuses to overwrite changes other tools made meanwhile.".to_string(),
    ];
    assert(text::texts(lines@) =~= seq![
        "Every save shows the changes first."@,
        "The old file is kept in "@ + backups@ + " (0600)."@,
        "Files are replaced atomically; comments and key order stay."@,
        "Kubyl refuses to overwrite changes other tools made meanwhile."@,
    ]);
    Confirm {
        title: cat3("Edit ", path, "?"),
        action: "Edit this file",
        lines,
        note: Some(
            "You can turn this off again from the editor's menu or in settings.json (kubeconfig_editor.editable_files).".to_string(),
        ),
        danger: false,
    }
}

} // verus!
