//! What the form shows of an entry, and what its pickers and switches do.

use crate::certs::{self, CertInfo, Moment};
use crate::clusters_view::{ContextSwitches, SafetySwitch};
use crate::conntest;
use crate::credentials;
use crate::document;
use crate::edits;
use crate::editor::KubeconfigEditor;
use crate::editor_view::Tone;
use crate::exec::{self, ExecPreset};
use crate::fields::{self, get_bool, get_str, PemSource};
use crate::forms::PemMode;
use crate::issues::{self, Issue};
use crate::json::{self, Fields, Json};
use crate::model::{Doc, EntryRef, Kind};
use crate::outside;
use crate::panel::{self, capitalize};
use crate::paths;
use crate::report::{self, Report};
use crate::text::{self, cat, cat3, same};
use crate::users::{self, set_auth_kind, AuthKind};
use crate::validate::{self, load_pem, Facts, Problem, Severity};
use crate::value::{Object, Value};
use vstd::prelude::*;

verus! {

// ----- The header -----

/// The header of an entry's form.
#[derive(Debug)]
pub struct EntryHeader {
    pub kind: &'static str,
    /// It's the file's current context.
    pub current: bool,
    /// "Export…", "Copy to another kubeconfig…" and "Move to another kubeconfig…".
    pub has_menu: bool,
}

/// The header of an entry's form.
pub fn entry_header(doc: &Doc, entry: &EntryRef) -> (r: EntryHeader)
    ensures
        r.kind@ == match entry.kind {
            Kind::Context => "Context"@,
            Kind::Cluster => "Cluster"@,
            Kind::User => "User"@,
        },
        r.current == (entry.kind == Kind::Context && document::current_context(doc@) == Some(
            entry.name@,
        )),
        r.has_menu == (entry.kind == Kind::Context),
{
    EntryHeader {
        kind: match entry.kind {
            Kind::Context => "Context",
            Kind::Cluster => "Cluster",
            Kind::User => "User",
        },
        current: entry.kind == Kind::Context && is_current(doc, entry.name.as_str()),
        has_menu: entry.kind == Kind::Context,
    }
}

fn is_current(doc: &Doc, name: &str) -> (r: bool)
    ensures
        r == (document::current_context(doc@) == Some(name@)),
{
    match doc.current_context() {
        Some(current) => same(current, name),
        None => false,
    }
}

// ----- Contexts -----

/// The card of a context.
#[derive(Debug)]
pub struct ContextCard {
    pub cluster: String,
    pub user: String,
    pub clusters: Vec<String>,
    pub users: Vec<String>,
    /// "Edit cluster".
    pub can_edit_cluster: bool,
    /// "Edit user".
    pub can_edit_user: bool,
    /// From the last test.
    pub namespaces: Vec<String>,
    pub namespace_hint: String,
    pub current: bool,
}

/// What a picker shows: what is chosen, or what to choose.
pub open spec fn picked(value: Seq<char>, kind: Kind) -> Seq<char> {
    if value.len() == 0 {
        "choose a "@ + document::body_key(kind)
    } else {
        value
    }
}

/// What is said of the namespaces to pick from.
pub open spec fn namespace_note(count: nat) -> Seq<char> {
    if count == 0 {
        "Test the connection to pick from the cluster's namespaces."@
    } else {
        text::decimal(count) + " namespaces from the last test"@
    }
}

fn pick_label(value: String, kind: Kind) -> (r: String)
    ensures
        r@ == picked(value@, kind),
{
    if value.as_str().is_empty() {
        cat("choose a ", kind.label())
    } else {
        value
    }
}

/// The card of a context. `namespaces` are those of its last test.
pub fn context_card(doc: &Doc, entry: &EntryRef, body: &Object, namespaces: &Vec<String>) -> (r:
    ContextCard)
    ensures
        ({
            let cluster = paths::text(body@, seq!["cluster"@]);
            let user = paths::text(body@, seq!["user"@]);
            &&& r.cluster@ == picked(cluster, Kind::Cluster)
            &&& r.user@ == picked(user, Kind::User)
            &&& text::texts(r.clusters@) == document::names(doc@, Kind::Cluster)
            &&& text::texts(r.users@) == document::names(doc@, Kind::User)
            &&& r.can_edit_cluster == (cluster.len() > 0 && document::contains(
                doc@,
                Kind::Cluster,
                cluster,
            ))
            &&& r.can_edit_user == (user.len() > 0 && document::contains(doc@, Kind::User, user))
        }),
        text::texts(r.namespaces@) == text::texts(namespaces@),
        r.namespace_hint@ == namespace_note(namespaces@.len()),
        r.current == (document::current_context(doc@) == Some(entry.name@)),
{
    let cluster: String = get_str(body, &["cluster"]);
    let user: String = get_str(body, &["user"]);
    assert(text::slices(["cluster"]@) =~= seq!["cluster"@]);
    assert(text::slices(["user"]@) =~= seq!["user"@]);
    let can_edit_cluster: bool = !cluster.as_str().is_empty() && doc.contains(
        Kind::Cluster,
        cluster.as_str(),
    );
    let can_edit_user: bool = !user.as_str().is_empty() && doc.contains(Kind::User, user.as_str());
    ContextCard {
        cluster: pick_label(cluster, Kind::Cluster),
        user: pick_label(user, Kind::User),
        clusters: doc.names(Kind::Cluster),
        users: doc.names(Kind::User),
        can_edit_cluster,
        can_edit_user,
        namespaces: text::clone_texts(namespaces),
        namespace_hint: if namespaces.len() == 0 {
            "Test the connection to pick from the cluster's namespaces.".to_string()
        } else {
            cat(
                text::decimal_text(namespaces.len() as u128).as_str(),
                " namespaces from the last test",
            )
        },
        current: is_current(doc, entry.name.as_str()),
    }
}

/// The context's cluster was picked.
pub fn pick_cluster(doc: &mut Doc, context: &str, cluster: &str)
    ensures
        final(doc)@ == edits::with_text(
            old(doc)@,
            Kind::Context,
            context@,
            seq!["cluster"@],
            cluster@,
        ),
{
    doc.set_text(Kind::Context, context, &["cluster"], cluster);
    assert(text::slices(["cluster"]@) =~= seq!["cluster"@]);
}

/// The context's user was picked; none for "No user (anonymous)".
pub fn pick_user(doc: &mut Doc, context: &str, user: Option<&str>)
    ensures
        final(doc)@ == edits::with_text(
            old(doc)@,
            Kind::Context,
            context@,
            seq!["user"@],
            match user {
                Some(u) => u@,
                None => ""@,
            },
        ),
{
    let user: &str = match user {
        Some(u) => u,
        None => "",
    };
    doc.set_text(Kind::Context, context, &["user"], user);
    assert(text::slices(["user"]@) =~= seq!["user"@]);
}

/// "Current context" was switched.
pub fn toggle_current(doc: &mut Doc, context: &str)
    ensures
        final(doc)@ == document::with_current_context(
            old(doc)@,
            if document::current_context(old(doc)@) == Some(context@) {
                None
            } else {
                Some(context@)
            },
        ),
{
    if is_current(doc, context) {
        doc.set_current_context(None);
    } else {
        doc.set_current_context(Some(context));
    }
}

// ----- Certificates -----

/// Subject, issuer, validity and fingerprint of a certificate.
#[derive(Debug)]
pub struct CertCard {
    pub subject: String,
    pub issuer: String,
    pub valid: String,
    pub tone: Tone,
    pub fingerprint: String,
}

/// A certificate's card as a mathematical value.
pub struct CertCardView {
    pub subject: Seq<char>,
    pub issuer: Seq<char>,
    pub valid: Seq<char>,
    pub tone: Tone,
    pub fingerprint: Seq<char>,
}

impl View for CertCard {
    type V = CertCardView;

    open spec fn view(&self) -> CertCardView {
        CertCardView {
            subject: self.subject@,
            issuer: self.issuer@,
            valid: self.valid@,
            tone: self.tone,
            fingerprint: self.fingerprint@,
        }
    }
}

pub open spec fn cards_view(v: Seq<CertCard>) -> Seq<CertCardView> {
    Seq::new(v.len(), |i: int| v[i]@)
}

/// The card of a certificate. `date` is the last day it is valid.
pub open spec fn card_of(cert: certs::Cert, date: Seq<char>, now: Moment) -> CertCardView {
    let (valid, tone) = if certs::expired(cert.not_after, now) {
        ("expired "@ + date, Tone::Red)
    } else if certs::expires_soon(cert.not_after, now) {
        (
            "until "@ + date + " ("@ + text::signed_decimal(certs::days_left(cert.not_after, now))
                + " days)"@,
            Tone::Yellow,
        )
    } else {
        ("until "@ + date, Tone::Plain)
    };
    CertCardView {
        subject: cert.subject,
        issuer: if cert.self_signed {
            cert.issuer + " (self-signed)"@
        } else {
            cert.issuer
        },
        valid,
        tone,
        fingerprint: certs::colon_hex_text(cert.sha256),
    }
}

/// The card of a certificate, given the last day it is valid.
pub fn cert_card_on(cert: &CertInfo, date: &str, now: Moment) -> (r: CertCard)
    ensures
        r@ == card_of(cert@, date@, now),
{
    let (valid, tone): (String, Tone) = if cert.expired_at(now) {
        (cat("expired ", date), Tone::Red)
    } else if cert.expires_soon_at(now) {
        let days: String = text::signed_decimal_text(cert.days_left_at(now));
        (cat(cat3("until ", date, " (").as_str(), cat(days.as_str(), " days)").as_str()), Tone::Yellow)
    } else {
        (cat("until ", date), Tone::Plain)
    };
    let ghost wanted = card_of(cert@, date@, now);
    assert(valid@ =~= wanted.valid);
    CertCard {
        subject: cert.subject.clone(),
        issuer: if cert.self_signed {
            cat(cert.issuer.as_str(), " (self-signed)")
        } else {
            cert.issuer.clone()
        },
        valid,
        tone,
        fingerprint: cert.fingerprint(),
    }
}

/// The card of a certificate.
pub fn cert_card(cert: &CertInfo, now: Moment) -> (r: CertCard)
    ensures
        r@ == card_of(cert@, outside::date_at(cert.not_after), now),
{
    cert_card_on(cert, cert.not_after_date().as_str(), now)
}

/// The cards of the first certificates in a PEM source; none if it can't be read.
pub open spec fn cards_in(pem: Result<Option<Seq<char>>, Seq<char>>, most: int, now: Moment) -> Seq<
    CertCardView,
> {
    match pem {
        Ok(Some(pem)) => match certs::certs_in(pem) {
            Ok(found) => Seq::new(
                if found.len() < most {
                    found.len()
                } else {
                    most as nat
                },
                |i: int| card_of(found[i], outside::date_at(found[i].not_after), now),
            ),
            Err(_) => seq![],
        },
        _ => seq![],
    }
}

fn cards(pem: &Result<Option<String>, String>, most: usize, now: Moment) -> (r: Vec<CertCard>)
    ensures
        cards_view(r@) == cards_in(validate::loaded_view(*pem), most as int, now),
{
    let mut out: Vec<CertCard> = Vec::new();
    let ghost wanted = cards_in(validate::loaded_view(*pem), most as int, now);
    if let Ok(Some(pem)) = pem {
        if let Ok(found) = certs::certificates(pem.as_str()) {
            let count: usize = if found.len() < most {
                found.len()
            } else {
                most
            };
            let ghost all = certs::certs_view(found@);
            let mut i: usize = 0;
            assert(cards_view(out@) =~= wanted.take(0));
            while i < count
                invariant
                    i <= count <= found@.len(),
                    wanted.len() == count,
                    all == certs::certs_view(found@),
                    all.len() == found@.len(),
                    forall|j: int|
                        0 <= j < count ==> #[trigger] wanted[j] == card_of(
                            all[j],
                            outside::date_at(all[j].not_after),
                            now,
                        ),
                    cards_view(out@) == wanted.take(i as int),
                decreases count - i,
            {
                let ghost before = out@;
                assert(all[i as int] == found@[i as int]@);
                out.push(cert_card(&found[i], now));
                assert(cards_view(out@) =~= cards_view(before).push(wanted[i as int]));
                assert(wanted.take(i + 1) =~= wanted.take(i as int).push(wanted[i as int]));
                i += 1;
            }
            assert(wanted.take(i as int) =~= wanted);
            return out;
        }
    }
    assert(cards_view(out@) =~= wanted);
    out
}

// ----- Clusters -----

/// Which source of a CA is shown: the one that was chosen, else the one that the body has.
pub open spec fn ca_mode(body: Fields, chosen: Option<PemMode>) -> PemMode {
    match chosen {
        Some(mode) => mode,
        None => if paths::text(body, seq![fields::CA_DATA@]).len() > 0 {
            PemMode::Pem
        } else if paths::text(body, seq![fields::CA_FILE@]).len() > 0 {
            PemMode::File
        } else {
            PemMode::System
        },
    }
}

/// Which contexts use an entry, in words; none if there is none.
pub open spec fn used_text(d: Json, kind: Kind, name: Seq<char>) -> Option<Seq<char>> {
    let used = document::used_by(d, kind, name);
    if used.len() == 0 {
        None
    } else {
        Some("Used by "@ + text::joined(used, ", "@))
    }
}

fn used_note(doc: &Doc, kind: Kind, name: &str) -> (r: Option<String>)
    ensures
        text::text_of(r) == used_text(doc@, kind, name@),
{
    let used: Vec<String> = doc.used_by(kind, name);
    assert(text::texts(used@).len() == used@.len());
    if used.len() == 0 {
        None
    } else {
        Some(cat("Used by ", text::join(&used, ", ").as_str()))
    }
}

/// The card of a cluster.
#[derive(Debug)]
pub struct ClusterCard {
    pub mode: PemMode,
    pub mode_hint: Option<&'static str>,
    /// "Fetch from server…" needs a server.
    pub can_fetch: bool,
    pub certificates: Vec<CertCard>,
    pub insecure: bool,
    pub insecure_notice: Option<&'static str>,
    pub no_compression: bool,
    pub used: Option<String>,
}

/// The text of a static note, if there is one.
pub open spec fn note_of(s: Option<&'static str>) -> Option<Seq<char>> {
    match s {
        Some(s) => Some(s@),
        None => None,
    }
}

/// The card of a cluster. `chosen` is the CA source picked before a value exists.
pub fn cluster_card(
    doc: &Doc,
    entry: &EntryRef,
    body: &Object,
    chosen: Option<PemMode>,
    facts: &Facts,
    now: Moment,
) -> (r: ClusterCard)
    ensures
        r.mode == ca_mode(body@, chosen),
        note_of(r.mode_hint) == if r.mode == PemMode::System {
            Some("The server's certificate must be signed by a CA your system trusts."@)
        } else {
            None
        },
        r.can_fetch == (paths::text(body@, seq!["server"@]).len() > 0),
        cards_view(r.certificates@) == cards_in(
            issues::loaded(body@, fields::CA_FILE@, fields::CA_DATA@, facts.files@),
            3,
            now,
        ),
        r.insecure == paths::flag(body@, seq!["insecure-skip-tls-verify"@]),
        note_of(r.insecure_notice) == if r.insecure {
            Some(
                "TLS isn't verified for this cluster. Fetch its CA instead: Kubyl shows the fingerprint for you to confirm."@,
            )
        } else {
            None
        },
        r.no_compression == paths::flag(body@, seq!["disable-compression"@]),
        text::text_of(r.used) == used_text(doc@, Kind::Cluster, entry.name@),
{
    let ca: PemSource = PemSource::read(body, fields::CA_FILE, fields::CA_DATA);
    let mode: PemMode = match chosen {
        Some(mode) => mode,
        None => match &ca {
            PemSource::Unset => PemMode::System,
            PemSource::File(_) => PemMode::File,
            PemSource::Data(_) => PemMode::Pem,
        },
    };
    let insecure: bool = get_bool(body, &["insecure-skip-tls-verify"]);
    let no_compression: bool = get_bool(body, &["disable-compression"]);
    let server: String = get_str(body, &["server"]);
    assert(text::slices(["insecure-skip-tls-verify"]@) =~= seq!["insecure-skip-tls-verify"@]);
    assert(text::slices(["disable-compression"]@) =~= seq!["disable-compression"@]);
    assert(text::slices(["server"]@) =~= seq!["server"@]);
    let pem: Result<Option<String>, String> = load_pem(&ca, facts);
    assert(validate::loaded_view(pem) == issues::loaded(
        body@,
        fields::CA_FILE@,
        fields::CA_DATA@,
        facts.files@,
    ));
    ClusterCard {
        mode,
        mode_hint: if mode == PemMode::System {
            Some("The server's certificate must be signed by a CA your system trusts.")
        } else {
            None
        },
        can_fetch: !server.as_str().is_empty(),
        certificates: cards(&pem, 3, now),
        insecure,
        insecure_notice: if insecure {
            Some(
                "TLS isn't verified for this cluster. Fetch its CA instead: Kubyl shows the fingerprint for you to confirm.",
            )
        } else {
            None
        },
        no_compression,
        used: used_note(doc, Kind::Cluster, entry.name.as_str()),
    }
}

/// Another source of the CA was chosen: the system's trust store takes out what was there.
pub fn choose_ca_mode(doc: &mut Doc, cluster: &str, mode: PemMode)
    ensures
        final(doc)@ == if mode == PemMode::System {
            edits::with_new_body(
                old(doc)@,
                Kind::Cluster,
                cluster@,
                json::without(
                    json::without(
                        edits::body_or_nothing(old(doc)@, Kind::Cluster, cluster@),
                        fields::CA_FILE@,
                    ),
                    fields::CA_DATA@,
                ),
            )
        } else {
            old(doc)@
        },
{
    if mode == PemMode::System {
        if let Some(body) = doc.body_mut(Kind::Cluster, cluster) {
            PemSource::Unset.write(body, fields::CA_FILE, fields::CA_DATA);
        }
    }
}

/// The body with a switch turned to the other side. A switch that is off isn't written where
/// it is missing.
pub open spec fn toggled(body: Fields, path: Seq<Seq<char>>) -> Fields {
    paths::with(body, path, Json::Bool(!paths::flag(body, path)))
}

/// A switch of an entry was turned.
pub fn toggle(doc: &mut Doc, kind: Kind, name: &str, path: &[&str])
    requires
        path@.len() > 0,
    ensures
        final(doc)@ == edits::with_new_body(
            old(doc)@,
            kind,
            name@,
            toggled(edits::body_or_nothing(old(doc)@, kind, name@), text::slices(path@)),
        ),
{
    if let Some(body) = doc.body_mut(kind, name) {
        let on: bool = get_bool(body, path);
        fields::set_bool(body, path, !on);
    }
}

// ----- Users -----

/// The text fields of a user that signs in in this way, with their labels.
pub open spec fn user_rows(kind: AuthKind) -> Seq<(Seq<char>, Seq<char>)> {
    match kind {
        AuthKind::Token => seq![("token"@, "Token"@)],
        AuthKind::TokenFile => seq![("token-file"@, "Token file"@)],
        AuthKind::OidcProvider => seq![
            ("oidc-issuer"@, "Issuer URL"@),
            ("oidc-client-id"@, "Client ID"@),
            ("oidc-client-secret"@, "Client secret"@),
            ("oidc-scopes"@, "Extra scopes"@),
        ],
        AuthKind::Basic => seq![("username"@, "Username"@), ("password"@, "Password"@)],
        AuthKind::Exec => seq![("exec-command"@, "Command"@), ("exec-hint"@, "Install hint"@)],
        AuthKind::ClientCertificate | AuthKind::OtherProvider | AuthKind::Unset => seq![],
    }
}

/// What is to be said of a way to sign in.
pub open spec fn user_notice(kind: AuthKind) -> Option<Seq<char>> {
    match kind {
        AuthKind::Basic => Some("Basic auth was removed in Kubernetes 1.19."@),
        AuthKind::OtherProvider => Some(
            "This auth provider was removed from kubectl 1.26. Switch to its exec plugin (gke-gcloud-auth-plugin, kubelogin)."@,
        ),
        _ => None,
    }
}

/// A hint for a way to sign in.
pub open spec fn user_hint(kind: AuthKind) -> Option<Seq<char>> {
    match kind {
        AuthKind::OidcProvider => Some(
            "Kubyl signs in with this provider in your browser (PKCE); tokens go to the OS keychain."@,
        ),
        AuthKind::Exec => Some(
            "Kubyl runs a plugin from unsaved edits only after you saw its command, arguments and environment and agreed."@,
        ),
        AuthKind::Unset => Some("Requests are anonymous."@),
        _ => None,
    }
}

/// The keys of a provider's settings that have a field of their own.
pub open spec fn has_field(key: Seq<char>) -> bool {
    key == "idp-issuer-url"@ || key == "client-id"@ || key == "client-secret"@ || key
        == "extra-scopes"@
}

/// A parameter of a provider: secret ones without their value.
pub open spec fn parameter(config: Fields, key: Seq<char>) -> Seq<char> {
    if credentials::provider_secret_keys().contains(key) {
        key + ": ••••"@
    } else {
        key + ": "@ + paths::text(config, seq![key])
    }
}

/// The parameters without a field of their own among the first `n`.
pub open spec fn parameters(config: Fields, n: nat) -> Seq<Seq<char>>
    decreases n,
{
    if n == 0 {
        seq![]
    } else {
        let before = parameters(config, (n - 1) as nat);
        let key = config[n - 1].0;
        if has_field(key) {
            before
        } else {
            before.push(parameter(config, key))
        }
    }
}

/// The settings of a user's provider.
pub open spec fn config_of(body: Fields) -> Fields {
    match paths::at(body, seq!["auth-provider"@, "config"@]) {
        Some(Json::Object(c)) => c,
        _ => seq![],
    }
}

/// When a token expires, in words.
pub open spec fn expiry_hint(expiry: Option<Moment>, minute: Seq<char>, now: Moment) -> Option<
    Seq<char>,
> {
    match expiry {
        Some(at) => Some(
            if conntest::past(Some(at), now) {
                "expired "@ + minute
            } else {
                "expires "@ + minute
            },
        ),
        None => None,
    }
}

/// The card of a user.
#[derive(Debug)]
pub struct UserCard {
    pub kind: AuthKind,
    pub label: &'static str,
    /// Ids and labels of the text fields.
    pub rows: Vec<(&'static str, &'static str)>,
    pub notice: Option<&'static str>,
    pub hint: Option<&'static str>,
    /// When the token expires.
    pub expiry: Option<String>,
    /// There is a token to copy.
    pub can_copy: bool,
    /// Parameters of a provider that have no field.
    pub extra: Vec<String>,
    pub used: Option<String>,
}

pub open spec fn labels_view(v: Seq<(&'static str, &'static str)>) -> Seq<(Seq<char>, Seq<char>)> {
    Seq::new(v.len(), |i: int| (v[i].0@, v[i].1@))
}

fn rows_of(kind: AuthKind) -> (r: Vec<(&'static str, &'static str)>)
    ensures
        labels_view(r@) == user_rows(kind),
{
    let rows: Vec<(&'static str, &'static str)> = match kind {
        AuthKind::Token => vec![("token", "Token")],
        AuthKind::TokenFile => vec![("token-file", "Token file")],
        AuthKind::OidcProvider => vec![
            ("oidc-issuer", "Issuer URL"),
            ("oidc-client-id", "Client ID"),
            ("oidc-client-secret", "Client secret"),
            ("oidc-scopes", "Extra scopes"),
        ],
        AuthKind::Basic => vec![("username", "Username"), ("password", "Password")],
        AuthKind::Exec => vec![("exec-command", "Command"), ("exec-hint", "Install hint")],
        AuthKind::ClientCertificate | AuthKind::OtherProvider | AuthKind::Unset => Vec::new(),
    };
    assert(labels_view(rows@) =~= user_rows(kind));
    rows
}

fn extra_of(body: &Object) -> (r: Vec<String>)
    ensures
        text::texts(r@) == parameters(config_of(body@), config_of(body@).len()),
{
    let mut out: Vec<String> = Vec::new();
    let ghost all = config_of(body@);
    assert(text::texts(out@) =~= seq![]);
    assert(text::slices(["auth-provider", "config"]@) =~= seq!["auth-provider"@, "config"@]);
    if let Some(Value::Object(config)) = fields::get(body, &["auth-provider", "config"]) {
        let secrets: Vec<&'static str> = users::secret_provider_keys();
        let mut i: usize = 0;
        while i < config.len()
            invariant
                i <= config@.len(),
                all == config@,
                text::slices(secrets@) == credentials::provider_secret_keys(),
                text::texts(out@) == parameters(all, i as nat),
            decreases config@.len() - i,
        {
            broadcast use text::texts_push;

            let key: &str = config.key_at(i);
            let own: bool = same(key, "idp-issuer-url") || same(key, "client-id") || same(
                key,
                "client-secret",
            ) || same(key, "extra-scopes");
            if !own {
                if text::among(&secrets, key) {
                    out.push(cat(key, ": ••••"));
                } else {
                    let value: String = get_str(config, &[key]);
                    assert(text::slices([key]@) =~= seq![key@]);
                    out.push(cat3(key, ": ", value.as_str()));
                }
            }
            i += 1;
        }
    }
    out
}

/// The card of a user. `expiry` is that of its token.
pub fn user_card(doc: &Doc, entry: &EntryRef, body: &Object, expiry: Option<Moment>, now: Moment) -> (r:
    UserCard)
    ensures
        r.kind == credentials::auth_kind(body@),
        labels_view(r.rows@) == user_rows(r.kind),
        note_of(r.notice) == user_notice(r.kind),
        note_of(r.hint) == user_hint(r.kind),
        text::text_of(r.expiry) == if r.kind == AuthKind::Token {
            match expiry {
                Some(at) => expiry_hint(
                    expiry,
                    outside::minute_at(at.second, at.nanosecond),
                    now,
                ),
                None => None,
            }
        } else {
            None
        },
        r.can_copy == (r.kind == AuthKind::Token && paths::text(body@, seq!["token"@]).len() > 0),
        text::texts(r.extra@) == if r.kind == AuthKind::OidcProvider {
            parameters(config_of(body@), config_of(body@).len())
        } else {
            seq![]
        },
        text::text_of(r.used) == used_text(doc@, Kind::User, entry.name@),
{
    let kind: AuthKind = AuthKind::detect(body);
    let token: String = get_str(body, &["token"]);
    assert(text::slices(["token"]@) =~= seq!["token"@]);
    let is_token: bool = match kind {
        AuthKind::Token => true,
        _ => false,
    };
    let extra: Vec<String> = match kind {
        AuthKind::OidcProvider => extra_of(body),
        _ => {
            let none: Vec<String> = Vec::new();
            assert(text::texts(none@) =~= seq![]);
            none
        },
    };
    let shown: Option<String> = match expiry {
        Some(at) if is_token => {
            let minute: String = outside::minute_text(at.second, at.nanosecond);
            Some(
                if conntest::before(at, now) {
                    cat("expired ", minute.as_str())
                } else {
                    cat("expires ", minute.as_str())
                },
            )
        },
        _ => None,
    };
    UserCard {
        kind,
        label: kind.label(),
        rows: rows_of(kind),
        notice: match kind {
            AuthKind::Basic => Some("Basic auth was removed in Kubernetes 1.19."),
            AuthKind::OtherProvider => Some(
                "This auth provider was removed from kubectl 1.26. Switch to its exec plugin (gke-gcloud-auth-plugin, kubelogin).",
            ),
            _ => None,
        },
        hint: match kind {
            AuthKind::OidcProvider => Some(
                "Kubyl signs in with this provider in your browser (PKCE); tokens go to the OS keychain.",
            ),
            AuthKind::Exec => Some(
                "Kubyl runs a plugin from unsaved edits only after you saw its command, arguments and environment and agreed.",
            ),
            AuthKind::Unset => Some("Requests are anonymous."),
            _ => None,
        },
        expiry: shown,
        can_copy: is_token && !token.as_str().is_empty(),
        extra,
        used: used_note(doc, Kind::User, entry.name.as_str()),
    }
}

/// Another way to sign in was picked.
pub fn pick_auth_kind(doc: &mut Doc, user: &str, kind: AuthKind)
    ensures
        final(doc)@ == edits::with_new_body(
            old(doc)@,
            Kind::User,
            user@,
            credentials::with_auth_kind(edits::body_or_nothing(old(doc)@, Kind::User, user@), kind),
        ),
{
    if let Some(body) = doc.body_mut(Kind::User, user) {
        set_auth_kind(body, kind);
    }
}

/// The card of a client certificate and its key.
#[derive(Debug)]
pub struct ClientCertCard {
    pub cert_mode: PemMode,
    pub key_mode: PemMode,
    pub certificates: Vec<CertCard>,
    pub key_hint: Option<&'static str>,
}

/// Which source of a certificate or key is shown: the one that was chosen, else inline data
/// where there is some, else a file.
pub open spec fn pem_mode(body: Fields, data_key: Seq<char>, chosen: Option<PemMode>) -> PemMode {
    match chosen {
        Some(mode) => mode,
        None => if paths::text(body, seq![data_key]).len() > 0 {
            PemMode::Pem
        } else {
            PemMode::File
        },
    }
}

fn mode_of(source: &PemSource, chosen: Option<PemMode>) -> (r: PemMode)
    ensures
        r == match chosen {
            Some(mode) => mode,
            None => if *source is Data {
                PemMode::Pem
            } else {
                PemMode::File
            },
        },
{
    match chosen {
        Some(mode) => mode,
        None => match source {
            PemSource::Data(_) => PemMode::Pem,
            _ => PemMode::File,
        },
    }
}

/// The card of a client certificate and its key.
pub fn client_cert_card(
    body: &Object,
    cert_chosen: Option<PemMode>,
    key_chosen: Option<PemMode>,
    facts: &Facts,
    now: Moment,
) -> (r: ClientCertCard)
    ensures
        r.cert_mode == pem_mode(body@, fields::CERT_DATA@, cert_chosen),
        r.key_mode == pem_mode(body@, fields::KEY_DATA@, key_chosen),
        cards_view(r.certificates@) == cards_in(
            issues::loaded(body@, fields::CERT_FILE@, fields::CERT_DATA@, facts.files@),
            1,
            now,
        ),
        note_of(r.key_hint) == if r.key_mode == PemMode::Pem {
            Some("The PEM key, base64-encoded (client-key-data). Masked; the eye reveals it."@)
        } else {
            None
        },
{
    let cert: PemSource = PemSource::read(body, fields::CERT_FILE, fields::CERT_DATA);
    let key: PemSource = PemSource::read(body, fields::KEY_FILE, fields::KEY_DATA);
    let pem: Result<Option<String>, String> = load_pem(&cert, facts);
    assert(validate::loaded_view(pem) == issues::loaded(
        body@,
        fields::CERT_FILE@,
        fields::CERT_DATA@,
        facts.files@,
    ));
    let key_mode: PemMode = mode_of(&key, key_chosen);
    ClientCertCard {
        cert_mode: mode_of(&cert, cert_chosen),
        key_mode,
        certificates: cards(&pem, 1, now),
        key_hint: if key_mode == PemMode::Pem {
            Some("The PEM key, base64-encoded (client-key-data). Masked; the eye reveals it.")
        } else {
            None
        },
    }
}

// ----- Exec plugins -----

/// The choices of a plugin's block.
#[derive(Debug)]
pub struct ExecCard {
    pub api_version: String,
    pub interactive_mode: String,
    pub provide_cluster_info: bool,
    /// "Add variable" and the rows above it.
    pub variables: usize,
}

/// What a choice shows.
pub open spec fn choice_label(value: Seq<char>) -> Seq<char> {
    if value.len() == 0 {
        "(not set)"@
    } else {
        value
    }
}

/// What a choice shows.
pub fn choice_text(value: String) -> (r: String)
    ensures
        r@ == choice_label(value@),
{
    if value.as_str().is_empty() {
        "(not set)".to_string()
    } else {
        value
    }
}

/// The versions of the plugin API to choose from.
pub fn api_choices() -> (r: Vec<&'static str>)
    ensures
        text::slices(r@) == seq![
            "client.authentication.k8s.io/v1"@,
            "client.authentication.k8s.io/v1beta1"@,
        ],
{
    let v: Vec<&'static str> = vec![
        "client.authentication.k8s.io/v1",
        "client.authentication.k8s.io/v1beta1",
    ];
    assert(text::slices(v@) =~= seq![
        "client.authentication.k8s.io/v1"@,
        "client.authentication.k8s.io/v1beta1"@,
    ]);
    v
}

/// The interactive modes to choose from; the first is none.
pub fn interactive_choices() -> (r: Vec<&'static str>)
    ensures
        text::slices(r@) == seq![""@, "Never"@, "IfAvailable"@, "Always"@],
{
    let v: Vec<&'static str> = vec!["", "Never", "IfAvailable", "Always"];
    assert(text::slices(v@) =~= seq![""@, "Never"@, "IfAvailable"@, "Always"@]);
    v
}

/// The choices of a plugin's block.
pub fn exec_card(body: &Object) -> (r: ExecCard)
    ensures
        r.api_version@ == choice_label(paths::text(body@, seq!["exec"@, "apiVersion"@])),
        r.interactive_mode@ == choice_label(paths::text(body@, seq!["exec"@, "interactiveMode"@])),
        r.provide_cluster_info == paths::flag(body@, seq!["exec"@, "provideClusterInfo"@]),
        r.variables == match json::field(body@, "exec"@) {
            Some(v) => exec::env_of(v).len(),
            None => 0,
        },
{
    let api: String = get_str(body, &["exec", "apiVersion"]);
    let mode: String = get_str(body, &["exec", "interactiveMode"]);
    let info: bool = get_bool(body, &["exec", "provideClusterInfo"]);
    assert(text::slices(["exec", "apiVersion"]@) =~= seq!["exec"@, "apiVersion"@]);
    assert(text::slices(["exec", "interactiveMode"]@) =~= seq!["exec"@, "interactiveMode"@]);
    assert(text::slices(["exec", "provideClusterInfo"]@) =~= seq![
        "exec"@,
        "provideClusterInfo"@,
    ]);
    let variables: usize = match body.get("exec") {
        Some(v) => {
            let pairs: Vec<(String, String)> = exec::env_pairs(v);
            assert(exec::pair_texts(pairs@).len() == pairs@.len());
            pairs.len()
        },
        None => 0,
    };
    ExecCard {
        api_version: choice_text(api),
        interactive_mode: choice_text(mode),
        provide_cluster_info: info,
        variables,
    }
}

/// A preset was picked: it replaces the whole block.
pub fn apply_preset(doc: &mut Doc, user: &str, preset: ExecPreset)
    ensures
        final(doc)@ == edits::with_new_body(
            old(doc)@,
            Kind::User,
            user@,
            json::put(
                edits::body_or_nothing(old(doc)@, Kind::User, user@),
                "exec"@,
                exec::preset_block(preset),
            ),
        ),
{
    if let Some(body) = doc.body_mut(Kind::User, user) {
        body.insert("exec", preset.exec());
    }
}

// ----- Problems -----

/// A problem with the entry it is of, if that isn't the shown one.
pub type Listed = (Severity, Option<Seq<char>>, Seq<char>);

/// The problems of an entry with a severity, each with its owner.
pub open spec fn listed(
    problems: Seq<Issue>,
    entry: (Kind, Seq<char>),
    severity: Severity,
    owner: Option<Seq<char>>,
) -> Seq<Listed>
    decreases problems.len(),
{
    if problems.len() == 0 {
        seq![]
    } else {
        let before = listed(problems.drop_last(), entry, severity, owner);
        let last = problems.last();
        if last.entry == Some(entry) && last.severity == severity {
            before.push((severity, owner, last.message))
        } else {
            before
        }
    }
}

/// Another entry that a context uses, as the owner of a problem.
pub open spec fn owner_text(kind: Kind, name: Seq<char>) -> Seq<char> {
    panel::capitalized(document::body_key(kind)) + " "@ + name
}

/// The problems with a severity that concern an entry: its own, and for a context its cluster's
/// and user's.
pub open spec fn concerns(d: Json, problems: Seq<Issue>, entry: EntryRef, severity: Severity) -> Seq<
    Listed,
> {
    let own = listed(problems, (entry.kind, entry.name@), severity, None);
    if entry.kind == Kind::Context {
        own + of_used(d, problems, entry.name@, Kind::Cluster, severity) + of_used(
            d,
            problems,
            entry.name@,
            Kind::User,
            severity,
        )
    } else {
        own
    }
}

/// The problems with a severity of what a context uses.
pub open spec fn of_used(
    d: Json,
    problems: Seq<Issue>,
    context: Seq<char>,
    kind: Kind,
    severity: Severity,
) -> Seq<Listed> {
    match document::context_reference(d, context, kind) {
        Some(name) => listed(problems, (kind, name), severity, Some(owner_text(kind, name))),
        None => seq![],
    }
}

/// The problems that concern an entry, worst first.
pub open spec fn problem_list(d: Json, problems: Seq<Issue>, entry: EntryRef) -> Seq<Listed> {
    concerns(d, problems, entry, Severity::Error) + concerns(
        d,
        problems,
        entry,
        Severity::Warning,
    ) + concerns(d, problems, entry, Severity::Info)
}

/// The title above problems; only notes aren't counted.
pub open spec fn problems_title(count: nat) -> Seq<char> {
    if count == 0 {
        "Notes"@
    } else {
        "Problems · "@ + text::decimal(count)
    }
}

/// A problem in the list below a form.
#[derive(Debug)]
pub struct ProblemRow {
    pub severity: Severity,
    /// The cluster or user that it's of, if that isn't the entry itself.
    pub owner: Option<String>,
    pub message: String,
}

pub open spec fn problem_rows(v: Seq<ProblemRow>) -> Seq<Listed> {
    Seq::new(v.len(), |i: int| (v[i].severity, text::text_of(v[i].owner), v[i].message@))
}

fn append_listed(
    out: &mut Vec<ProblemRow>,
    problems: &[Problem],
    entry: &EntryRef,
    severity: Severity,
    owner: Option<String>,
)
    ensures
        problem_rows(final(out)@) == problem_rows(old(out)@) + listed(
            validate::problems_view(problems@),
            (entry.kind, entry.name@),
            severity,
            text::text_of(owner),
        ),
{
    let ghost all = validate::problems_view(problems@);
    let ghost before = problem_rows(out@);
    let ghost of = (entry.kind, entry.name@);
    let ghost named = text::text_of(owner);
    let mut i: usize = 0;
    assert(all.take(0) =~= seq![]);
    assert(before + listed(all.take(0), of, severity, named) =~= before);
    while i < problems.len()
        invariant
            i <= problems@.len(),
            all == validate::problems_view(problems@),
            of == (entry.kind, entry.name@),
            named == text::text_of(owner),
            problem_rows(out@) == before + listed(all.take(i as int), of, severity, named),
        decreases problems@.len() - i,
    {
        let ghost have = out@;
        assert(all.take(i + 1).drop_last() =~= all.take(i as int));
        assert(all.take(i + 1).last() == problems@[i as int]@);
        let problem: &Problem = &problems[i];
        if problem.severity == severity && validate::concerns(problem, entry) {
            out.push(
                ProblemRow {
                    severity,
                    owner: report::clone_text(&owner),
                    message: problem.message.clone(),
                },
            );
            assert(problem_rows(out@) =~= problem_rows(have).push(
                (severity, named, problem@.message),
            ));
            assert(before + listed(all.take(i as int), of, severity, named).push(
                (severity, named, problem@.message),
            ) =~= problem_rows(have).push((severity, named, problem@.message)));
        }
        i += 1;
    }
    assert(all.take(i as int) =~= all);
}

fn owner_of(kind: Kind, name: &str) -> (r: String)
    ensures
        r@ == owner_text(kind, name@),
{
    cat3(capitalize(kind.label()).as_str(), " ", name)
}

fn append_concerns(
    out: &mut Vec<ProblemRow>,
    doc: &Doc,
    problems: &[Problem],
    entry: &EntryRef,
    severity: Severity,
)
    ensures
        problem_rows(final(out)@) == problem_rows(old(out)@) + concerns(
            doc@,
            validate::problems_view(problems@),
            *entry,
            severity,
        ),
{
    let ghost before = problem_rows(out@);
    let ghost all = validate::problems_view(problems@);
    append_listed(out, problems, entry, severity, None);
    if entry.kind == Kind::Context {
        let ghost own = listed(all, (entry.kind, entry.name@), severity, None);
        let (cluster, user) = doc.context_refs(entry.name.as_str());
        if let Some(name) = cluster {
            let owner: String = owner_of(Kind::Cluster, name.as_str());
            append_listed(
                out,
                problems,
                &EntryRef::new(Kind::Cluster, name.as_str()),
                severity,
                Some(owner),
            );
        }
        let ghost clusters = of_used(doc@, all, entry.name@, Kind::Cluster, severity);
        assert(problem_rows(out@) =~= before + own + clusters);
        if let Some(name) = user {
            let owner: String = owner_of(Kind::User, name.as_str());
            append_listed(
                out,
                problems,
                &EntryRef::new(Kind::User, name.as_str()),
                severity,
                Some(owner),
            );
        }
        let ghost users = of_used(doc@, all, entry.name@, Kind::User, severity);
        assert(problem_rows(out@) =~= before + own + clusters + users);
        assert(before + own + clusters + users =~= before + (own + clusters + users));
    }
}

/// The problems below a form: the entry's, for a context also its cluster's and user's, worst
/// first. None without any.
pub fn problems_card(doc: &Doc, problems: &[Problem], entry: &EntryRef) -> (r: Option<
    (String, Vec<ProblemRow>),
>)
    ensures
        ({
            let all = validate::problems_view(problems@);
            match r {
                Some((title, rows)) => problem_list(doc@, all, *entry).len() > 0 && problem_rows(
                    rows@,
                ) == problem_list(doc@, all, *entry) && title@ == problems_title(
                    concerns(doc@, all, *entry, Severity::Error).len() + concerns(
                        doc@,
                        all,
                        *entry,
                        Severity::Warning,
                    ).len(),
                ),
                None => problem_list(doc@, all, *entry).len() == 0,
            }
        }),
{
    let mut rows: Vec<ProblemRow> = Vec::new();
    let ghost all = validate::problems_view(problems@);
    assert(problem_rows(rows@) =~= seq![]);
    append_concerns(&mut rows, doc, problems, entry, Severity::Error);
    append_concerns(&mut rows, doc, problems, entry, Severity::Warning);
    let count: usize = rows.len();
    assert(problem_rows(rows@).len() == rows@.len());
    append_concerns(&mut rows, doc, problems, entry, Severity::Info);
    assert(problem_rows(rows@) =~= problem_list(doc@, all, *entry));
    assert(problem_rows(rows@).len() == rows@.len());
    if rows.len() == 0 {
        return None;
    }
    let title: String = if count == 0 {
        "Notes".to_string()
    } else {
        cat("Problems · ", text::decimal_text(count as u128).as_str())
    };
    Some((title, rows))
}

// ----- The last test -----

/// How long ago a test started, in words.
pub open spec fn ago_text(started: Moment, now: Moment) -> Seq<char> {
    let ago = now.second - started.second;
    if ago < 60 {
        "just now"@
    } else {
        text::decimal((ago / 60) as nat) + " min ago"@
    }
}

/// How long ago a test started, in words.
pub fn ago(started: Moment, now: Moment) -> (r: String)
    ensures
        r@ == ago_text(started, now),
{
    let ago: i128 = now.second as i128 - started.second as i128;
    if ago < 60 {
        "just now".to_string()
    } else {
        cat(text::decimal_text(ago as u128 / 60).as_str(), " min ago")
    }
}

/// "Last test": when it was, and how it ended.
pub fn last_test(report: &Report, now: Moment) -> (r: (String, String))
    ensures
        r.0@ == "LAST TEST · "@ + outside::uppercase(ago_text(report.started, now)),
        r.1@ == report::summary_text(report@),
{
    let when: String = ago(report.started, now);
    (cat("LAST TEST · ", outside::to_uppercase(when.as_str()).as_str()), report.summary())
}

// ----- Kubyl's overrides of a context -----

/// The card of the settings that Kubyl keeps for a context, outside the kubeconfig.
#[derive(Debug)]
pub struct OverridesCard {
    /// Shown in place of the settings.
    pub note: Option<&'static str>,
    /// The switches and what they are set to.
    pub rows: Vec<(SafetySwitch, bool)>,
}

/// The card of a context's settings; there are none before the file is saved.
pub fn overrides_card(switches: Option<&ContextSwitches>) -> (r: OverridesCard)
    ensures
        match switches {
            Some(s) => r.note is None && r.rows@ == seq![
                (SafetySwitch::Production, s.production),
                (SafetySwitch::ReadOnly, s.read_only),
            ],
            None => note_of(r.note) == Some(
                "Save the file to set a display name, color, production and read-only for this context."@,
            ) && r.rows@.len() == 0,
        },
{
    match switches {
        Some(s) => OverridesCard {
            note: None,
            rows: vec![
                (SafetySwitch::Production, s.production),
                (SafetySwitch::ReadOnly, s.read_only),
            ],
        },
        None => OverridesCard {
            note: Some(
                "Save the file to set a display name, color, production and read-only for this context.",
            ),
            rows: Vec::new(),
        },
    }
}

/// What stands in place of a form.
pub fn form_note(editor: &KubeconfigEditor) -> (r: Option<&'static str>)
    ensures
        note_of(r) == match editor.selection {
            None => Some("Select or add a context, cluster or user."@),
            Some(e) => if document::body(editor.doc@, e.kind, e.name@) is None {
                Some("This entry is gone."@)
            } else {
                None
            },
        },
{
    match &editor.selection {
        None => Some("Select or add a context, cluster or user."),
        Some(e) => if editor.doc.body(e.kind, e.name.as_str()).is_none() {
            Some("This entry is gone.")
        } else {
            None
        },
    }
}

} // verus!
