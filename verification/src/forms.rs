//! The form on the right of the editor: one per entry kind. Text fields write into the document
//! as you type; pickers, switches and presets act on click. Secret fields are masked.

use crate::certs;
use crate::credentials;
use crate::document;
use crate::edits;
use crate::editor::{self, KubeconfigEditor};
use crate::exec;
use crate::fields::{self, get_str, set_str, PemSource};
use crate::json::{self, Fields, Json};
use crate::model::{Doc, EntryRef, Kind};
use crate::outside;
use crate::paths;
use crate::pem;
use crate::text::{self, same, trim};
use crate::users::is_secret_env;
use crate::value::{self, Object, Value};
use vstd::prelude::*;

verus! {

/// Where a CA or client certificate comes from in the form.
#[derive(Clone, Copy, Debug, PartialEq, Eq, Structural)]
pub enum PemMode {
    System,
    File,
    Pem,
}

// ----- Fields -----

/// Text fields and where they write.
pub open spec fn bound_to(id: Seq<char>) -> Option<(Kind, Seq<Seq<char>>)> {
    if id == "server"@ {
        Some((Kind::Cluster, seq!["server"@]))
    } else if id == "tls-server-name"@ {
        Some((Kind::Cluster, seq!["tls-server-name"@]))
    } else if id == "proxy-url"@ {
        Some((Kind::Cluster, seq!["proxy-url"@]))
    } else if id == "ca-file"@ {
        Some((Kind::Cluster, seq![fields::CA_FILE@]))
    } else if id == "namespace"@ {
        Some((Kind::Context, seq!["namespace"@]))
    } else if id == "token"@ {
        Some((Kind::User, seq!["token"@]))
    } else if id == "token-file"@ {
        Some((Kind::User, seq!["tokenFile"@]))
    } else if id == "cert-file"@ {
        Some((Kind::User, seq![fields::CERT_FILE@]))
    } else if id == "key-file"@ {
        Some((Kind::User, seq![fields::KEY_FILE@]))
    } else if id == "key-data"@ {
        Some((Kind::User, seq![fields::KEY_DATA@]))
    } else if id == "exec-command"@ {
        Some((Kind::User, seq!["exec"@, "command"@]))
    } else if id == "exec-hint"@ {
        Some((Kind::User, seq!["exec"@, "installHint"@]))
    } else if id == "oidc-issuer"@ {
        Some((Kind::User, seq!["auth-provider"@, "config"@, "idp-issuer-url"@]))
    } else if id == "oidc-client-id"@ {
        Some((Kind::User, seq!["auth-provider"@, "config"@, "client-id"@]))
    } else if id == "oidc-client-secret"@ {
        Some((Kind::User, seq!["auth-provider"@, "config"@, "client-secret"@]))
    } else if id == "oidc-scopes"@ {
        Some((Kind::User, seq!["auth-provider"@, "config"@, "extra-scopes"@]))
    } else if id == "username"@ {
        Some((Kind::User, seq!["username"@]))
    } else if id == "password"@ {
        Some((Kind::User, seq!["password"@]))
    } else {
        None
    }
}

/// Text fields and where they write.
pub fn binding(id: &str) -> (r: Option<(Kind, Vec<&'static str>)>)
    ensures
        match r {
            Some((kind, path)) => bound_to(id@) == Some((kind, text::slices(path@))),
            None => bound_to(id@) is None,
        },
{
    let (kind, path): (Kind, Vec<&'static str>) = if same(id, "server") {
        (Kind::Cluster, vec!["server"])
    } else if same(id, "tls-server-name") {
        (Kind::Cluster, vec!["tls-server-name"])
    } else if same(id, "proxy-url") {
        (Kind::Cluster, vec!["proxy-url"])
    } else if same(id, "ca-file") {
        (Kind::Cluster, vec![fields::CA_FILE])
    } else if same(id, "namespace") {
        (Kind::Context, vec!["namespace"])
    } else if same(id, "token") {
        (Kind::User, vec!["token"])
    } else if same(id, "token-file") {
        (Kind::User, vec!["tokenFile"])
    } else if same(id, "cert-file") {
        (Kind::User, vec![fields::CERT_FILE])
    } else if same(id, "key-file") {
        (Kind::User, vec![fields::KEY_FILE])
    } else if same(id, "key-data") {
        (Kind::User, vec![fields::KEY_DATA])
    } else if same(id, "exec-command") {
        (Kind::User, vec!["exec", "command"])
    } else if same(id, "exec-hint") {
        (Kind::User, vec!["exec", "installHint"])
    } else if same(id, "oidc-issuer") {
        (Kind::User, vec!["auth-provider", "config", "idp-issuer-url"])
    } else if same(id, "oidc-client-id") {
        (Kind::User, vec!["auth-provider", "config", "client-id"])
    } else if same(id, "oidc-client-secret") {
        (Kind::User, vec!["auth-provider", "config", "client-secret"])
    } else if same(id, "oidc-scopes") {
        (Kind::User, vec!["auth-provider", "config", "extra-scopes"])
    } else if same(id, "username") {
        (Kind::User, vec!["username"])
    } else if same(id, "password") {
        (Kind::User, vec!["password"])
    } else {
        return None;
    };
    proof {
        if let Some((_, wanted)) = bound_to(id@) {
            assert(text::slices(path@) =~= wanted);
        }
    }
    Some((kind, path))
}

/// Fields that hold secrets.
pub open spec fn secret_field(id: Seq<char>) -> bool {
    id == "token"@ || id == "key-data"@ || id == "oidc-client-secret"@ || id == "password"@
}

/// Fields that hold secrets: masked, with an eye to reveal.
pub fn is_secret(id: &str) -> (r: bool)
    ensures
        r == secret_field(id@),
{
    same(id, "token") || same(id, "key-data") || same(id, "oidc-client-secret") || same(
        id,
        "password",
    )
}

/// The text of an empty field.
pub open spec fn placeholder_of(id: Seq<char>) -> Seq<char> {
    if id == "server"@ {
        "https://kubernetes.example.com:6443"@
    } else if id == "tls-server-name"@ {
        "the name in the server's certificate, if not the host"@
    } else if id == "proxy-url"@ {
        "http://proxy:3128 or socks5://…"@
    } else if id == "ca-file"@ {
        "/path/to/ca.crt"@
    } else if id == "namespace"@ {
        "default"@
    } else if id == "token"@ {
        "bearer token"@
    } else if id == "token-file"@ {
        "/var/run/secrets/…/token"@
    } else if id == "cert-file"@ {
        "/path/to/client.crt"@
    } else if id == "key-file"@ {
        "/path/to/client.key"@
    } else if id == "key-data"@ {
        "base64 of the PEM key"@
    } else if id == "exec-command"@ {
        "aws, gke-gcloud-auth-plugin, kubelogin…"@
    } else if id == "exec-hint"@ {
        "shown when the command isn't installed"@
    } else if id == "oidc-issuer"@ {
        "https://sso.example.com/realms/platform"@
    } else if id == "oidc-client-id"@ {
        "kubernetes"@
    } else if id == "oidc-client-secret"@ {
        "only for confidential clients"@
    } else if id == "oidc-scopes"@ {
        "groups,email"@
    } else if id == "username"@ {
        "user"@
    } else if id == "password"@ {
        "password"@
    } else {
        ""@
    }
}

/// The text of an empty field.
pub fn placeholder(id: &str) -> (r: &'static str)
    ensures
        r@ == placeholder_of(id@),
{
    if same(id, "server") {
        "https://kubernetes.example.com:6443"
    } else if same(id, "tls-server-name") {
        "the name in the server's certificate, if not the host"
    } else if same(id, "proxy-url") {
        "http://proxy:3128 or socks5://…"
    } else if same(id, "ca-file") {
        "/path/to/ca.crt"
    } else if same(id, "namespace") {
        "default"
    } else if same(id, "token") {
        "bearer token"
    } else if same(id, "token-file") {
        "/var/run/secrets/…/token"
    } else if same(id, "cert-file") {
        "/path/to/client.crt"
    } else if same(id, "key-file") {
        "/path/to/client.key"
    } else if same(id, "key-data") {
        "base64 of the PEM key"
    } else if same(id, "exec-command") {
        "aws, gke-gcloud-auth-plugin, kubelogin…"
    } else if same(id, "exec-hint") {
        "shown when the command isn't installed"
    } else if same(id, "oidc-issuer") {
        "https://sso.example.com/realms/platform"
    } else if same(id, "oidc-client-id") {
        "kubernetes"
    } else if same(id, "oidc-client-secret") {
        "only for confidential clients"
    } else if same(id, "oidc-scopes") {
        "groups,email"
    } else if same(id, "username") {
        "user"
    } else if same(id, "password") {
        "password"
    } else {
        ""
    }
}

/// The text fields of an entry of a kind.
pub open spec fn field_ids(kind: Kind) -> Seq<Seq<char>> {
    match kind {
        Kind::Cluster => seq!["server"@, "tls-server-name"@, "proxy-url"@, "ca-file"@],
        Kind::Context => seq!["namespace"@],
        Kind::User => seq![
            "token"@,
            "token-file"@,
            "cert-file"@,
            "key-file"@,
            "key-data"@,
            "exec-command"@,
            "exec-hint"@,
            "oidc-issuer"@,
            "oidc-client-id"@,
            "oidc-client-secret"@,
            "oidc-scopes"@,
            "username"@,
            "password"@,
        ],
    }
}

fn ids_of(kind: Kind) -> (r: Vec<&'static str>)
    ensures
        text::slices(r@) == field_ids(kind),
{
    let ids: Vec<&'static str> = match kind {
        Kind::Cluster => vec!["server", "tls-server-name", "proxy-url", "ca-file"],
        Kind::Context => vec!["namespace"],
        Kind::User => vec![
            "token",
            "token-file",
            "cert-file",
            "key-file",
            "key-data",
            "exec-command",
            "exec-hint",
            "oidc-issuer",
            "oidc-client-id",
            "oidc-client-secret",
            "oidc-scopes",
            "username",
            "password",
        ],
    };
    assert(text::slices(ids@) =~= field_ids(kind));
    ids
}

// ----- Building -----

/// A text field.
#[derive(Debug)]
pub struct FormInput {
    pub id: &'static str,
    pub value: String,
    pub masked: bool,
    pub placeholder: &'static str,
}

/// A multi-line field: PEM text of inline certificates, exec arguments.
#[derive(Debug)]
pub struct FormArea {
    pub id: &'static str,
    pub value: String,
    pub placeholder: &'static str,
}

/// A row of a plugin's environment.
#[derive(Debug)]
pub struct EnvRow {
    pub name: String,
    pub value: String,
    pub masked: bool,
}

/// The inputs of the selected entry.
#[derive(Debug)]
pub struct Form {
    pub entry: Option<EntryRef>,
    pub inputs: Vec<FormInput>,
    pub areas: Vec<FormArea>,
    pub env: Vec<EnvRow>,
}

/// A field as a mathematical value: its id, value, whether it is masked, and its placeholder.
pub type InputView = (Seq<char>, Seq<char>, bool, Seq<char>);

/// A multi-line field as a mathematical value: its id, value and placeholder.
pub type AreaView = (Seq<char>, Seq<char>, Seq<char>);

pub open spec fn inputs_view(v: Seq<FormInput>) -> Seq<InputView> {
    Seq::new(v.len(), |i: int| (v[i].id@, v[i].value@, v[i].masked, v[i].placeholder@))
}

pub open spec fn areas_view(v: Seq<FormArea>) -> Seq<AreaView> {
    Seq::new(v.len(), |i: int| (v[i].id@, v[i].value@, v[i].placeholder@))
}

pub open spec fn env_view(v: Seq<EnvRow>) -> Seq<(Seq<char>, Seq<char>, bool)> {
    Seq::new(v.len(), |i: int| (v[i].name@, v[i].value@, v[i].masked))
}

/// What a text field shows of a body.
pub open spec fn shown_in(body: Fields, id: Seq<char>) -> Seq<char> {
    match bound_to(id) {
        Some((_, path)) => paths::text(body, path),
        None => seq![],
    }
}

/// The text fields for a body.
pub open spec fn inputs_for(kind: Kind, body: Fields) -> Seq<InputView> {
    Seq::new(
        field_ids(kind).len(),
        |i: int|
            {
                let id = field_ids(kind)[i];
                (id, shown_in(body, id), secret_field(id), placeholder_of(id))
            },
    )
}

/// The PEM text of an inline certificate; what stands there if it can't be read.
pub open spec fn pem_shown(body: Fields, key: Seq<char>) -> Seq<char> {
    let data = paths::text(body, seq![key]);
    if data.len() == 0 {
        seq![]
    } else {
        match pem::data_text(data) {
            Ok(s) => s,
            Err(_) => data,
        }
    }
}

/// The value of a body's `exec` block.
pub open spec fn exec_value(body: Fields) -> Json {
    match json::field(body, "exec"@) {
        Some(v) => v,
        None => Json::Null,
    }
}

/// The multi-line fields for a body.
pub open spec fn areas_for(kind: Kind, body: Fields) -> Seq<AreaView> {
    match kind {
        Kind::Cluster => seq![
            ("ca-pem"@, pem_shown(body, fields::CA_DATA@), "-----BEGIN CERTIFICATE-----"@),
        ],
        Kind::User => seq![
            ("cert-pem"@, pem_shown(body, fields::CERT_DATA@), "-----BEGIN CERTIFICATE-----"@),
            (
                "exec-args"@,
                text::joined(
                    credentials::item_texts(exec::items_at(exec_value(body), "args"@)),
                    "\n"@,
                ),
                "one argument per line"@,
            ),
        ],
        Kind::Context => seq![],
    }
}

/// The environment rows for a body: values of names that sound secret are masked.
pub open spec fn env_for(kind: Kind, body: Fields) -> Seq<(Seq<char>, Seq<char>, bool)> {
    if kind == Kind::User {
        let env = exec::env_of(exec_value(body));
        Seq::new(env.len(), |i: int| (env[i].0, env[i].1, credentials::secret_env(env[i].0)))
    } else {
        seq![]
    }
}

fn pem_text(body: &Object, key: &str) -> (r: String)
    ensures
        r@ == pem_shown(body@, key@),
{
    let data: String = get_str(body, &[key]);
    assert(text::slices([key]@) =~= seq![key@]);
    if data.as_str().is_empty() {
        assert(data@ =~= seq![]);
        return data;
    }
    match certs::pem_from_data(data.as_str()) {
        Ok(s) => s,
        Err(_) => data,
    }
}

fn exec_of(body: &Object) -> (r: Value)
    ensures
        r@ == exec_value(body@),
{
    match body.get("exec") {
        Some(v) => v.clone(),
        None => Value::Null,
    }
}

fn build_inputs(kind: Kind, body: &Object) -> (r: Vec<FormInput>)
    ensures
        inputs_view(r@) == inputs_for(kind, body@),
{
    let ids: Vec<&'static str> = ids_of(kind);
    let ghost wanted = inputs_for(kind, body@);
    assert(text::slices(ids@).len() == ids@.len());
    let mut out: Vec<FormInput> = Vec::new();
    let mut i: usize = 0;
    assert(inputs_view(out@) =~= wanted.take(0));
    while i < ids.len()
        invariant
            i <= ids@.len(),
            ids@.len() == wanted.len(),
            text::slices(ids@) == field_ids(kind),
            wanted == inputs_for(kind, body@),
            inputs_view(out@) == wanted.take(i as int),
        decreases ids@.len() - i,
    {
        let ghost before = out@;
        let id: &'static str = ids[i];
        assert(text::slices(ids@)[i as int] == id@);
        let value: String = match binding(id) {
            Some((_, path)) => get_str(body, path.as_slice()),
            None => {
                let none: String = String::new();
                assert(none@ =~= seq![]);
                none
            },
        };
        out.push(
            FormInput { id, value, masked: is_secret(id), placeholder: placeholder(id) },
        );
        assert(inputs_view(out@) =~= inputs_view(before).push(wanted[i as int]));
        assert(wanted.take(i + 1) =~= wanted.take(i as int).push(wanted[i as int]));
        i += 1;
    }
    assert(wanted.take(i as int) =~= wanted);
    out
}

fn build_env(body: &Object) -> (r: Vec<EnvRow>)
    ensures
        env_view(r@) == env_for(Kind::User, body@),
{
    let pairs: Vec<(String, String)> = exec::env_pairs(&exec_of(body));
    let ghost wanted = env_for(Kind::User, body@);
    assert(exec::pair_texts(pairs@).len() == pairs@.len());
    let mut out: Vec<EnvRow> = Vec::new();
    let mut i: usize = 0;
    assert(env_view(out@) =~= wanted.take(0));
    while i < pairs.len()
        invariant
            i <= pairs@.len(),
            pairs@.len() == wanted.len(),
            exec::pair_texts(pairs@) == exec::env_of(exec_value(body@)),
            wanted == env_for(Kind::User, body@),
            env_view(out@) == wanted.take(i as int),
        decreases pairs@.len() - i,
    {
        let ghost before = out@;
        assert(exec::pair_texts(pairs@)[i as int] == (pairs@[i as int].0@, pairs@[i as int].1@));
        out.push(
            EnvRow {
                name: pairs[i].0.clone(),
                value: pairs[i].1.clone(),
                masked: is_secret_env(pairs[i].0.as_str()),
            },
        );
        assert(env_view(out@) =~= env_view(before).push(wanted[i as int]));
        assert(wanted.take(i + 1) =~= wanted.take(i as int).push(wanted[i as int]));
        i += 1;
    }
    assert(wanted.take(i as int) =~= wanted);
    out
}

impl Form {
    /// Inputs for the editor's selection with the document's current values.
    pub fn build(editor: &KubeconfigEditor) -> (r: Form)
        ensures
            editor::entry_of(r.entry) == editor::entry_of(editor.selection),
            match editor::entry_of(editor.selection) {
                Some((kind, name)) => match document::body(editor.doc@, kind, name) {
                    Some(body) => inputs_view(r.inputs@) == inputs_for(kind, body) && areas_view(
                        r.areas@,
                    ) == areas_for(kind, body) && env_view(r.env@) == env_for(kind, body),
                    None => r.inputs@.len() == 0 && r.areas@.len() == 0 && r.env@.len() == 0,
                },
                None => r.inputs@.len() == 0 && r.areas@.len() == 0 && r.env@.len() == 0,
            },
    {
        let mut form = Form {
            entry: match &editor.selection {
                Some(e) => Some(EntryRef::new(e.kind, e.name.as_str())),
                None => None,
            },
            inputs: Vec::new(),
            areas: Vec::new(),
            env: Vec::new(),
        };
        if let Some(entry) = &editor.selection {
            if let Some(body) = editor.doc.body(entry.kind, entry.name.as_str()) {
                form.inputs = build_inputs(entry.kind, body);
                match entry.kind {
                    Kind::Cluster => {
                        form.areas.push(
                            FormArea {
                                id: "ca-pem",
                                value: pem_text(body, fields::CA_DATA),
                                placeholder: "-----BEGIN CERTIFICATE-----",
                            },
                        );
                    },
                    Kind::User => {
                        form.areas.push(
                            FormArea {
                                id: "cert-pem",
                                value: pem_text(body, fields::CERT_DATA),
                                placeholder: "-----BEGIN CERTIFICATE-----",
                            },
                        );
                        let args: Vec<String> = exec::item_texts(&exec_of(body), "args");
                        form.areas.push(
                            FormArea {
                                id: "exec-args",
                                value: text::join(&args, "\n"),
                                placeholder: "one argument per line",
                            },
                        );
                        form.env = build_env(body);
                    },
                    Kind::Context => {},
                }
                assert(areas_view(form.areas@) =~= areas_for(entry.kind, body@));
                assert(env_view(form.env@) =~= env_for(entry.kind, body@));
            }
        }
        form
    }
}

// ----- Changing -----

/// The lines of a text without the space around them, and without empty ones.
pub open spec fn filled_lines(lines: Seq<Seq<char>>) -> Seq<Json>
    decreases lines.len(),
{
    if lines.len() == 0 {
        seq![]
    } else {
        let before = filled_lines(lines.drop_last());
        let line = text::trimmed(lines.last());
        if line.len() == 0 {
            before
        } else {
            before.push(Json::Str(line))
        }
    }
}

/// A list, or none where it is empty.
pub open spec fn list_value(items: Seq<Json>) -> Option<Json> {
    if items.len() == 0 {
        None
    } else {
        Some(Json::Array(items))
    }
}

/// The body with the PEM text of a certificate: none takes it out, any replaces a file.
pub open spec fn with_pem(body: Fields, pem: Seq<char>, file_key: Seq<char>, data_key: Seq<char>) -> Fields {
    if text::trimmed(pem).len() == 0 {
        paths::set(body, seq![data_key], None)
    } else {
        paths::set(
            json::without(body, file_key),
            seq![data_key],
            paths::text_value(
                outside::base64_encoded(vstd::utf8::encode_utf8(text::trimmed(pem) + "\n"@)),
            ),
        )
    }
}

/// The key that a field takes out: a file path replaces inline data and the other way round.
pub open spec fn replaces(id: Seq<char>) -> Option<Seq<char>> {
    if id == "ca-file"@ {
        Some(fields::CA_DATA@)
    } else if id == "cert-file"@ {
        Some(fields::CERT_DATA@)
    } else if id == "key-file"@ {
        Some(fields::KEY_DATA@)
    } else if id == "key-data"@ {
        Some(fields::KEY_FILE@)
    } else {
        None
    }
}

/// What is written of a field's text: a server URL without the space around it.
pub open spec fn written(id: Seq<char>, value: Seq<char>) -> Seq<char> {
    if id == "server"@ {
        text::trimmed(value)
    } else {
        value
    }
}

/// The body after a form field changed.
pub open spec fn changed_body(body: Fields, id: Seq<char>, value: Seq<char>) -> Fields {
    if id == "ca-pem"@ {
        with_pem(body, value, fields::CA_FILE@, fields::CA_DATA@)
    } else if id == "cert-pem"@ {
        with_pem(body, value, fields::CERT_FILE@, fields::CERT_DATA@)
    } else if id == "exec-args"@ {
        paths::set(
            body,
            seq!["exec"@, "args"@],
            list_value(filled_lines(text::text_lines(value))),
        )
    } else {
        match bound_to(id) {
            Some((_, path)) => {
                let cleared = match replaces(id) {
                    Some(key) => paths::set(body, seq![key], None),
                    None => body,
                };
                paths::set(cleared, path, paths::text_value(written(id, value)))
            },
            None => body,
        }
    }
}

/// The PEM text of a certificate was changed: an empty one takes it out, any other replaces a file.
pub fn set_pem(body: &mut Object, value: &str, file_key: &str, data_key: &str)
    ensures
        final(body)@ == with_pem(old(body)@, value@, file_key@, data_key@),
        text::trimmed(value@).len() > 0 ==> pem_shown(final(body)@, data_key@) == text::trimmed(
            value@,
        ) + "\n"@,
{
    assert(text::slices([data_key]@) =~= seq![data_key@]);
    if trim(value).as_str().is_empty() {
        fields::set(body, &[data_key], None);
    } else {
        let data: String = certs::data_from_pem(value);
        let ghost cleared = json::without(body@, file_key@);
        proof {
            paths::set_then_get(cleared, seq![data_key@], Json::Str(data@));
        }
        PemSource::Data(data).write(body, file_key, data_key);
    }
}

fn lines_of(value: &str) -> (r: Vec<Value>)
    ensures
        value::items_view(r@) == filled_lines(text::text_lines(value@)),
{
    broadcast use value::group_items_view;

    let lines: Vec<String> = text::lines(value);
    let ghost all = text::text_lines(value@);
    let mut out: Vec<Value> = Vec::new();
    let mut i: usize = 0;
    assert(all.take(0) =~= seq![]);
    assert(value::items_view(out@) =~= seq![]);
    while i < lines.len()
        invariant
            i <= lines@.len(),
            all == text::texts(lines@),
            value::items_view(out@) == filled_lines(all.take(i as int)),
        decreases lines@.len() - i,
    {
        broadcast use value::group_items_view;

        assert(all.take(i + 1).drop_last() =~= all.take(i as int));
        assert(all.take(i + 1).last() == lines@[i as int]@);
        let line: String = trim(lines[i].as_str());
        if !line.as_str().is_empty() {
            out.push(Value::Str(line));
        }
        i += 1;
    }
    assert(all.take(i as int) =~= all);
    out
}

fn clear(body: &mut Object, key: &str)
    ensures
        final(body)@ == paths::set(old(body)@, seq![key@], None),
{
    assert(text::slices([key]@) =~= seq![key@]);
    fields::set(body, &[key], None);
}

fn change_field(body: &mut Object, id: &str, value: &str)
    ensures
        final(body)@ == changed_body(old(body)@, id@, value@),
{
    if same(id, "ca-pem") {
        set_pem(body, value, fields::CA_FILE, fields::CA_DATA);
    } else if same(id, "cert-pem") {
        set_pem(body, value, fields::CERT_FILE, fields::CERT_DATA);
    } else if same(id, "exec-args") {
        let args: Vec<Value> = lines_of(value);
        let count: usize = args.len();
        assert(value::items_view(args@).len() == args@.len());
        let v: Option<Value> = if count == 0 {
            None
        } else {
            Some(Value::Array(args))
        };
        fields::set(body, &["exec", "args"], v);
        assert(text::slices(["exec", "args"]@) =~= seq!["exec"@, "args"@]);
    } else if let Some((_, path)) = binding(id) {
        if same(id, "ca-file") {
            clear(body, fields::CA_DATA);
        } else if same(id, "cert-file") {
            clear(body, fields::CERT_DATA);
        } else if same(id, "key-file") {
            clear(body, fields::KEY_DATA);
        } else if same(id, "key-data") {
            clear(body, fields::KEY_FILE);
        }
        if same(id, "server") {
            set_str(body, path.as_slice(), trim(value).as_str());
        } else {
            set_str(body, path.as_slice(), value);
        }
    }
}

/// A form field changed: the entry's body with the new value.
pub fn form_changed(doc: &mut Doc, entry: &EntryRef, id: &str, value: &str)
    ensures
        final(doc)@ == edits::with_new_body(
            old(doc)@,
            entry.kind,
            entry.name@,
            changed_body(
                edits::body_or_nothing(old(doc)@, entry.kind, entry.name@),
                id@,
                value@,
            ),
        ),
{
    if let Some(body) = doc.body_mut(entry.kind, entry.name.as_str()) {
        change_field(body, id, value);
    }
}

/// The display name that a text gives a context; none for an empty one.
pub fn display_name(value: &str) -> (r: Option<String>)
    ensures
        text::text_of(r) == if text::trimmed(value@).len() == 0 {
            None
        } else {
            Some(text::trimmed(value@))
        },
{
    let value: String = trim(value);
    if value.as_str().is_empty() {
        None
    } else {
        Some(value)
    }
}

/// The variables of the rows whose names aren't empty.
pub open spec fn variables(rows: Seq<(Seq<char>, Seq<char>)>) -> Seq<Json>
    decreases rows.len(),
{
    if rows.len() == 0 {
        seq![]
    } else {
        let before = variables(rows.drop_last());
        let name = text::trimmed(rows.last().0);
        if name.len() == 0 {
            before
        } else {
            before.push(
                Json::Object(
                    seq![("name"@, Json::Str(name)), ("value"@, Json::Str(rows.last().1))],
                ),
            )
        }
    }
}

fn variables_of(rows: &Vec<(String, String)>) -> (r: Vec<Value>)
    ensures
        value::items_view(r@) == variables(exec::pair_texts(rows@)),
{
    let ghost all = exec::pair_texts(rows@);
    let mut out: Vec<Value> = Vec::new();
    let mut i: usize = 0;
    assert(all.take(0) =~= seq![]);
    assert(value::items_view(out@) =~= seq![]);
    while i < rows.len()
        invariant
            i <= rows@.len(),
            all == exec::pair_texts(rows@),
            value::items_view(out@) == variables(all.take(i as int)),
        decreases rows@.len() - i,
    {
        broadcast use value::group_items_view;

        assert(all.take(i + 1).drop_last() =~= all.take(i as int));
        assert(all.take(i + 1).last() == (rows@[i as int].0@, rows@[i as int].1@));
        let name: String = trim(rows[i].0.as_str());
        if !name.as_str().is_empty() {
            let pairs: Vec<(String, Value)> = vec![
                ("name".to_string(), Value::Str(name)),
                ("value".to_string(), Value::text(rows[i].1.as_str())),
            ];
            proof {
                reveal_strlit("name");
                reveal_strlit("value");
                assert("name"@.len() == 4 && "value"@.len() == 5);
                assert(value::pairs_view(pairs@) =~= seq![
                    ("name"@, Json::Str(name@)),
                    ("value"@, Json::Str(rows@[i as int].1@)),
                ]);
            }
            out.push(Value::Object(Object::of(pairs)));
        }
        i += 1;
    }
    assert(all.take(i as int) =~= all);
    out
}

/// The rows of a plugin's environment changed.
pub fn env_changed(doc: &mut Doc, entry: &EntryRef, rows: &Vec<(String, String)>)
    ensures
        final(doc)@ == edits::with_new_body(
            old(doc)@,
            entry.kind,
            entry.name@,
            paths::set(
                edits::body_or_nothing(old(doc)@, entry.kind, entry.name@),
                seq!["exec"@, "env"@],
                list_value(variables(exec::pair_texts(rows@))),
            ),
        ),
{
    let vars: Vec<Value> = variables_of(rows);
    let count: usize = vars.len();
    assert(value::items_view(vars@).len() == vars@.len());
    let v: Option<Value> = if count == 0 {
        None
    } else {
        Some(Value::Array(vars))
    };
    assert(text::slices(["exec", "env"]@) =~= seq!["exec"@, "env"@]);
    if let Some(body) = doc.body_mut(entry.kind, entry.name.as_str()) {
        fields::set(body, &["exec", "env"], v);
    }
}

// ----- Laws -----

proof fn lemma_bound_ids(id: Seq<char>)
    requires
        bound_to(id) is Some,
    ensures
        id != "ca-pem"@ && id != "cert-pem"@ && id != "exec-args"@,
{
    reveal_strlit("ca-pem");
    reveal_strlit("cert-pem");
    reveal_strlit("exec-args");
    reveal_strlit("server");
    reveal_strlit("tls-server-name");
    reveal_strlit("proxy-url");
    reveal_strlit("ca-file");
    reveal_strlit("namespace");
    reveal_strlit("token");
    reveal_strlit("token-file");
    reveal_strlit("cert-file");
    reveal_strlit("key-file");
    reveal_strlit("key-data");
    reveal_strlit("exec-command");
    reveal_strlit("exec-hint");
    reveal_strlit("oidc-issuer");
    reveal_strlit("oidc-client-id");
    reveal_strlit("oidc-client-secret");
    reveal_strlit("oidc-scopes");
    reveal_strlit("username");
    reveal_strlit("password");
    let a = "ca-pem"@;
    let b = "cert-pem"@;
    let c = "exec-args"@;
    assert(a.len() == 6 && b.len() == 8 && c.len() == 9);
    assert(a[0] == 'c' && b[0] == 'c' && c[0] == 'e' && c[5] == 'a');
    assert("server"@[0] == 's' && "username"@[0] == 'u' && "password"@[0] == 'p');
    assert("key-file"@[0] == 'k' && "key-data"@[0] == 'k');
    assert("proxy-url"@[0] == 'p' && "namespace"@[0] == 'n' && "cert-file"@[0] == 'c');
    assert("exec-hint"@[0] == 'e' && "exec-hint"@[5] == 'h');
}

/// What is typed into a text field is what the field shows of the changed document (a server URL
/// without the space around it).
pub proof fn a_typed_value_is_read_back(body: Fields, id: Seq<char>, value: Seq<char>)
    requires
        bound_to(id) is Some,
        json::fields_well_formed(body),
    ensures
        shown_in(changed_body(body, id, value), id) == written(id, value),
{
    lemma_bound_ids(id);
    if let Some((_, path)) = bound_to(id) {
        let cleared = match replaces(id) {
            Some(key) => paths::set(body, seq![key], None),
            None => body,
        };
        if let Some(key) = replaces(id) {
            paths::set_keeps_well_formed(body, seq![key], None);
        }
        let v = written(id, value);
        if v.len() == 0 {
            paths::remove_then_get(cleared, path);
            assert(v =~= seq![]);
        } else {
            paths::set_then_get(cleared, path, Json::Str(v));
        }
    }
}

proof fn lemma_pem_keys()
    ensures
        fields::CA_FILE@ != fields::CA_DATA@,
        fields::CERT_FILE@ != fields::CERT_DATA@,
        fields::KEY_FILE@ != fields::KEY_DATA@,
{
    reveal_strlit("certificate-authority");
    reveal_strlit("certificate-authority-data");
    reveal_strlit("client-certificate");
    reveal_strlit("client-certificate-data");
    reveal_strlit("client-key");
    reveal_strlit("client-key-data");
    assert(fields::CA_FILE@.len() != fields::CA_DATA@.len());
    assert(fields::CERT_FILE@.len() != fields::CERT_DATA@.len());
    assert(fields::KEY_FILE@.len() != fields::KEY_DATA@.len());
}

/// A file path replaces inline data and the other way round: the key that a field replaces is
/// gone.
pub proof fn files_and_data_replace_each_other(body: Fields, id: Seq<char>, value: Seq<char>)
    requires
        replaces(id) is Some,
        json::fields_well_formed(body),
    ensures
        !json::has_key(changed_body(body, id, value), replaces(id)->0),
{
    let key = replaces(id)->0;
    lemma_pem_keys();
    lemma_pem_ids(id);
    let cleared = paths::set(body, seq![key], None);
    json::without_then_field(body, key);
    json::lemma_key_index(body, key);
    assert(!json::has_key(cleared, key));
    paths::set_keeps_well_formed(body, seq![key], None);
    if let Some((_, path)) = bound_to(id) {
        paths::set_keeps_other_keys(cleared, path, paths::text_value(value), key);
        json::lemma_key_index(changed_body(body, id, value), key);
    }
}

proof fn lemma_pem_ids(id: Seq<char>)
    requires
        replaces(id) is Some,
    ensures
        id == "ca-file"@ ==> bound_to(id) == Some((Kind::Cluster, seq![fields::CA_FILE@])),
        id == "cert-file"@ ==> bound_to(id) == Some((Kind::User, seq![fields::CERT_FILE@])),
        id == "key-file"@ ==> bound_to(id) == Some((Kind::User, seq![fields::KEY_FILE@])),
        id == "key-data"@ ==> bound_to(id) == Some((Kind::User, seq![fields::KEY_DATA@])),
        id != "server"@ && id != "ca-pem"@ && id != "cert-pem"@ && id != "exec-args"@,
        (id == "ca-file"@ && replaces(id) == Some(fields::CA_DATA@)) || (id == "cert-file"@
            && replaces(id) == Some(fields::CERT_DATA@)) || (id == "key-file"@ && replaces(id)
            == Some(fields::KEY_DATA@)) || (id == "key-data"@ && replaces(id) == Some(
            fields::KEY_FILE@,
        )),
{
    reveal_strlit("server");
    reveal_strlit("tls-server-name");
    reveal_strlit("proxy-url");
    reveal_strlit("ca-file");
    reveal_strlit("namespace");
    reveal_strlit("token");
    reveal_strlit("token-file");
    reveal_strlit("cert-file");
    reveal_strlit("key-file");
    reveal_strlit("key-data");
    assert("ca-file"@.len() == 7 && "cert-file"@.len() == 9 && "key-file"@.len() == 8
        && "key-data"@.len() == 8);
    assert("server"@.len() == 6 && "tls-server-name"@.len() == 15 && "proxy-url"@.len() == 9
        && "namespace"@.len() == 9 && "token"@.len() == 5 && "token-file"@.len() == 10);
    assert("cert-file"@[0] == 'c' && "proxy-url"@[0] == 'p' && "namespace"@[0] == 'n');
    assert("key-file"@[4] == 'f' && "key-data"@[4] == 'd');
    lemma_bound_ids(id);
}

} // verus!
