//! The kubeconfig schema for the YAML tab: an OpenAPI v3 document like the ones the API server
//! serves, so validation, hover docs and completion work on kubeconfigs (`apiVersion: v1`,
//! `kind: Config`). Written from client-go's `clientcmd/api/v1` types.

use crate::json::{self, Fields, Json};
use crate::text::{self, cat};
use crate::value::{self, Object, Value};
use vstd::prelude::*;

verus! {

/// The group, version and kind of a kubeconfig document.
pub fn gvk() -> (r: (&'static str, &'static str, &'static str))
    ensures
        (r.0@, r.1@, r.2@) == (""@, "v1"@, "Config"@),
{
    ("", "v1", "Config")
}

/// A label for hover popups.
pub const SOURCE: &'static str = "kubeconfig (client-go clientcmd/api/v1)";

// ----- Building -----

/// An object with these fields, one put after the other.
pub open spec fn fields_of(pairs: Seq<(Seq<char>, Json)>) -> Fields
    decreases pairs.len(),
{
    if pairs.len() == 0 {
        seq![]
    } else {
        json::put(fields_of(pairs.drop_last()), pairs.last().0, pairs.last().1)
    }
}

pub open spec fn object_of(pairs: Seq<(Seq<char>, Json)>) -> Json {
    Json::Object(fields_of(pairs))
}

pub open spec fn pairs_of(v: Seq<(&'static str, Value)>) -> Seq<(Seq<char>, Json)> {
    Seq::new(v.len(), |i: int| (v[i].0@, v[i].1@))
}

pub(crate) fn object(pairs: Vec<(&'static str, Value)>) -> (r: Value)
    ensures
        r@ == object_of(pairs_of(pairs@)),
{
    let ghost all = pairs_of(pairs@);
    let mut o: Object = Object::new();
    let mut i: usize = 0;
    assert(all.take(0) =~= seq![]);
    assert(o@ =~= seq![]);
    while i < pairs.len()
        invariant
            i <= pairs@.len(),
            all == pairs_of(pairs@),
            o@ == fields_of(all.take(i as int)),
        decreases pairs@.len() - i,
    {
        assert(all.take(i + 1).drop_last() =~= all.take(i as int));
        assert(all.take(i + 1).last() == (pairs@[i as int].0@, pairs@[i as int].1@));
        o.insert(pairs[i].0, pairs[i].1.clone());
        i += 1;
    }
    assert(all.take(i as int) =~= all);
    Value::Object(o)
}

/// A list of texts.
pub open spec fn texts_of(v: Seq<Seq<char>>) -> Json {
    Json::Array(Seq::new(v.len(), |i: int| Json::Str(v[i])))
}

fn list(items: Vec<Value>) -> (r: Value)
    ensures
        r@ == Json::Array(value::items_view(items@)),
{
    Value::Array(items)
}

fn texts(v: Vec<&'static str>) -> (r: Value)
    ensures
        r@ == texts_of(text::slices(v@)),
{
    let mut out: Vec<Value> = Vec::new();
    let ghost wanted = Seq::new(v@.len(), |i: int| Json::Str(text::slices(v@)[i]));
    let mut i: usize = 0;
    assert(value::items_view(out@) =~= wanted.take(0));
    while i < v.len()
        invariant
            i <= v@.len(),
            wanted == Seq::new(v@.len(), |i: int| Json::Str(text::slices(v@)[i])),
            value::items_view(out@) == wanted.take(i as int),
        decreases v@.len() - i,
    {
        broadcast use value::group_items_view;

        out.push(Value::text(v[i]));
        assert(wanted.take(i + 1) =~= wanted.take(i as int).push(wanted[i as int]));
        i += 1;
    }
    assert(wanted.take(i as int) =~= wanted);
    Value::Array(out)
}

// ----- Kinds of schemas -----

/// A schema of a type, with a description.
pub open spec fn text_schema(of: Seq<char>, description: Seq<char>) -> Json {
    object_of(seq![("type"@, Json::Str(of)), ("description"@, Json::Str(description))])
}

fn described(of: &'static str, description: &'static str) -> (r: Value)
    ensures
        r@ == text_schema(of@, description@),
{
    let pairs: Vec<(&'static str, Value)> = vec![
        ("type", Value::text(of)),
        ("description", Value::text(description)),
    ];
    assert(pairs_of(pairs@) =~= seq![
        ("type"@, Json::Str(of@)),
        ("description"@, Json::Str(description@)),
    ]);
    object(pairs)
}

/// A schema of a type.
pub open spec fn type_schema(of: Seq<char>) -> Json {
    object_of(seq![("type"@, Json::Str(of))])
}

fn of_type(of: &'static str) -> (r: Value)
    ensures
        r@ == type_schema(of@),
{
    let pairs: Vec<(&'static str, Value)> = vec![("type", Value::text(of))];
    assert(pairs_of(pairs@) =~= seq![("type"@, Json::Str(of@))]);
    object(pairs)
}

/// A reference to another schema.
pub open spec fn reference_schema(name: Seq<char>) -> Json {
    object_of(seq![("$ref"@, Json::Str("#/components/schemas/"@ + name))])
}

fn reference(name: &'static str) -> (r: Value)
    ensures
        r@ == reference_schema(name@),
{
    let pairs: Vec<(&'static str, Value)> = vec![
        ("$ref", Value::Str(cat("#/components/schemas/", name))),
    ];
    assert(pairs_of(pairs@) =~= seq![("$ref"@, Json::Str("#/components/schemas/"@ + name@))]);
    object(pairs)
}

/// A list.
pub open spec fn array_schema(description: Seq<char>, items: Json) -> Json {
    object_of(
        seq![
            ("type"@, Json::Str("array"@)),
            ("description"@, Json::Str(description)),
            ("items"@, items),
        ],
    )
}

fn array(description: &'static str, items: Value) -> (r: Value)
    ensures
        r@ == array_schema(description@, items@),
{
    let ghost of = items@;
    let pairs: Vec<(&'static str, Value)> = vec![
        ("type", Value::text("array")),
        ("description", Value::text(description)),
        ("items", items),
    ];
    assert(pairs_of(pairs@) =~= seq![
        ("type"@, Json::Str("array"@)),
        ("description"@, Json::Str(description@)),
        ("items"@, of),
    ]);
    object(pairs)
}

/// A text out of a few.
pub open spec fn choice_schema(description: Seq<char>, choices: Json) -> Json {
    object_of(
        seq![
            ("type"@, Json::Str("string"@)),
            ("description"@, Json::Str(description)),
            ("enum"@, choices),
        ],
    )
}

fn choice(description: &'static str, choices: Value) -> (r: Value)
    ensures
        r@ == choice_schema(description@, choices@),
{
    let ghost of = choices@;
    let pairs: Vec<(&'static str, Value)> = vec![
        ("type", Value::text("string")),
        ("description", Value::text(description)),
        ("enum", choices),
    ];
    assert(pairs_of(pairs@) =~= seq![
        ("type"@, Json::Str("string"@)),
        ("description"@, Json::Str(description@)),
        ("enum"@, of),
    ]);
    object(pairs)
}

/// An object with any fields.
pub open spec fn any_schema(description: Seq<char>) -> Json {
    object_of(
        seq![
            ("type"@, Json::Str("object"@)),
            ("description"@, Json::Str(description)),
            ("x-kubernetes-preserve-unknown-fields"@, Json::Bool(true)),
        ],
    )
}

fn any(description: &'static str) -> (r: Value)
    ensures
        r@ == any_schema(description@),
{
    let pairs: Vec<(&'static str, Value)> = vec![
        ("type", Value::text("object")),
        ("description", Value::text(description)),
        ("x-kubernetes-preserve-unknown-fields", Value::Bool(true)),
    ];
    assert(pairs_of(pairs@) =~= seq![
        ("type"@, Json::Str("object"@)),
        ("description"@, Json::Str(description@)),
        ("x-kubernetes-preserve-unknown-fields"@, Json::Bool(true)),
    ]);
    object(pairs)
}

/// An object with values of one kind.
pub open spec fn map_schema(description: Seq<char>, values: Json) -> Json {
    object_of(
        seq![
            ("type"@, Json::Str("object"@)),
            ("description"@, Json::Str(description)),
            ("additionalProperties"@, values),
        ],
    )
}

fn map_of(description: &'static str, values: Value) -> (r: Value)
    ensures
        r@ == map_schema(description@, values@),
{
    let ghost of = values@;
    let pairs: Vec<(&'static str, Value)> = vec![
        ("type", Value::text("object")),
        ("description", Value::text(description)),
        ("additionalProperties", values),
    ];
    assert(pairs_of(pairs@) =~= seq![
        ("type"@, Json::Str("object"@)),
        ("description"@, Json::Str(description@)),
        ("additionalProperties"@, of),
    ]);
    object(pairs)
}

/// A list of texts, without a description.
pub open spec fn text_list_schema() -> Json {
    object_of(seq![("type"@, Json::Str("array"@)), ("items"@, type_schema("string"@))])
}

fn text_list() -> (r: Value)
    ensures
        r@ == text_list_schema(),
{
    let pairs: Vec<(&'static str, Value)> = vec![
        ("type", Value::text("array")),
        ("items", of_type("string")),
    ];
    assert(pairs_of(pairs@) =~= seq![
        ("type"@, Json::Str("array"@)),
        ("items"@, type_schema("string"@)),
    ]);
    object(pairs)
}

/// An object with these fields, some of which it must have.
pub open spec fn object_schema(required: Option<Json>, description: Option<Seq<char>>, properties: Json) -> Json {
    object_of(
        seq![("type"@, Json::Str("object"@))] + (match required {
            Some(r) => seq![("required"@, r)],
            None => seq![],
        }) + (match description {
            Some(d) => seq![("description"@, Json::Str(d))],
            None => seq![],
        }) + seq![("properties"@, properties)],
    )
}

fn schema(required: Option<Value>, description: Option<&'static str>, properties: Value) -> (r: Value)
    ensures
        r@ == object_schema(
            match required {
                Some(v) => Some(v@),
                None => None,
            },
            match description {
                Some(d) => Some(d@),
                None => None,
            },
            properties@,
        ),
{
    let ghost must = match &required {
        Some(v) => seq![("required"@, v@)],
        None => seq![],
    };
    let ghost wanted = seq![("type"@, Json::Str("object"@))] + must + (match description {
        Some(d) => seq![("description"@, Json::Str(d@))],
        None => seq![],
    }) + seq![("properties"@, properties@)];
    let mut pairs: Vec<(&'static str, Value)> = vec![("type", Value::text("object"))];
    if let Some(r) = required {
        pairs.push(("required", r));
    }
    if let Some(d) = description {
        pairs.push(("description", Value::text(d)));
    }
    pairs.push(("properties", properties));
    assert(pairs_of(pairs@) =~= wanted);
    object(pairs)
}

/// An entry of a list: its name and its body.
pub open spec fn named_schema(
    name_description: Seq<char>,
    key: Seq<char>,
    reference: Seq<char>,
    body_description: Seq<char>,
) -> Json {
    object_schema(
        Some(texts_of(seq!["name"@, key])),
        None,
        object_of(
            seq![
                ("name"@, text_schema("string"@, name_description)),
                (
                    key,
                    object_of(
                        seq![
                            ("allOf"@, Json::Array(seq![reference_schema(reference)])),
                            ("description"@, Json::Str(body_description)),
                        ],
                    ),
                ),
            ],
        ),
    )
}

fn named(
    name_description: &'static str,
    key: &'static str,
    to: &'static str,
    body_description: &'static str,
) -> (r: Value)
    ensures
        r@ == named_schema(name_description@, key@, to@, body_description@),
{
    let all: Vec<Value> = vec![reference(to)];
    assert(value::items_view(all@) =~= seq![reference_schema(to@)]);
    let body_pairs: Vec<(&'static str, Value)> = vec![
        ("allOf", list(all)),
        ("description", Value::text(body_description)),
    ];
    assert(pairs_of(body_pairs@) =~= seq![
        ("allOf"@, Json::Array(seq![reference_schema(to@)])),
        ("description"@, Json::Str(body_description@)),
    ]);
    let body: Value = object(body_pairs);
    let ghost of = body@;
    let pairs: Vec<(&'static str, Value)> = vec![
        ("name", described("string", name_description)),
        (key, body),
    ];
    assert(pairs_of(pairs@) =~= seq![
        ("name"@, text_schema("string"@, name_description@)),
        (key@, of),
    ]);
    let required: Vec<&'static str> = vec!["name", key];
    assert(text::slices(required@) =~= seq!["name"@, key@]);
    schema(Some(texts(required)), None, object(pairs))
}

/// The extensions of something.
pub open spec fn extensions_schema() -> Json {
    array_schema(
        "Additional information for extenders; kept as they are."@,
        reference_schema("NamedExtension"@),
    )
}

fn extensions() -> (r: Value)
    ensures
        r@ == extensions_schema(),
{
    array(
        "Additional information for extenders; kept as they are.",
        reference("NamedExtension"),
    )
}

// ----- The document -----

/// The versions of the plugin API.
pub open spec fn api_versions_schema() -> Json {
    texts_of(seq!["client.authentication.k8s.io/v1"@, "client.authentication.k8s.io/v1beta1"@, "client.authentication.k8s.io/v1alpha1"@])
}

fn api_versions() -> (r: Value)
    ensures
        r@ == api_versions_schema(),
{
    let v: Vec<&'static str> = vec!["client.authentication.k8s.io/v1", "client.authentication.k8s.io/v1beta1", "client.authentication.k8s.io/v1alpha1"];
    assert(text::slices(v@) =~= seq!["client.authentication.k8s.io/v1"@, "client.authentication.k8s.io/v1beta1"@, "client.authentication.k8s.io/v1alpha1"@]);
    texts(v)
}

/// Whether a plugin may prompt.
pub open spec fn modes_schema() -> Json {
    texts_of(seq!["Never"@, "IfAvailable"@, "Always"@])
}

fn modes() -> (r: Value)
    ensures
        r@ == modes_schema(),
{
    let v: Vec<&'static str> = vec!["Never", "IfAvailable", "Always"];
    assert(text::slices(v@) =~= seq!["Never"@, "IfAvailable"@, "Always"@]);
    texts(v)
}

/// What a cluster must have.
pub open spec fn server_required_schema() -> Json {
    texts_of(seq!["server"@])
}

fn server_required() -> (r: Value)
    ensures
        r@ == server_required_schema(),
{
    let v: Vec<&'static str> = vec!["server"];
    assert(text::slices(v@) =~= seq!["server"@]);
    texts(v)
}

/// What a context must have.
pub open spec fn cluster_required_schema() -> Json {
    texts_of(seq!["cluster"@])
}

fn cluster_required() -> (r: Value)
    ensures
        r@ == cluster_required_schema(),
{
    let v: Vec<&'static str> = vec!["cluster"];
    assert(text::slices(v@) =~= seq!["cluster"@]);
    texts(v)
}

/// What a provider must have.
pub open spec fn name_required_schema() -> Json {
    texts_of(seq!["name"@])
}

fn name_required() -> (r: Value)
    ensures
        r@ == name_required_schema(),
{
    let v: Vec<&'static str> = vec!["name"];
    assert(text::slices(v@) =~= seq!["name"@]);
    texts(v)
}

/// What a plugin must have.
pub open spec fn exec_required_schema() -> Json {
    texts_of(seq!["command"@, "apiVersion"@])
}

fn exec_required() -> (r: Value)
    ensures
        r@ == exec_required_schema(),
{
    let v: Vec<&'static str> = vec!["command", "apiVersion"];
    assert(text::slices(v@) =~= seq!["command"@, "apiVersion"@]);
    texts(v)
}

/// What a variable must have.
pub open spec fn variable_required_schema() -> Json {
    texts_of(seq!["name"@, "value"@])
}

fn variable_required() -> (r: Value)
    ensures
        r@ == variable_required_schema(),
{
    let v: Vec<&'static str> = vec!["name", "value"];
    assert(text::slices(v@) =~= seq!["name"@, "value"@]);
    texts(v)
}

/// What an extension must have.
pub open spec fn extension_required_schema() -> Json {
    texts_of(seq!["name"@, "extension"@])
}

fn extension_required() -> (r: Value)
    ensures
        r@ == extension_required_schema(),
{
    let v: Vec<&'static str> = vec!["name", "extension"];
    assert(text::slices(v@) =~= seq!["name"@, "extension"@]);
    texts(v)
}

/// The kind that a schema is of.
pub open spec fn config_kind_schema() -> Json {
    object_of(
        seq![
            ("group"@, Json::Str(""@)),
            ("version"@, Json::Str("v1"@)),
            ("kind"@, Json::Str("Config"@)),
        ],
    )
}

fn config_kind() -> (r: Value)
    ensures
        r@ == config_kind_schema(),
{
    let pairs: Vec<(&'static str, Value)> = vec![
        ("group", Value::text("")),
        ("version", Value::text("v1")),
        ("kind", Value::text("Config")),
    ];
    assert(pairs_of(pairs@) =~= seq![
        ("group"@, Json::Str(""@)),
        ("version"@, Json::Str("v1"@)),
        ("kind"@, Json::Str("Config"@)),
    ]);
    object(pairs)
}

/// The fields of a kubeconfig.
pub open spec fn config_fields_schema() -> Json {
    object_of(
        seq![
            ("apiVersion"@, text_schema("string"@, "Always v1."@)),
            ("kind"@, text_schema("string"@, "Always Config."@)),
            ("preferences"@, any_schema("Legacy kubectl preferences."@)),
            ("clusters"@, array_schema("Named clusters: API server address and how to verify it."@, reference_schema("NamedCluster"@))),
            ("users"@, array_schema("Named users: credentials for API servers."@, reference_schema("NamedAuthInfo"@))),
            ("contexts"@, array_schema("Named contexts: a cluster, a user and a default namespace."@, reference_schema("NamedContext"@))),
            ("current-context"@, text_schema("string"@, "The context kubectl uses by default."@)),
            ("extensions"@, extensions_schema()),
        ],
    )
}

fn config_fields() -> (r: Value)
    ensures
        r@ == config_fields_schema(),
{
    let pairs: Vec<(&'static str, Value)> = vec![
        ("apiVersion", described("string", "Always v1.")),
        ("kind", described("string", "Always Config.")),
        ("preferences", any("Legacy kubectl preferences.")),
        ("clusters", array("Named clusters: API server address and how to verify it.", reference("NamedCluster"))),
        ("users", array("Named users: credentials for API servers.", reference("NamedAuthInfo"))),
        ("contexts", array("Named contexts: a cluster, a user and a default namespace.", reference("NamedContext"))),
        ("current-context", described("string", "The context kubectl uses by default.")),
        ("extensions", extensions()),
    ];
    assert(pairs_of(pairs@) =~= seq![
        ("apiVersion"@, text_schema("string"@, "Always v1."@)),
        ("kind"@, text_schema("string"@, "Always Config."@)),
        ("preferences"@, any_schema("Legacy kubectl preferences."@)),
        ("clusters"@, array_schema("Named clusters: API server address and how to verify it."@, reference_schema("NamedCluster"@))),
        ("users"@, array_schema("Named users: credentials for API servers."@, reference_schema("NamedAuthInfo"@))),
        ("contexts"@, array_schema("Named contexts: a cluster, a user and a default namespace."@, reference_schema("NamedContext"@))),
        ("current-context"@, text_schema("string"@, "The context kubectl uses by default."@)),
        ("extensions"@, extensions_schema()),
    ]);
    object(pairs)
}

/// The fields of a cluster.
pub open spec fn cluster_fields_schema() -> Json {
    object_of(
        seq![
            ("server"@, text_schema("string"@, "The API server's address (https://host:port)."@)),
            ("tls-server-name"@, text_schema("string"@, "The name the server's certificate is checked against, when it differs from the host of `server`."@)),
            ("insecure-skip-tls-verify"@, text_schema("boolean"@, "Don't verify the server's certificate. Insecure: anyone on the network path can read your credentials."@)),
            ("certificate-authority"@, text_schema("string"@, "Path to a PEM file with the CA that signed the server's certificate."@)),
            ("certificate-authority-data"@, text_schema("string"@, "The CA certificate (PEM, base64-encoded). Overrides certificate-authority."@)),
            ("proxy-url"@, text_schema("string"@, "An http, https or socks5 proxy for requests to this cluster."@)),
            ("disable-compression"@, text_schema("boolean"@, "Don't request compressed responses."@)),
            ("extensions"@, extensions_schema()),
        ],
    )
}

fn cluster_fields() -> (r: Value)
    ensures
        r@ == cluster_fields_schema(),
{
    let pairs: Vec<(&'static str, Value)> = vec![
        ("server", described("string", "The API server's address (https://host:port).")),
        ("tls-server-name", described("string", "The name the server's certificate is checked against, when it differs from the host of `server`.")),
        ("insecure-skip-tls-verify", described("boolean", "Don't verify the server's certificate. Insecure: anyone on the network path can read your credentials.")),
        ("certificate-authority", described("string", "Path to a PEM file with the CA that signed the server's certificate.")),
        ("certificate-authority-data", described("string", "The CA certificate (PEM, base64-encoded). Overrides certificate-authority.")),
        ("proxy-url", described("string", "An http, https or socks5 proxy for requests to this cluster.")),
        ("disable-compression", described("boolean", "Don't request compressed responses.")),
        ("extensions", extensions()),
    ];
    assert(pairs_of(pairs@) =~= seq![
        ("server"@, text_schema("string"@, "The API server's address (https://host:port)."@)),
        ("tls-server-name"@, text_schema("string"@, "The name the server's certificate is checked against, when it differs from the host of `server`."@)),
        ("insecure-skip-tls-verify"@, text_schema("boolean"@, "Don't verify the server's certificate. Insecure: anyone on the network path can read your credentials."@)),
        ("certificate-authority"@, text_schema("string"@, "Path to a PEM file with the CA that signed the server's certificate."@)),
        ("certificate-authority-data"@, text_schema("string"@, "The CA certificate (PEM, base64-encoded). Overrides certificate-authority."@)),
        ("proxy-url"@, text_schema("string"@, "An http, https or socks5 proxy for requests to this cluster."@)),
        ("disable-compression"@, text_schema("boolean"@, "Don't request compressed responses."@)),
        ("extensions"@, extensions_schema()),
    ]);
    object(pairs)
}

/// The fields of a context.
pub open spec fn context_fields_schema() -> Json {
    object_of(
        seq![
            ("cluster"@, text_schema("string"@, "The name of a cluster in this file."@)),
            ("user"@, text_schema("string"@, "The name of a user in this file."@)),
            ("namespace"@, text_schema("string"@, "The default namespace."@)),
            ("extensions"@, extensions_schema()),
        ],
    )
}

fn context_fields() -> (r: Value)
    ensures
        r@ == context_fields_schema(),
{
    let pairs: Vec<(&'static str, Value)> = vec![
        ("cluster", described("string", "The name of a cluster in this file.")),
        ("user", described("string", "The name of a user in this file.")),
        ("namespace", described("string", "The default namespace.")),
        ("extensions", extensions()),
    ];
    assert(pairs_of(pairs@) =~= seq![
        ("cluster"@, text_schema("string"@, "The name of a cluster in this file."@)),
        ("user"@, text_schema("string"@, "The name of a user in this file."@)),
        ("namespace"@, text_schema("string"@, "The default namespace."@)),
        ("extensions"@, extensions_schema()),
    ]);
    object(pairs)
}

/// The fields of a user.
pub open spec fn user_fields_schema() -> Json {
    object_of(
        seq![
            ("client-certificate"@, text_schema("string"@, "Path to a PEM client certificate."@)),
            ("client-certificate-data"@, text_schema("string"@, "A PEM client certificate, base64-encoded."@)),
            ("client-key"@, text_schema("string"@, "Path to the PEM key of the client certificate."@)),
            ("client-key-data"@, text_schema("string"@, "The PEM key of the client certificate, base64-encoded. Secret."@)),
            ("token"@, text_schema("string"@, "A bearer token. Secret."@)),
            ("tokenFile"@, text_schema("string"@, "Path to a file with a bearer token (read on every use)."@)),
            ("as"@, text_schema("string"@, "A user to impersonate."@)),
            ("as-uid"@, text_schema("string"@, "A UID to impersonate."@)),
            ("as-groups"@, array_schema("Groups to impersonate."@, type_schema("string"@))),
            ("as-user-extra"@, map_schema("Extra fields to impersonate."@, text_list_schema())),
            ("username"@, text_schema("string"@, "Basic auth user name (removed in Kubernetes 1.19)."@)),
            ("password"@, text_schema("string"@, "Basic auth password. Secret."@)),
            ("auth-provider"@, reference_schema("AuthProviderConfig"@)),
            ("exec"@, reference_schema("ExecConfig"@)),
            ("extensions"@, extensions_schema()),
        ],
    )
}

fn user_fields() -> (r: Value)
    ensures
        r@ == user_fields_schema(),
{
    let pairs: Vec<(&'static str, Value)> = vec![
        ("client-certificate", described("string", "Path to a PEM client certificate.")),
        ("client-certificate-data", described("string", "A PEM client certificate, base64-encoded.")),
        ("client-key", described("string", "Path to the PEM key of the client certificate.")),
        ("client-key-data", described("string", "The PEM key of the client certificate, base64-encoded. Secret.")),
        ("token", described("string", "A bearer token. Secret.")),
        ("tokenFile", described("string", "Path to a file with a bearer token (read on every use).")),
        ("as", described("string", "A user to impersonate.")),
        ("as-uid", described("string", "A UID to impersonate.")),
        ("as-groups", array("Groups to impersonate.", of_type("string"))),
        ("as-user-extra", map_of("Extra fields to impersonate.", text_list())),
        ("username", described("string", "Basic auth user name (removed in Kubernetes 1.19).")),
        ("password", described("string", "Basic auth password. Secret.")),
        ("auth-provider", reference("AuthProviderConfig")),
        ("exec", reference("ExecConfig")),
        ("extensions", extensions()),
    ];
    assert(pairs_of(pairs@) =~= seq![
        ("client-certificate"@, text_schema("string"@, "Path to a PEM client certificate."@)),
        ("client-certificate-data"@, text_schema("string"@, "A PEM client certificate, base64-encoded."@)),
        ("client-key"@, text_schema("string"@, "Path to the PEM key of the client certificate."@)),
        ("client-key-data"@, text_schema("string"@, "The PEM key of the client certificate, base64-encoded. Secret."@)),
        ("token"@, text_schema("string"@, "A bearer token. Secret."@)),
        ("tokenFile"@, text_schema("string"@, "Path to a file with a bearer token (read on every use)."@)),
        ("as"@, text_schema("string"@, "A user to impersonate."@)),
        ("as-uid"@, text_schema("string"@, "A UID to impersonate."@)),
        ("as-groups"@, array_schema("Groups to impersonate."@, type_schema("string"@))),
        ("as-user-extra"@, map_schema("Extra fields to impersonate."@, text_list_schema())),
        ("username"@, text_schema("string"@, "Basic auth user name (removed in Kubernetes 1.19)."@)),
        ("password"@, text_schema("string"@, "Basic auth password. Secret."@)),
        ("auth-provider"@, reference_schema("AuthProviderConfig"@)),
        ("exec"@, reference_schema("ExecConfig"@)),
        ("extensions"@, extensions_schema()),
    ]);
    object(pairs)
}

/// The fields of an auth provider.
pub open spec fn provider_fields_schema() -> Json {
    object_of(
        seq![
            ("name"@, text_schema("string"@, "oidc, gcp or azure."@)),
            ("config"@, map_schema("Provider settings (idp-issuer-url, client-id, client-secret, extra-scopes, id-token, refresh-token…)."@, type_schema("string"@))),
        ],
    )
}

fn provider_fields() -> (r: Value)
    ensures
        r@ == provider_fields_schema(),
{
    let pairs: Vec<(&'static str, Value)> = vec![
        ("name", described("string", "oidc, gcp or azure.")),
        ("config", map_of("Provider settings (idp-issuer-url, client-id, client-secret, extra-scopes, id-token, refresh-token…).", of_type("string"))),
    ];
    assert(pairs_of(pairs@) =~= seq![
        ("name"@, text_schema("string"@, "oidc, gcp or azure."@)),
        ("config"@, map_schema("Provider settings (idp-issuer-url, client-id, client-secret, extra-scopes, id-token, refresh-token…)."@, type_schema("string"@))),
    ]);
    object(pairs)
}

/// The fields of a credential plugin.
pub open spec fn exec_fields_schema() -> Json {
    object_of(
        seq![
            ("command"@, text_schema("string"@, "The program to run (looked up in PATH)."@)),
            ("args"@, array_schema("Arguments."@, type_schema("string"@))),
            ("env"@, array_schema("Extra environment variables."@, reference_schema("ExecEnvVar"@))),
            ("apiVersion"@, choice_schema("The ExecCredential API version the plugin speaks."@, api_versions_schema())),
            ("installHint"@, text_schema("string"@, "Shown when the program isn't installed."@)),
            ("provideClusterInfo"@, text_schema("boolean"@, "Pass the cluster's details to the plugin (KUBERNETES_EXEC_INFO)."@)),
            ("interactiveMode"@, choice_schema("Whether the plugin may prompt: Never, IfAvailable or Always."@, modes_schema())),
        ],
    )
}

fn exec_fields() -> (r: Value)
    ensures
        r@ == exec_fields_schema(),
{
    let pairs: Vec<(&'static str, Value)> = vec![
        ("command", described("string", "The program to run (looked up in PATH).")),
        ("args", array("Arguments.", of_type("string"))),
        ("env", array("Extra environment variables.", reference("ExecEnvVar"))),
        ("apiVersion", choice("The ExecCredential API version the plugin speaks.", api_versions())),
        ("installHint", described("string", "Shown when the program isn't installed.")),
        ("provideClusterInfo", described("boolean", "Pass the cluster's details to the plugin (KUBERNETES_EXEC_INFO).")),
        ("interactiveMode", choice("Whether the plugin may prompt: Never, IfAvailable or Always.", modes())),
    ];
    assert(pairs_of(pairs@) =~= seq![
        ("command"@, text_schema("string"@, "The program to run (looked up in PATH)."@)),
        ("args"@, array_schema("Arguments."@, type_schema("string"@))),
        ("env"@, array_schema("Extra environment variables."@, reference_schema("ExecEnvVar"@))),
        ("apiVersion"@, choice_schema("The ExecCredential API version the plugin speaks."@, api_versions_schema())),
        ("installHint"@, text_schema("string"@, "Shown when the program isn't installed."@)),
        ("provideClusterInfo"@, text_schema("boolean"@, "Pass the cluster's details to the plugin (KUBERNETES_EXEC_INFO)."@)),
        ("interactiveMode"@, choice_schema("Whether the plugin may prompt: Never, IfAvailable or Always."@, modes_schema())),
    ]);
    object(pairs)
}

/// The fields of an environment variable.
pub open spec fn variable_fields_schema() -> Json {
    object_of(
        seq![
            ("name"@, text_schema("string"@, "Variable name."@)),
            ("value"@, text_schema("string"@, "Value."@)),
        ],
    )
}

fn variable_fields() -> (r: Value)
    ensures
        r@ == variable_fields_schema(),
{
    let pairs: Vec<(&'static str, Value)> = vec![
        ("name", described("string", "Variable name.")),
        ("value", described("string", "Value.")),
    ];
    assert(pairs_of(pairs@) =~= seq![
        ("name"@, text_schema("string"@, "Variable name."@)),
        ("value"@, text_schema("string"@, "Value."@)),
    ]);
    object(pairs)
}

/// The fields of an extension.
pub open spec fn extension_fields_schema() -> Json {
    object_of(
        seq![
            ("name"@, text_schema("string"@, "The extension's name."@)),
            ("extension"@, any_schema("Anything."@)),
        ],
    )
}

fn extension_fields() -> (r: Value)
    ensures
        r@ == extension_fields_schema(),
{
    let pairs: Vec<(&'static str, Value)> = vec![
        ("name", described("string", "The extension's name.")),
        ("extension", any("Anything.")),
    ];
    assert(pairs_of(pairs@) =~= seq![
        ("name"@, text_schema("string"@, "The extension's name."@)),
        ("extension"@, any_schema("Anything."@)),
    ]);
    object(pairs)
}

/// The schema of a kubeconfig.
pub open spec fn config_schema() -> Json {
    object_of(
        seq![
            ("type"@, Json::Str("object"@)),
            (
                "description"@,
                Json::Str(
                    "A kubeconfig: how to reach clusters (clusters), who you are (users) and which pairs to use (contexts)."@,
                ),
            ),
            ("x-kubernetes-group-version-kind"@, Json::Array(seq![config_kind_schema()])),
            ("properties"@, config_fields_schema()),
        ],
    )
}

fn config() -> (r: Value)
    ensures
        r@ == config_schema(),
{
    let kinds: Vec<Value> = vec![config_kind()];
    assert(value::items_view(kinds@) =~= seq![config_kind_schema()]);
    let pairs: Vec<(&'static str, Value)> = vec![
        ("type", Value::text("object")),
        (
            "description",
            Value::text(
                "A kubeconfig: how to reach clusters (clusters), who you are (users) and which pairs to use (contexts).",
            ),
        ),
        ("x-kubernetes-group-version-kind", list(kinds)),
        ("properties", config_fields()),
    ];
    assert(pairs_of(pairs@) =~= seq![
        ("type"@, Json::Str("object"@)),
        (
            "description"@,
            Json::Str(
                "A kubeconfig: how to reach clusters (clusters), who you are (users) and which pairs to use (contexts)."@,
            ),
        ),
        ("x-kubernetes-group-version-kind"@, Json::Array(seq![config_kind_schema()])),
        ("properties"@, config_fields_schema()),
    ]);
    object(pairs)
}

/// Every schema, by its name.
pub open spec fn schemas() -> Json {
    object_of(
        seq![
            ("Config"@, config_schema()),
            ("NamedCluster"@, named_schema("The cluster's name, referenced by contexts."@, "cluster"@, "Cluster"@, "How to reach and verify the API server."@)),
            ("Cluster"@, object_schema(Some(server_required_schema()), None, cluster_fields_schema())),
            ("NamedContext"@, named_schema("The context's name."@, "context"@, "Context"@, "A cluster, a user and a namespace."@)),
            ("Context"@, object_schema(Some(cluster_required_schema()), None, context_fields_schema())),
            ("NamedAuthInfo"@, named_schema("The user's name, referenced by contexts."@, "user"@, "AuthInfo"@, "The user's credentials."@)),
            ("AuthInfo"@, object_schema(None, None, user_fields_schema())),
            ("AuthProviderConfig"@, object_schema(Some(name_required_schema()), Some("A legacy auth provider (oidc; gcp and azure were removed from kubectl 1.26)."@), provider_fields_schema())),
            ("ExecConfig"@, object_schema(Some(exec_required_schema()), Some("A credential plugin kubectl (and Kubyl) runs to get a token or client certificate."@), exec_fields_schema())),
            ("ExecEnvVar"@, object_schema(Some(variable_required_schema()), None, variable_fields_schema())),
            ("NamedExtension"@, object_schema(Some(extension_required_schema()), None, extension_fields_schema())),
        ],
    )
}

fn schemas_value() -> (r: Value)
    ensures
        r@ == schemas(),
{
    let pairs: Vec<(&'static str, Value)> = vec![
        ("Config", config()),
        ("NamedCluster", named("The cluster's name, referenced by contexts.", "cluster", "Cluster", "How to reach and verify the API server.")),
        ("Cluster", schema(Some(server_required()), None, cluster_fields())),
        ("NamedContext", named("The context's name.", "context", "Context", "A cluster, a user and a namespace.")),
        ("Context", schema(Some(cluster_required()), None, context_fields())),
        ("NamedAuthInfo", named("The user's name, referenced by contexts.", "user", "AuthInfo", "The user's credentials.")),
        ("AuthInfo", schema(None, None, user_fields())),
        ("AuthProviderConfig", schema(Some(name_required()), Some("A legacy auth provider (oidc; gcp and azure were removed from kubectl 1.26)."), provider_fields())),
        ("ExecConfig", schema(Some(exec_required()), Some("A credential plugin kubectl (and Kubyl) runs to get a token or client certificate."), exec_fields())),
        ("ExecEnvVar", schema(Some(variable_required()), None, variable_fields())),
        ("NamedExtension", schema(Some(extension_required()), None, extension_fields())),
    ];
    assert(pairs_of(pairs@) =~= seq![
        ("Config"@, config_schema()),
        ("NamedCluster"@, named_schema("The cluster's name, referenced by contexts."@, "cluster"@, "Cluster"@, "How to reach and verify the API server."@)),
        ("Cluster"@, object_schema(Some(server_required_schema()), None, cluster_fields_schema())),
        ("NamedContext"@, named_schema("The context's name."@, "context"@, "Context"@, "A cluster, a user and a namespace."@)),
        ("Context"@, object_schema(Some(cluster_required_schema()), None, context_fields_schema())),
        ("NamedAuthInfo"@, named_schema("The user's name, referenced by contexts."@, "user"@, "AuthInfo"@, "The user's credentials."@)),
        ("AuthInfo"@, object_schema(None, None, user_fields_schema())),
        ("AuthProviderConfig"@, object_schema(Some(name_required_schema()), Some("A legacy auth provider (oidc; gcp and azure were removed from kubectl 1.26)."@), provider_fields_schema())),
        ("ExecConfig"@, object_schema(Some(exec_required_schema()), Some("A credential plugin kubectl (and Kubyl) runs to get a token or client certificate."@), exec_fields_schema())),
        ("ExecEnvVar"@, object_schema(Some(variable_required_schema()), None, variable_fields_schema())),
        ("NamedExtension"@, object_schema(Some(extension_required_schema()), None, extension_fields_schema())),
    ]);
    object(pairs)
}

/// The OpenAPI document.
pub open spec fn openapi() -> Json {
    object_of(
        seq![
            ("openapi"@, Json::Str("3.0.0"@)),
            ("components"@, object_of(seq![("schemas"@, schemas())])),
        ],
    )
}

/// The OpenAPI document.
pub fn document() -> (r: Value)
    ensures
        r@ == openapi(),
{
    let inner: Vec<(&'static str, Value)> = vec![("schemas", schemas_value())];
    assert(pairs_of(inner@) =~= seq![("schemas"@, schemas())]);
    let pairs: Vec<(&'static str, Value)> = vec![
        ("openapi", Value::text("3.0.0")),
        ("components", object(inner)),
    ];
    assert(pairs_of(pairs@) =~= seq![
        ("openapi"@, Json::Str("3.0.0"@)),
        ("components"@, object_of(seq![("schemas"@, schemas())])),
    ]);
    object(pairs)
}

} // verus!
