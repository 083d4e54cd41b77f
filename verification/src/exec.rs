//! Exec credential plugins: what a user's `exec` block runs, and presets for new ones.

use crate::credentials;
use crate::json::{self, Json};
use crate::json_text::to_json;
use crate::model::{Doc, Kind};
use crate::text;
use crate::value::{self, Object, Value};
use vstd::prelude::*;

verus! {

/// What the consent dialog shows about an exec plugin (and what consent is given for).
#[derive(Debug, PartialEq, Eq)]
pub struct ExecSpec {
    pub command: String,
    pub args: Vec<String>,
    /// Names and values.
    pub env: Vec<(String, String)>,
    pub api_version: String,
    pub interactive_mode: String,
    pub provide_cluster_info: bool,
}

/// The characters of pairs of strings.
pub open spec fn pair_texts(v: Seq<(String, String)>) -> Seq<(Seq<char>, Seq<char>)> {
    Seq::new(v.len(), |i: int| (v[i].0@, v[i].1@))
}

/// An exec plugin as a mathematical value.
pub struct Plugin {
    pub command: Seq<char>,
    pub args: Seq<Seq<char>>,
    pub env: Seq<(Seq<char>, Seq<char>)>,
    pub api_version: Seq<char>,
    pub interactive_mode: Seq<char>,
    pub provide_cluster_info: bool,
}

impl View for ExecSpec {
    type V = Plugin;

    open spec fn view(&self) -> Plugin {
        Plugin {
            command: self.command@,
            args: text::texts(self.args@),
            env: pair_texts(self.env@),
            api_version: self.api_version@,
            interactive_mode: self.interactive_mode@,
            provide_cluster_info: self.provide_cluster_info,
        }
    }
}

/// A copy of pairs of strings.
fn clone_pairs(v: &Vec<(String, String)>) -> (r: Vec<(String, String)>)
    ensures
        pair_texts(r@) == pair_texts(v@),
{
    let mut out: Vec<(String, String)> = Vec::new();
    let mut i: usize = 0;
    while i < v.len()
        invariant
            i <= v@.len(),
            pair_texts(out@) =~= pair_texts(v@).take(i as int),
        decreases v@.len() - i,
    {
        let ghost before = out@;
        out.push((v[i].0.clone(), v[i].1.clone()));
        assert(pair_texts(out@) =~= pair_texts(before).push((v@[i as int].0@, v@[i as int].1@)));
        i += 1;
    }
    assert(pair_texts(out@) =~= pair_texts(v@));
    out
}

impl Clone for ExecSpec {
    fn clone(&self) -> (r: ExecSpec)
        ensures
            r@ == self@,
    {
        ExecSpec {
            command: self.command.clone(),
            args: text::clone_texts(&self.args),
            env: clone_pairs(&self.env),
            api_version: self.api_version.clone(),
            interactive_mode: self.interactive_mode.clone(),
            provide_cluster_info: self.provide_cluster_info,
        }
    }
}

/// The items of the list under `key`; none if there is no list.
pub open spec fn items_at(v: Json, key: Seq<char>) -> Seq<Json> {
    match json::as_items(json::get(v, key)) {
        Some(items) => items,
        None => seq![],
    }
}

/// The plugin that an `exec` block describes; none without a command.
pub open spec fn plugin_of(exec: Json) -> Option<Plugin> {
    match json::text_at(exec, "command"@) {
        None => None,
        Some(command) => Some(
            Plugin {
                command,
                args: credentials::item_texts(items_at(exec, "args"@)),
                env: env_of(exec),
                api_version: credentials::text_or_nothing(exec, "apiVersion"@),
                interactive_mode: credentials::text_or_nothing(exec, "interactiveMode"@),
                provide_cluster_info: json::get(exec, "provideClusterInfo"@) == Some(
                    Json::Bool(true),
                ),
            },
        ),
    }
}

/// The variables that an `exec` block sets: names and values.
pub open spec fn env_of(exec: Json) -> Seq<(Seq<char>, Seq<char>)> {
    let env = items_at(exec, "env"@);
    Seq::new(
        env.len(),
        |i: int|
            (
                credentials::text_or_nothing(env[i], "name"@),
                credentials::text_or_nothing(env[i], "value"@),
            ),
    )
}

fn text_or_nothing(v: &Value, key: &str) -> (r: String)
    ensures
        r@ == credentials::text_or_nothing(v@, key@),
{
    match v.text_at(key) {
        Some(s) => s.to_string(),
        None => String::new(),
    }
}

/// The items of the list under `key` as texts.
pub fn item_texts(v: &Value, key: &str) -> (r: Vec<String>)
    ensures
        text::texts(r@) == credentials::item_texts(items_at(v@, key@)),
{
    let mut out: Vec<String> = Vec::new();
    let ghost all = items_at(v@, key@);
    let ghost wanted = credentials::item_texts(all);
    assert(text::texts(out@) =~= wanted.take(0));
    if let Some(slot) = v.get(key) {
        if let Some(items) = slot.as_array() {
            let mut i: usize = 0;
            while i < items.len()
                invariant
                    i <= items@.len(),
                    all == value::items_view(items@),
                    wanted == credentials::item_texts(all),
                    text::texts(out@) == wanted.take(i as int),
                decreases items@.len() - i,
            {
                broadcast use text::texts_push;

                assert(items@[i as int]@ == all[i as int]);
                let item: String = match &items[i] {
                    Value::Str(s) => s.clone(),
                    other => to_json(other),
                };
                out.push(item);
                assert(wanted.take(i + 1) =~= wanted.take(i as int).push(wanted[i as int]));
                i += 1;
            }
            assert(wanted.take(i as int) =~= wanted);
        }
    }
    assert(wanted.len() == 0 ==> wanted.take(0) =~= wanted);
    out
}

/// The variables that an `exec` block sets: names and values.
pub fn env_pairs(exec: &Value) -> (r: Vec<(String, String)>)
    ensures
        pair_texts(r@) == env_of(exec@),
{
    let mut env: Vec<(String, String)> = Vec::new();
    let ghost vars = items_at(exec@, "env"@);
    let ghost wanted = env_of(exec@);
    assert(pair_texts(env@) =~= wanted.take(0));
    if let Some(slot) = exec.get("env") {
        if let Some(items) = slot.as_array() {
            let mut i: usize = 0;
            while i < items.len()
                invariant
                    i <= items@.len() == wanted.len(),
                    vars == value::items_view(items@),
                    forall|j: int|
                        0 <= j < vars.len() ==> (#[trigger] wanted[j]) == (
                            credentials::text_or_nothing(vars[j], "name"@),
                            credentials::text_or_nothing(vars[j], "value"@),
                        ),
                    pair_texts(env@) == wanted.take(i as int),
                decreases items@.len() - i,
            {
                let ghost before = env@;
                assert(items@[i as int]@ == vars[i as int]);
                let pair: (String, String) = (
                    text_or_nothing(&items[i], "name"),
                    text_or_nothing(&items[i], "value"),
                );
                let ghost texts = (pair.0@, pair.1@);
                env.push(pair);
                assert(pair_texts(env@) =~= pair_texts(before).push(texts));
                assert(texts == wanted[i as int]);
                assert(wanted.take(i + 1) =~= wanted.take(i as int).push(wanted[i as int]));
                i += 1;
            }
            assert(wanted.take(i as int) =~= wanted);
        }
    }
    assert(wanted.len() == 0 ==> wanted.take(0) =~= wanted);
    env
}

impl ExecSpec {
    pub fn read(exec: &Value) -> (r: Option<ExecSpec>)
        ensures
            match r {
                Some(spec) => plugin_of(exec@) == Some(spec@),
                None => plugin_of(exec@) is None,
            },
    {
        let command: String = match exec.text_at("command") {
            Some(s) => s.to_string(),
            None => {
                return None;
            },
        };
        let env: Vec<(String, String)> = env_pairs(exec);
        let provide: bool = match exec.get("provideClusterInfo") {
            Some(v) => match v.as_bool() {
                Some(b) => b,
                None => false,
            },
            None => false,
        };
        Some(
            ExecSpec {
                command,
                args: item_texts(exec, "args"),
                env,
                api_version: text_or_nothing(exec, "apiVersion"),
                interactive_mode: text_or_nothing(exec, "interactiveMode"),
                provide_cluster_info: provide,
            },
        )
    }
}

/// The exec plugin a context runs (its user's), with the user's name.
pub fn exec_of(doc: &Doc, context: &str) -> (r: Option<(String, ExecSpec)>)
    ensures
        match r {
            Some((user, spec)) => credentials::exec_block(doc@, context@) matches Some((u, e))
                && u == user@ && plugin_of(e) == Some(spec@),
            None => match credentials::exec_block(doc@, context@) {
                Some((u, e)) => plugin_of(e) is None,
                None => true,
            },
        },
{
    let (_, user) = doc.context_refs(context);
    match user {
        Some(user) => match doc.body(Kind::User, user.as_str()) {
            Some(body) => match body.get("exec") {
                Some(exec) => match ExecSpec::read(exec) {
                    Some(spec) => Some((user, spec)),
                    None => None,
                },
                None => None,
            },
            None => None,
        },
        None => None,
    }
}

// ----- Presets -----

/// Exec plugin presets for the user form.
#[derive(Clone, Copy, Debug, PartialEq, Eq, Structural)]
pub enum ExecPreset {
    Eks,
    Gke,
    AksKubelogin,
    KubeloginOidc,
}

/// The AAD server application id of AKS-managed Microsoft Entra ID.
pub const AKS_SERVER_ID: &'static str = "6dae42f8-4368-4678-94ff-3960e28e3630";

/// A list of strings.
pub open spec fn text_list(items: Seq<Seq<char>>) -> Json {
    Json::Array(Seq::new(items.len(), |i: int| Json::Str(items[i])))
}

/// The `exec:` block of a preset.
pub open spec fn preset_block(preset: ExecPreset) -> Json {
    let version = ("apiVersion"@, Json::Str("client.authentication.k8s.io/v1beta1"@));
    Json::Object(
        match preset {
            ExecPreset::Eks => seq![
                version,
                ("command"@, Json::Str("aws"@)),
                (
                    "args"@,
                    text_list(
                        seq![
                            "--region"@,
                            "<region>"@,
                            "eks"@,
                            "get-token"@,
                            "--cluster-name"@,
                            "<cluster>"@,
                            "--output"@,
                            "json"@,
                        ],
                    ),
                ),
                (
                    "installHint"@,
                    Json::Str("Install the AWS CLI: https://docs.aws.amazon.com/cli/latest/userguide/getting-started-install.html"@),
                ),
            ],
            ExecPreset::Gke => seq![
                version,
                ("command"@, Json::Str("gke-gcloud-auth-plugin"@)),
                (
                    "installHint"@,
                    Json::Str("Install gke-gcloud-auth-plugin for use with kubectl by following https://cloud.google.com/kubernetes-engine/docs/how-to/cluster-access-for-kubectl#install_plugin"@),
                ),
                ("provideClusterInfo"@, Json::Bool(true)),
            ],
            ExecPreset::AksKubelogin => seq![
                version,
                ("command"@, Json::Str("kubelogin"@)),
                (
                    "args"@,
                    text_list(
                        seq![
                            "get-token"@,
                            "--login"@,
                            "azurecli"@,
                            "--server-id"@,
                            AKS_SERVER_ID@,
                        ],
                    ),
                ),
                (
                    "installHint"@,
                    Json::Str("Install kubelogin: https://azure.github.io/kubelogin/install.html"@),
                ),
            ],
            ExecPreset::KubeloginOidc => seq![
                version,
                ("command"@, Json::Str("kubectl"@)),
                (
                    "args"@,
                    text_list(
                        seq![
                            "oidc-login"@,
                            "get-token"@,
                            "--oidc-issuer-url=<issuer>"@,
                            "--oidc-client-id=<client-id>"@,
                        ],
                    ),
                ),
                (
                    "installHint"@,
                    Json::Str("Install kubelogin (kubectl oidc-login): https://github.com/int128/kubelogin#setup"@),
                ),
            ],
        },
    )
}

/// A list of strings.
pub fn text_values(items: &Vec<&'static str>) -> (r: Value)
    ensures
        r@ == text_list(text::slices(items@)),
{
    let mut out: Vec<Value> = Vec::new();
    let ghost all = text_list(text::slices(items@))->Array_0;
    let mut i: usize = 0;
    assert(value::items_view(out@) =~= all.take(0));
    while i < items.len()
        invariant
            i <= items@.len() == all.len(),
            forall|j: int| 0 <= j < all.len() ==> (#[trigger] all[j]) == Json::Str(items@[j]@),
            value::items_view(out@) == all.take(i as int),
        decreases items@.len() - i,
    {
        broadcast use value::group_items_view;

        out.push(Value::text(items[i]));
        assert(all.take(i + 1) =~= all.take(i as int).push(all[i as int]));
        i += 1;
    }
    assert(all.take(i as int) =~= all);
    Value::Array(out)
}

/// The `exec:` block of a plugin with arguments.
fn block_with_args(command: &str, args: &Vec<&'static str>, hint: &str) -> (o: Object)
    ensures
        o@ == seq![
            ("apiVersion"@, Json::Str("client.authentication.k8s.io/v1beta1"@)),
            ("command"@, Json::Str(command@)),
            ("args"@, text_list(text::slices(args@))),
            ("installHint"@, Json::Str(hint@)),
        ],
{
    let fields: Vec<(String, Value)> = vec![
        ("apiVersion".to_string(), Value::text("client.authentication.k8s.io/v1beta1")),
        ("command".to_string(), Value::text(command)),
        ("args".to_string(), text_values(args)),
        ("installHint".to_string(), Value::text(hint)),
    ];
    proof {
        reveal_strlit("apiVersion");
        reveal_strlit("command");
        reveal_strlit("args");
        reveal_strlit("installHint");
        assert("apiVersion"@.len() == 10 && "command"@.len() == 7);
        assert("args"@.len() == 4 && "installHint"@.len() == 11);
        let o = seq![
            ("apiVersion"@, Json::Str("client.authentication.k8s.io/v1beta1"@)),
            ("command"@, Json::Str(command@)),
            ("args"@, text_list(text::slices(args@))),
            ("installHint"@, Json::Str(hint@)),
        ];
        assert(value::pairs_view(fields@) =~= o);
        assert(json::distinct_keys(o));
    }
    Object::of(fields)
}

impl ExecPreset {
    pub const ALL: [ExecPreset; 4] = [
        ExecPreset::Eks,
        ExecPreset::Gke,
        ExecPreset::AksKubelogin,
        ExecPreset::KubeloginOidc,
    ];

    pub fn label(self) -> (r: &'static str)
        ensures
            r@ == match self {
                ExecPreset::Eks => "AWS EKS (aws eks get-token)"@,
                ExecPreset::Gke => "GKE (gke-gcloud-auth-plugin)"@,
                ExecPreset::AksKubelogin => "AKS (kubelogin)"@,
                ExecPreset::KubeloginOidc => "OIDC (kubelogin)"@,
            },
    {
        match self {
            ExecPreset::Eks => "AWS EKS (aws eks get-token)",
            ExecPreset::Gke => "GKE (gke-gcloud-auth-plugin)",
            ExecPreset::AksKubelogin => "AKS (kubelogin)",
            ExecPreset::KubeloginOidc => "OIDC (kubelogin)",
        }
    }

    /// The `exec:` block, as the cloud CLIs write it. Placeholders in angle brackets.
    pub fn exec(self) -> (r: Value)
        ensures
            r@ == preset_block(self),
    {
        match self {
            ExecPreset::Eks => {
                let args: Vec<&'static str> = vec![
                    "--region",
                    "<region>",
                    "eks",
                    "get-token",
                    "--cluster-name",
                    "<cluster>",
                    "--output",
                    "json",
                ];
                let o: Object = block_with_args(
                    "aws",
                    &args,
                    "Install the AWS CLI: https://docs.aws.amazon.com/cli/latest/userguide/getting-started-install.html",
                );
                assert(text::slices(args@) =~= seq![
                    "--region"@,
                    "<region>"@,
                    "eks"@,
                    "get-token"@,
                    "--cluster-name"@,
                    "<cluster>"@,
                    "--output"@,
                    "json"@,
                ]);
                Value::Object(o)
            },
            ExecPreset::Gke => {
                let fields: Vec<(String, Value)> = vec![
                    (
                        "apiVersion".to_string(),
                        Value::text("client.authentication.k8s.io/v1beta1"),
                    ),
                    ("command".to_string(), Value::text("gke-gcloud-auth-plugin")),
                    (
                        "installHint".to_string(),
                        Value::text(
                            "Install gke-gcloud-auth-plugin for use with kubectl by following https://cloud.google.com/kubernetes-engine/docs/how-to/cluster-access-for-kubectl#install_plugin",
                        ),
                    ),
                    ("provideClusterInfo".to_string(), Value::Bool(true)),
                ];
                proof {
                    reveal_strlit("apiVersion");
                    reveal_strlit("command");
                    reveal_strlit("installHint");
                    reveal_strlit("provideClusterInfo");
                    assert("apiVersion"@.len() == 10 && "command"@.len() == 7);
                    assert("installHint"@.len() == 11 && "provideClusterInfo"@.len() == 18);
                    let o = preset_block(self)->Object_0;
                    assert(value::pairs_view(fields@) =~= o);
                    assert(json::distinct_keys(o));
                }
                Value::Object(Object::of(fields))
            },
            ExecPreset::AksKubelogin => {
                let args: Vec<&'static str> = vec![
                    "get-token",
                    "--login",
                    "azurecli",
                    "--server-id",
                    AKS_SERVER_ID,
                ];
                let o: Object = block_with_args(
                    "kubelogin",
                    &args,
                    "Install kubelogin: https://azure.github.io/kubelogin/install.html",
                );
                assert(text::slices(args@) =~= seq![
                    "get-token"@,
                    "--login"@,
                    "azurecli"@,
                    "--server-id"@,
                    AKS_SERVER_ID@,
                ]);
                Value::Object(o)
            },
            ExecPreset::KubeloginOidc => {
                let args: Vec<&'static str> = vec![
                    "oidc-login",
                    "get-token",
                    "--oidc-issuer-url=<issuer>",
                    "--oidc-client-id=<client-id>",
                ];
                let o: Object = block_with_args(
                    "kubectl",
                    &args,
                    "Install kubelogin (kubectl oidc-login): https://github.com/int128/kubelogin#setup",
                );
                assert(text::slices(args@) =~= seq![
                    "oidc-login"@,
                    "get-token"@,
                    "--oidc-issuer-url=<issuer>"@,
                    "--oidc-client-id=<client-id>"@,
                ]);
                Value::Object(o)
            },
        }
    }
}

} // verus!
