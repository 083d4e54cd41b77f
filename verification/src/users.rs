//! How users authenticate, and their secrets.

use crate::credentials;
use crate::document;
use crate::fields::{get_json_mut, CERT_DATA, CERT_FILE, KEY_DATA, KEY_FILE};
use crate::json::{self, Json};
use crate::model::{Doc, Kind};
use crate::paths;
use crate::text::{self, as_slices, clone_texts, decimal_text, same};
use crate::transfer;
use crate::value::{self, Object, Value};
use vstd::prelude::*;

verus! {

/// How a user authenticates (what the user form shows).
#[derive(Clone, Copy, Debug, PartialEq, Eq, Structural, Hash)]
pub enum AuthKind {
    Unset,
    Token,
    TokenFile,
    ClientCertificate,
    Exec,
    OidcProvider,
    Basic,
    /// A legacy auth provider other than OIDC (`gcp`, `azure`): shown read-only.
    OtherProvider,
}

/// The exec credential API version Kubyl writes for new plugins.
pub const EXEC_API_VERSION: &'static str = "client.authentication.k8s.io/v1";

impl AuthKind {
    /// The choices of the user form, in order.
    pub const CHOICES: [AuthKind; 7] = [
        AuthKind::ClientCertificate,
        AuthKind::Token,
        AuthKind::TokenFile,
        AuthKind::Exec,
        AuthKind::OidcProvider,
        AuthKind::Basic,
        AuthKind::Unset,
    ];

    pub fn label(self) -> (r: &'static str)
        ensures
            r@ == match self {
                AuthKind::Unset => "None"@,
                AuthKind::Token => "Token"@,
                AuthKind::TokenFile => "Token file"@,
                AuthKind::ClientCertificate => "Client certificate"@,
                AuthKind::Exec => "Exec plugin"@,
                AuthKind::OidcProvider => "OIDC provider"@,
                AuthKind::Basic => "Basic auth"@,
                AuthKind::OtherProvider => "Auth provider"@,
            },
    {
        match self {
            AuthKind::Unset => "None",
            AuthKind::Token => "Token",
            AuthKind::TokenFile => "Token file",
            AuthKind::ClientCertificate => "Client certificate",
            AuthKind::Exec => "Exec plugin",
            AuthKind::OidcProvider => "OIDC provider",
            AuthKind::Basic => "Basic auth",
            AuthKind::OtherProvider => "Auth provider",
        }
    }

    /// Detects the kind from a user body. Exec wins over everything (kubectl's order).
    pub fn detect(body: &Object) -> (r: AuthKind)
        ensures
            r == credentials::auth_kind(body@),
    {
        if body.contains_key("exec") {
            AuthKind::Exec
        } else if let Some(provider) = body.get("auth-provider") {
            let oidc: bool = match provider.text_at("name") {
                Some(name) => same(name, "oidc"),
                None => false,
            };
            if oidc {
                AuthKind::OidcProvider
            } else {
                AuthKind::OtherProvider
            }
        } else if body.contains_key(CERT_FILE) || body.contains_key(CERT_DATA) {
            AuthKind::ClientCertificate
        } else if body.contains_key("token") {
            AuthKind::Token
        } else if body.contains_key("tokenFile") {
            AuthKind::TokenFile
        } else if body.contains_key("username") || body.contains_key("password") {
            AuthKind::Basic
        } else {
            AuthKind::Unset
        }
    }

    /// The keys of a user body that belong to this kind.
    pub fn keys(self) -> (r: Vec<&'static str>)
        ensures
            text::slices(r@) == credentials::kind_keys(self),
    {
        let keys: Vec<&'static str> = match self {
            AuthKind::Unset | AuthKind::OtherProvider => Vec::new(),
            AuthKind::Token => vec!["token"],
            AuthKind::TokenFile => vec!["tokenFile"],
            AuthKind::ClientCertificate => vec![CERT_FILE, CERT_DATA, KEY_FILE, KEY_DATA],
            AuthKind::Exec => vec!["exec"],
            AuthKind::OidcProvider => vec!["auth-provider"],
            AuthKind::Basic => vec!["username", "password"],
        };
        assert(text::slices(keys@) =~= credentials::kind_keys(self));
        keys
    }
}

/// Every credential key a user body can have.
fn auth_keys() -> (r: Vec<&'static str>)
    ensures
        text::slices(r@) == credentials::auth_keys(),
{
    let keys: Vec<&'static str> = vec![
        "token",
        "tokenFile",
        CERT_FILE,
        CERT_DATA,
        KEY_FILE,
        KEY_DATA,
        "exec",
        "auth-provider",
        "username",
        "password",
    ];
    assert(text::slices(keys@) =~= credentials::auth_keys());
    keys
}

/// Switches a user to `kind`: removes the other kinds' keys (other fields like `as` or
/// `extensions` stay) and adds a starting point for the new one.
pub fn set_auth_kind(body: &mut Object, kind: AuthKind)
    ensures
        final(body)@ == credentials::with_auth_kind(old(body)@, kind),
{
    if AuthKind::detect(body) == kind {
        return;
    }
    let all: Vec<&'static str> = auth_keys();
    let own: Vec<&'static str> = kind.keys();
    let mut keep: Vec<bool> = Vec::new();
    let mut i: usize = 0;
    let ghost marks = Seq::new(body@.len(), |i: int| credentials::stays(kind, body@[i].0));
    while i < body.len()
        invariant
            i <= body@.len() == marks.len(),
            text::slices(all@) == credentials::auth_keys(),
            text::slices(own@) == credentials::kind_keys(kind),
            forall|j: int|
                0 <= j < body@.len() ==> (#[trigger] marks[j]) == credentials::stays(
                    kind,
                    body@[j].0,
                ),
            keep@ == marks.take(i as int),
        decreases body@.len() - i,
    {
        let key: &str = body.key_at(i);
        let stays: bool = !text::among(&all, key) || text::among(&own, key);
        keep.push(stays);
        assert(marks.take(i + 1) =~= marks.take(i as int).push(marks[i as int]));
        i += 1;
    }
    assert(marks.take(i as int) =~= marks);
    body.retain(&keep);
    proof {
        reveal_strlit("apiVersion");
        reveal_strlit("command");
        reveal_strlit("idp-issuer-url");
        reveal_strlit("client-id");
        reveal_strlit("name");
        reveal_strlit("config");
        assert("apiVersion"@.len() == 10 && "command"@.len() == 7);
        assert("idp-issuer-url"@.len() == 14 && "client-id"@.len() == 9);
        assert("name"@.len() == 4 && "config"@.len() == 6);
    }
    match kind {
        AuthKind::Exec => {
            let exec: Object = two_fields(
                "apiVersion",
                Value::text(EXEC_API_VERSION),
                "command",
                Value::text(""),
            );
            body.insert("exec", Value::Object(exec));
        },
        AuthKind::OidcProvider => {
            let config: Object = two_fields(
                "idp-issuer-url",
                Value::text(""),
                "client-id",
                Value::text(""),
            );
            let provider: Object = two_fields(
                "name",
                Value::text("oidc"),
                "config",
                Value::Object(config),
            );
            body.insert("auth-provider", Value::Object(provider));
        },
        AuthKind::Token => {
            body.insert("token", Value::text(""));
        },
        AuthKind::TokenFile => {
            body.insert("tokenFile", Value::text(""));
        },
        AuthKind::Basic => {
            body.insert("username", Value::text(""));
            body.insert("password", Value::text(""));
        },
        AuthKind::ClientCertificate => {
            body.insert(CERT_FILE, Value::text(""));
            body.insert(KEY_FILE, Value::text(""));
        },
        AuthKind::Unset | AuthKind::OtherProvider => {},
    }
}

/// An object with two fields.
fn two_fields(a: &str, v: Value, b: &str, w: Value) -> (o: Object)
    requires
        a@ != b@,
    ensures
        o@ == seq![(a@, v@), (b@, w@)],
{
    let fields: Vec<(String, Value)> = vec![(a.to_string(), v), (b.to_string(), w)];
    assert(value::pairs_view(fields@) =~= seq![(a@, v@), (b@, w@)]);
    Object::of(fields)
}

// ----- Secrets -----

/// The keys of a user body whose value is a secret.
fn user_secret_keys() -> (r: Vec<&'static str>)
    ensures
        text::slices(r@) == credentials::user_secret_keys(),
{
    let keys: Vec<&'static str> = vec!["token", KEY_DATA, "password"];
    assert(text::slices(keys@) =~= credentials::user_secret_keys());
    keys
}

/// Auth-provider config keys that hold secrets.
pub fn secret_provider_keys() -> (r: Vec<&'static str>)
    ensures
        text::slices(r@) == credentials::provider_secret_keys(),
{
    let keys: Vec<&'static str> = vec![
        "client-secret",
        "id-token",
        "refresh-token",
        "access-token",
    ];
    assert(text::slices(keys@) =~= credentials::provider_secret_keys());
    keys
}

/// Whether a non-empty string stands under `key`.
fn holds_text(o: &Object, key: &str) -> (r: bool)
    ensures
        r == credentials::holds_text(o@, key@),
{
    match o.get(key) {
        Some(v) => match v.as_str() {
            Some(s) => !s.is_empty(),
            None => false,
        },
        None => false,
    }
}

/// Adds the paths of the keys that hold a text.
fn text_paths(o: &Object, keys: &Vec<&'static str>, in_provider: bool, out: &mut Vec<Vec<String>>)
    ensures
        text::text_lists(final(out)@) == text::text_lists(old(out)@) + credentials::text_paths(
            o@,
            text::slices(keys@),
            if in_provider {
                credentials::provider_prefix()
            } else {
                seq![]
            },
        ),
{
    let ghost prefix = if in_provider {
        credentials::provider_prefix()
    } else {
        seq![]
    };
    let ghost before = text::text_lists(out@);
    let ghost all = text::slices(keys@);
    let mut i: usize = 0;
    assert(before + credentials::text_paths(o@, all.take(0), prefix) =~= before);
    while i < keys.len()
        invariant
            i <= keys@.len(),
            all == text::slices(keys@),
            prefix == if in_provider {
                credentials::provider_prefix()
            } else {
                seq![]
            },
            text::text_lists(out@) == before + credentials::text_paths(
                o@,
                all.take(i as int),
                prefix,
            ),
        decreases keys@.len() - i,
    {
        broadcast use text::text_lists_push;

        assert(all.take(i + 1).drop_last() =~= all.take(i as int));
        if holds_text(o, keys[i]) {
            let path: Vec<String> = if in_provider {
                vec!["auth-provider".to_string(), "config".to_string(), keys[i].to_string()]
            } else {
                vec![keys[i].to_string()]
            };
            assert(text::texts(path@) =~= prefix.push(all[i as int]));
            out.push(path);
            assert(text::text_lists(out@) =~= before + credentials::text_paths(
                o@,
                all.take(i + 1),
                prefix,
            ));
        }
        i += 1;
    }
    assert(all.take(i as int) =~= all);
}

/// The name of an environment variable of an exec plugin; empty if it has none.
fn var_name(var: &Value) -> (r: String)
    ensures
        r@ == credentials::var_name(var@),
{
    match var.text_at("name") {
        Some(name) => name.to_string(),
        None => String::new(),
    }
}

/// Paths of secret values in a user body (masked in the UI, removed by exports without
/// credentials).
pub fn secret_paths(body: &Object) -> (r: Vec<Vec<String>>)
    ensures
        text::text_lists(r@) == credentials::secret_paths(body@),
{
    let mut out: Vec<Vec<String>> = Vec::new();
    assert(text::text_lists(out@) =~= Seq::empty());
    text_paths(body, &user_secret_keys(), false, &mut out);
    if let Some(provider) = body.get("auth-provider") {
        if let Some(slot) = provider.get("config") {
            if let Some(config) = slot.as_object() {
                text_paths(config, &secret_provider_keys(), true, &mut out);
            }
        }
    }
    let ghost before = text::text_lists(out@);
    assert(before =~= credentials::text_paths(
        body@,
        credentials::user_secret_keys(),
        seq![],
    ) + (match credentials::provider_config(body@) {
        Some(c) => credentials::text_paths(
            c,
            credentials::provider_secret_keys(),
            credentials::provider_prefix(),
        ),
        None => seq![],
    }));
    if let Some(exec) = body.get("exec") {
        if let Some(slot) = exec.get("env") {
            if let Some(env) = slot.as_array() {
                let ghost all = value::items_view(env@);
                let mut i: usize = 0;
                assert(before + credentials::secret_vars(all.take(0)) =~= before);
                while i < env.len()
                    invariant
                        i <= env@.len(),
                        all == value::items_view(env@),
                        text::text_lists(out@) == before + credentials::secret_vars(
                            all.take(i as int),
                        ),
                    decreases env@.len() - i,
                {
                    broadcast use text::text_lists_push;

                    assert(all.take(i + 1).drop_last() =~= all.take(i as int));
                    if is_secret_env(var_name(&env[i]).as_str()) {
                        let path: Vec<String> = vec![
                            "exec".to_string(),
                            "env".to_string(),
                            decimal_text(i as u128),
                            "value".to_string(),
                        ];
                        assert(text::texts(path@) =~= credentials::var_path(i as nat));
                        out.push(path);
                        assert(text::text_lists(out@) =~= before + credentials::secret_vars(
                            all.take(i + 1),
                        ));
                    }
                    i += 1;
                }
                assert(all.take(i as int) =~= all);
            }
        }
    }
    assert(before + Seq::<Seq<Seq<char>>>::empty() =~= before);
    out
}

/// Exec env variables whose value is likely a secret.
pub fn is_secret_env(name: &str) -> (r: bool)
    ensures
        r == credentials::secret_env(name@),
{
    let upper: String = text::to_ascii_uppercase(name);
    let words: Vec<&'static str> = vec![
        "SECRET",
        "TOKEN",
        "PASSWORD",
        "PASSWD",
        "CREDENTIAL",
        "PRIVATE",
        "API_KEY",
        "ACCESS_KEY",
    ];
    assert(text::slices(words@) =~= credentials::secret_words());
    let mut i: usize = 0;
    while i < words.len()
        invariant
            i <= words@.len(),
            upper@ == text::ascii_uppercase(name@),
            text::slices(words@) == credentials::secret_words(),
            forall|j: int|
                0 <= j < i ==> !text::contains_text(
                    upper@,
                    #[trigger] credentials::secret_words()[j],
                ),
        decreases words@.len() - i,
    {
        assert(credentials::secret_words()[i as int] == words@[i as int]@);
        if text::contains(upper.as_str(), words[i]) {
            return true;
        }
        i += 1;
    }
    false
}

/// Takes keys out of an object.
fn remove_keys(o: &mut Object, keys: &Vec<&'static str>)
    ensures
        final(o)@ == credentials::without_keys(old(o)@, text::slices(keys@)),
{
    let ghost all = text::slices(keys@);
    let mut i: usize = 0;
    while i < keys.len()
        invariant
            i <= keys@.len(),
            all == text::slices(keys@),
            o@ == credentials::without_keys(old(o)@, all.take(i as int)),
        decreases keys@.len() - i,
    {
        assert(all.take(i + 1).drop_last() =~= all.take(i as int));
        o.remove(keys[i]);
        i += 1;
    }
    assert(all.take(i as int) =~= all);
}

/// Takes the secret variables out of a list.
fn remove_secret_vars(env: &mut Vec<Value>)
    ensures
        value::items_view(final(env)@) == credentials::public_vars(
            value::items_view(old(env)@),
        ),
{
    let ghost all = value::items_view(env@);
    let count: usize = env.len();
    let mut done: usize = 0;
    let mut i: usize = 0;
    assert(credentials::public_vars(all.take(0)) + all.skip(0) =~= all);
    while done < count
        invariant
            i <= done <= count == all.len(),
            value::items_view(env@) == credentials::public_vars(all.take(done as int)) + all.skip(
                done as int,
            ),
            i == credentials::public_vars(all.take(done as int)).len(),
        decreases count - done,
    {
        broadcast use value::group_items_view;

        let ghost before = credentials::public_vars(all.take(done as int));
        let ghost now = env@;
        assert(all.take(done + 1).drop_last() =~= all.take(done as int));
        assert(value::items_view(env@).len() == before.len() + count - done);
        assert(value::items_view(env@)[i as int] == all[done as int]);
        if is_secret_env(var_name(&env[i]).as_str()) {
            env.remove(i);
            assert(value::items_view(env@) == value::items_view(now).remove(i as int));
        } else {
            i += 1;
        }
        done += 1;
        assert(value::items_view(env@) =~= credentials::public_vars(all.take(done as int))
            + all.skip(done as int));
    }
    assert(all.take(done as int) =~= all);
    assert(value::items_view(env@) =~= credentials::public_vars(all));
}

/// Removes every secret of a user body (exports without credentials). Files referenced by
/// path stay (they aren't in the document).
pub fn strip_secrets(body: &mut Object)
    ensures
        final(body)@ == credentials::stripped(old(body)@),
{
    broadcast use json::put_same;

    remove_keys(body, &user_secret_keys());
    let ghost b1 = body@;
    if let Some(provider) = body.get_mut("auth-provider") {
        if let Some(slot) = provider.get_mut("config") {
            if let Some(config) = slot.as_object_mut() {
                remove_keys(config, &secret_provider_keys());
            }
        }
    }
    assert(body@ == credentials::without_provider_secrets(b1));
    let ghost b2 = body@;
    if let Some(exec) = body.get_mut("exec") {
        if let Some(slot) = exec.get_mut("env") {
            if let Some(env) = slot.as_array_mut() {
                remove_secret_vars(env);
            }
        }
    }
    assert(body@ == credentials::without_env_secrets(b2));
}

/// The secrets that were masked, as mathematical values.
pub open spec fn taken_view(v: Seq<(String, Vec<String>, String, usize)>) -> Seq<transfer::Taken> {
    Seq::new(v.len(), |i: int| (v[i].0@, text::texts(v[i].1@), v[i].2@, v[i].3 as int))
}

/// What was taken from the body of the user at a place.
spec fn taken_at(
    taken: Seq<(Seq<Seq<char>>, Seq<char>)>,
    name: Seq<char>,
    place: int,
) -> Seq<transfer::Taken> {
    Seq::new(taken.len(), |i: int| (name, taken[i].0, taken[i].1, place))
}

/// Masks the texts at the paths of a user body.
fn mask_body(
    body: &mut Object,
    name: &str,
    place: usize,
    at: &Vec<Vec<String>>,
    placeholder: &str,
    out: &mut Vec<(String, Vec<String>, String, usize)>,
)
    requires
        forall|i: int| 0 <= i < at@.len() ==> (#[trigger] at@[i])@.len() > 0,
        credentials::apart(text::text_lists(at@)),
    ensures
        Json::Object(final(body)@) == credentials::masked(
            Json::Object(old(body)@),
            text::text_lists(at@),
            placeholder@,
        ),
        taken_view(final(out)@) == taken_view(old(out)@) + taken_at(
            credentials::texts_at(Json::Object(old(body)@), text::text_lists(at@)),
            name@,
            place as int,
        ),
{
    let ghost v = Json::Object(body@);
    let ghost all = text::text_lists(at@);
    let ghost before = taken_view(out@);
    let mut i: usize = 0;
    assert(all.take(0) =~= Seq::empty());
    assert(before + taken_at(credentials::texts_at(v, all.take(0)), name@, place as int)
        =~= before);
    while i < at.len()
        invariant
            i <= at@.len(),
            forall|i: int| 0 <= i < at@.len() ==> (#[trigger] at@[i])@.len() > 0,
            all == text::text_lists(at@),
            credentials::apart(all),
            Json::Object(body@) == credentials::masked(v, all.take(i as int), placeholder@),
            taken_view(out@) == before + taken_at(
                credentials::texts_at(v, all.take(i as int)),
                name@,
                place as int,
            ),
        decreases at@.len() - i,
    {
        let ghost now = Json::Object(body@);
        let ghost so_far = credentials::texts_at(v, all.take(i as int));
        let ghost next = credentials::texts_at(v, all.take(i + 1));
        let ghost done = out@;
        assert(all.take(i + 1).drop_last() =~= all.take(i as int));
        assert(all.take(i + 1).last() == text::texts(at@[i as int]@));
        let path: Vec<&str> = as_slices(&at[i]);
        let mut original: Option<String> = None;
        if let Some(found) = get_json_mut(body, path.as_slice()) {
            if let Value::Str(s) = found {
                original = Some(s.clone());
                *found = Value::text(placeholder);
            }
        }
        proof {
            if paths::deep(now, all[i as int]) is Some && original is None {
                paths::with_deep_same(now, all[i as int]);
            }
            assert(Json::Object(body@) == credentials::masked_at(
                now,
                all[i as int],
                placeholder@,
            ));
            assert forall|j: int| 0 <= j < all.take(i as int).len() implies paths::diverge(
                #[trigger] all.take(i as int)[j],
                all[i as int],
            ) by {
                assert(all.take(i as int)[j] == all[j]);
            }
            credentials::masked_elsewhere(v, all.take(i as int), placeholder@, all[i as int]);
        }
        if let Some(s) = original {
            out.push((name.to_string(), clone_texts(&at[i]), s, place));
            assert(taken_view(out@) =~= taken_view(done).push(
                (name@, all[i as int], s@, place as int),
            ));
            assert(next == so_far.push((all[i as int], s@)));
        } else {
            assert(next == so_far);
        }
        assert(taken_view(out@) =~= before + taken_at(next, name@, place as int));
        i += 1;
    }
    assert(all.take(i as int) =~= all);
}

/// Masks the secrets of the user entry at a place.
fn mask_user(
    entry: &mut Value,
    place: usize,
    placeholder: &str,
    out: &mut Vec<(String, Vec<String>, String, usize)>,
)
    ensures
        final(entry)@ == transfer::masked_user(old(entry)@, placeholder@),
        taken_view(final(out)@) == taken_view(old(out)@) + transfer::taken_from_user(
            old(entry)@,
            place as int,
        ),
{
    broadcast use json::put_same;

    let ghost e = entry@;
    let ghost before = taken_view(out@);
    let name: String = match entry.text_at("name") {
        Some(name) => name.to_string(),
        None => {
            let none: String = String::new();
            assert(none@ =~= Seq::empty());
            none
        },
    };
    if let Some(slot) = entry.get_mut(Kind::User.body_key()) {
        if let Some(body) = slot.as_object_mut() {
            let at: Vec<Vec<String>> = secret_paths(body);
            proof {
                credentials::lemma_secret_paths_not_empty(body@);
                credentials::lemma_secret_paths_apart(body@);
                assert forall|i: int| 0 <= i < at@.len() implies (#[trigger] at@[i])@.len() > 0 by {
                    assert(text::text_lists(at@)[i].len() > 0);
                }
            }
            mask_body(body, name.as_str(), place, &at, placeholder, out);
        }
    }
    assert(taken_view(out@) =~= before + transfer::taken_from_user(e, place as int));
}

fn mask_users(users: &mut Vec<Value>, placeholder: &str) -> (r: Vec<
    (String, Vec<String>, String, usize),
>)
    ensures
        value::items_view(final(users)@) == Seq::new(
            value::items_view(old(users)@).len(),
            |i: int| transfer::masked_user(value::items_view(old(users)@)[i], placeholder@),
        ),
        taken_view(r@) == transfer::taken_from_users(value::items_view(old(users)@)),
{
    let mut out: Vec<(String, Vec<String>, String, usize)> = Vec::new();
    let ghost all = value::items_view(users@);
    let mut i: usize = 0;
    assert(taken_view(out@) =~= Seq::empty());
    assert(all.take(0) =~= Seq::empty());
    while i < users.len()
        invariant
            i <= users@.len() == all.len(),
            forall|j: int|
                0 <= j < i ==> (#[trigger] value::items_view(users@)[j]) == transfer::masked_user(
                    all[j],
                    placeholder@,
                ),
            forall|j: int|
                i <= j < all.len() ==> (#[trigger] value::items_view(users@)[j]) == all[j],
            taken_view(out@) == transfer::taken_from_users(all.take(i as int)),
        decreases users@.len() - i,
    {
        broadcast use value::group_items_view;

        assert(value::items_view(users@)[i as int] == all[i as int]);
        assert(all.take(i + 1).drop_last() =~= all.take(i as int));
        mask_user(&mut users[i], i, placeholder, &mut out);
        i += 1;
    }
    assert(all.take(i as int) =~= all);
    assert(value::items_view(users@) =~= Seq::new(
        all.len(),
        |i: int| transfer::masked_user(all[i], placeholder@),
    ));
    out
}

/// Replaces secret values in a whole document with a placeholder (the YAML tab while secrets
/// are masked). Returns the originals, to put them back: the user's name (empty if it has none),
/// the path in the user's body, the text, and the place of the user in the list.
pub fn mask_secrets(doc: &mut Doc, placeholder: &str) -> (r: Vec<
    (String, Vec<String>, String, usize),
>)
    ensures
        final(doc)@ == transfer::with_masked_users(old(doc)@, placeholder@),
        taken_view(r@) == transfer::taken_from_users(document::list(old(doc)@, Kind::User)),
{
    let some: bool = match doc.list(Kind::User) {
        Some(users) => users.len() > 0,
        None => false,
    };
    if some {
        return mask_users(doc.list_mut(Kind::User), placeholder);
    }
    let none: Vec<(String, Vec<String>, String, usize)> = Vec::new();
    assert(taken_view(none@) =~= Seq::empty());
    none
}

} // verus!
