//! What the body of a user means: how it authenticates and which of its values are secret.

use crate::document;
use crate::json::{self, Fields, Json};
use crate::fields::{CERT_DATA, CERT_FILE, KEY_DATA, KEY_FILE};
use crate::paths;
use crate::text;
use crate::users::{AuthKind, EXEC_API_VERSION};
use vstd::prelude::*;

verus! {

// ----- How a user authenticates -----

/// The name of the auth provider, if there is one.
pub open spec fn provider_name(provider: Json) -> Option<Seq<char>> {
    json::text_at(provider, "name"@)
}

/// How a user authenticates. Exec wins over everything (kubectl's order).
pub open spec fn auth_kind(b: Fields) -> AuthKind {
    if json::has_key(b, "exec"@) {
        AuthKind::Exec
    } else if json::has_key(b, "auth-provider"@) {
        if provider_name(json::field(b, "auth-provider"@)->Some_0) == Some("oidc"@) {
            AuthKind::OidcProvider
        } else {
            AuthKind::OtherProvider
        }
    } else if json::has_key(b, CERT_FILE@) || json::has_key(b, CERT_DATA@) {
        AuthKind::ClientCertificate
    } else if json::has_key(b, "token"@) {
        AuthKind::Token
    } else if json::has_key(b, "tokenFile"@) {
        AuthKind::TokenFile
    } else if json::has_key(b, "username"@) || json::has_key(b, "password"@) {
        AuthKind::Basic
    } else {
        AuthKind::Unset
    }
}

/// The keys of a user body that belong to a kind.
pub open spec fn kind_keys(kind: AuthKind) -> Seq<Seq<char>> {
    match kind {
        AuthKind::Unset | AuthKind::OtherProvider => seq![],
        AuthKind::Token => seq!["token"@],
        AuthKind::TokenFile => seq!["tokenFile"@],
        AuthKind::ClientCertificate => seq![CERT_FILE@, CERT_DATA@, KEY_FILE@, KEY_DATA@],
        AuthKind::Exec => seq!["exec"@],
        AuthKind::OidcProvider => seq!["auth-provider"@],
        AuthKind::Basic => seq!["username"@, "password"@],
    }
}

/// Every credential key a user body can have.
pub open spec fn auth_keys() -> Seq<Seq<char>> {
    seq![
        "token"@,
        "tokenFile"@,
        CERT_FILE@,
        CERT_DATA@,
        KEY_FILE@,
        KEY_DATA@,
        "exec"@,
        "auth-provider"@,
        "username"@,
        "password"@,
    ]
}

/// Whether a field stays when a user switches to `kind`.
pub open spec fn stays(kind: AuthKind, key: Seq<char>) -> bool {
    !auth_keys().contains(key) || kind_keys(kind).contains(key)
}

/// The fields that stay when a user switches to `kind`.
pub open spec fn kept(b: Fields, kind: AuthKind) -> Fields {
    json::retained(b, Seq::new(b.len(), |i: int| stays(kind, b[i].0)))
}

/// The starting point of a kind.
pub open spec fn started(b: Fields, kind: AuthKind) -> Fields {
    let nothing = Json::Str(""@);
    match kind {
        AuthKind::Exec => json::put(
            b,
            "exec"@,
            Json::Object(
                seq![("apiVersion"@, Json::Str(EXEC_API_VERSION@)), ("command"@, nothing)],
            ),
        ),
        AuthKind::OidcProvider => json::put(
            b,
            "auth-provider"@,
            Json::Object(
                seq![
                    ("name"@, Json::Str("oidc"@)),
                    (
                        "config"@,
                        Json::Object(seq![("idp-issuer-url"@, nothing), ("client-id"@, nothing)]),
                    ),
                ],
            ),
        ),
        AuthKind::Token => json::put(b, "token"@, nothing),
        AuthKind::TokenFile => json::put(b, "tokenFile"@, nothing),
        AuthKind::Basic => json::put(json::put(b, "username"@, nothing), "password"@, nothing),
        AuthKind::ClientCertificate => json::put(
            json::put(b, CERT_FILE@, nothing),
            KEY_FILE@,
            nothing,
        ),
        AuthKind::Unset | AuthKind::OtherProvider => b,
    }
}

/// The body of a user switched to `kind`.
pub open spec fn with_auth_kind(b: Fields, kind: AuthKind) -> Fields {
    if auth_kind(b) == kind {
        b
    } else {
        started(kept(b, kind), kind)
    }
}

// ----- Secrets -----

/// Whether a non-empty string stands under `key`.
pub open spec fn holds_text(o: Fields, key: Seq<char>) -> bool {
    match json::as_text(json::field(o, key)) {
        Some(s) => s.len() > 0,
        None => false,
    }
}

/// The keys of a user body whose value is a secret.
pub open spec fn user_secret_keys() -> Seq<Seq<char>> {
    seq!["token"@, KEY_DATA@, "password"@]
}

/// The keys of an auth provider's config whose value is a secret.
pub open spec fn provider_secret_keys() -> Seq<Seq<char>> {
    seq!["client-secret"@, "id-token"@, "refresh-token"@, "access-token"@]
}

/// The words in the name of an environment variable that make its value a secret.
pub open spec fn secret_words() -> Seq<Seq<char>> {
    seq![
        "SECRET"@,
        "TOKEN"@,
        "PASSWORD"@,
        "PASSWD"@,
        "CREDENTIAL"@,
        "PRIVATE"@,
        "API_KEY"@,
        "ACCESS_KEY"@,
    ]
}

/// Whether the value of an environment variable is likely a secret.
pub open spec fn secret_env(name: Seq<char>) -> bool {
    exists|i: int|
        0 <= i < secret_words().len() && text::contains_text(
            text::ascii_uppercase(name),
            #[trigger] secret_words()[i],
        )
}

/// The name of an environment variable of an exec plugin; empty if it has none.
pub open spec fn var_name(var: Json) -> Seq<char> {
    match json::text_at(var, "name"@) {
        Some(name) => name,
        None => seq![],
    }
}

pub open spec fn provider_config(b: Fields) -> Option<Fields> {
    match json::field(b, "auth-provider"@) {
        Some(p) => json::as_fields(json::get(p, "config"@)),
        None => None,
    }
}

pub open spec fn exec_env(b: Fields) -> Option<Seq<Json>> {
    match json::field(b, "exec"@) {
        Some(e) => json::as_items(json::get(e, "env"@)),
        None => None,
    }
}

/// The paths of the keys that hold a text.
pub open spec fn text_paths(o: Fields, keys: Seq<Seq<char>>, prefix: Seq<Seq<char>>) -> Seq<
    Seq<Seq<char>>,
>
    decreases keys.len(),
{
    if keys.len() == 0 {
        seq![]
    } else {
        let before = text_paths(o, keys.drop_last(), prefix);
        if holds_text(o, keys.last()) {
            before.push(prefix.push(keys.last()))
        } else {
            before
        }
    }
}

/// The path of the value of an exec plugin's `i`th environment variable.
pub open spec fn var_path(i: nat) -> Seq<Seq<char>> {
    seq!["exec"@, "env"@, text::decimal(i), "value"@]
}

/// The paths of the values of the secret variables.
pub open spec fn secret_vars(env: Seq<Json>) -> Seq<Seq<Seq<char>>>
    decreases env.len(),
{
    if env.len() == 0 {
        seq![]
    } else if secret_env(var_name(env.last())) {
        secret_vars(env.drop_last()).push(var_path((env.len() - 1) as nat))
    } else {
        secret_vars(env.drop_last())
    }
}

pub open spec fn provider_prefix() -> Seq<Seq<char>> {
    seq!["auth-provider"@, "config"@]
}

/// The paths of the secret values in a user body.
pub open spec fn secret_paths(b: Fields) -> Seq<Seq<Seq<char>>> {
    text_paths(b, user_secret_keys(), seq![]) + (match provider_config(b) {
        Some(c) => text_paths(c, provider_secret_keys(), provider_prefix()),
        None => seq![],
    }) + (match exec_env(b) {
        Some(env) => secret_vars(env),
        None => seq![],
    })
}

/// The fields without any of the keys.
pub open spec fn without_keys(o: Fields, keys: Seq<Seq<char>>) -> Fields
    decreases keys.len(),
{
    if keys.len() == 0 {
        o
    } else {
        json::without(without_keys(o, keys.drop_last()), keys.last())
    }
}

/// The variables that aren't secret, in order.
pub open spec fn public_vars(env: Seq<Json>) -> Seq<Json>
    decreases env.len(),
{
    if env.len() == 0 {
        seq![]
    } else if secret_env(var_name(env.last())) {
        public_vars(env.drop_last())
    } else {
        public_vars(env.drop_last()).push(env.last())
    }
}

pub open spec fn without_provider_secrets(b: Fields) -> Fields {
    match provider_config(b) {
        Some(c) => json::put(
            b,
            "auth-provider"@,
            document::with_field(
                json::field(b, "auth-provider"@)->Some_0,
                "config"@,
                Json::Object(without_keys(c, provider_secret_keys())),
            ),
        ),
        None => b,
    }
}

pub open spec fn without_env_secrets(b: Fields) -> Fields {
    match exec_env(b) {
        Some(env) => json::put(
            b,
            "exec"@,
            document::with_field(
                json::field(b, "exec"@)->Some_0,
                "env"@,
                Json::Array(public_vars(env)),
            ),
        ),
        None => b,
    }
}

/// The user body without its secrets. Files referenced by path stay.
pub open spec fn stripped(b: Fields) -> Fields {
    without_env_secrets(without_provider_secrets(without_keys(b, user_secret_keys())))
}

// ----- Masking -----

/// `v` with the text at `path` replaced.
pub open spec fn masked_at(v: Json, path: Seq<Seq<char>>, placeholder: Seq<char>) -> Json {
    if paths::deep(v, path) matches Some(Json::Str(_)) {
        paths::with_deep(v, path, Json::Str(placeholder))
    } else {
        v
    }
}

/// `v` with the texts at the paths replaced, one after another.
pub open spec fn masked(v: Json, at: Seq<Seq<Seq<char>>>, placeholder: Seq<char>) -> Json
    decreases at.len(),
{
    if at.len() == 0 {
        v
    } else {
        masked_at(masked(v, at.drop_last(), placeholder), at.last(), placeholder)
    }
}

/// The texts at the paths, with their paths; a path that has no text is left out.
pub open spec fn texts_at(v: Json, at: Seq<Seq<Seq<char>>>) -> Seq<(Seq<Seq<char>>, Seq<char>)>
    decreases at.len(),
{
    if at.len() == 0 {
        seq![]
    } else {
        let before = texts_at(v, at.drop_last());
        match paths::deep(v, at.last()) {
            Some(Json::Str(s)) => before.push((at.last(), s)),
            _ => before,
        }
    }
}

/// Each path parts from every other.
pub open spec fn apart(at: Seq<Seq<Seq<char>>>) -> bool {
    forall|i: int, j: int|
        0 <= i < j < at.len() ==> paths::diverge(#[trigger] at[i], #[trigger] at[j])
}

/// `v` with texts put back at their paths, the last one first.
pub open spec fn restored(v: Json, taken: Seq<(Seq<Seq<char>>, Seq<char>)>) -> Json
    decreases taken.len(),
{
    if taken.len() == 0 {
        v
    } else {
        let (path, s) = taken.last();
        restored(paths::with_deep(v, path, Json::Str(s)), taken.drop_last())
    }
}

// ----- Exec plugins -----

/// A list's items as texts: strings as they are, anything else as JSON.
pub open spec fn item_texts(items: Seq<Json>) -> Seq<Seq<char>> {
    Seq::new(
        items.len(),
        |i: int|
            match items[i] {
                Json::Str(s) => s,
                other => crate::json_text::json_text(other),
            },
    )
}

pub open spec fn text_or_nothing(v: Json, key: Seq<char>) -> Seq<char> {
    match json::text_at(v, key) {
        Some(s) => s,
        None => seq![],
    }
}

/// The exec plugin a context runs: its user's name and the `exec` block.
pub open spec fn exec_block(d: Json, context: Seq<char>) -> Option<(Seq<char>, Json)> {
    match document::context_reference(d, context, crate::model::Kind::User) {
        None => None,
        Some(user) => match document::body(d, crate::model::Kind::User, user) {
            None => None,
            Some(b) => match json::field(b, "exec"@) {
                None => None,
                Some(e) => Some((user, e)),
            },
        },
    }
}

// ----- Facts -----

proof fn lemma_text_paths_not_empty(o: Fields, keys: Seq<Seq<char>>, prefix: Seq<Seq<char>>)
    ensures
        forall|i: int|
            0 <= i < text_paths(o, keys, prefix).len() ==> (#[trigger] text_paths(
                o,
                keys,
                prefix,
            )[i]).len() > 0,
    decreases keys.len(),
{
    if keys.len() > 0 {
        lemma_text_paths_not_empty(o, keys.drop_last(), prefix);
        let before = text_paths(o, keys.drop_last(), prefix);
        assert forall|i: int| 0 <= i < text_paths(o, keys, prefix).len() implies (
        #[trigger] text_paths(o, keys, prefix)[i]).len() > 0 by {
            if i < before.len() {
                assert(before[i].len() > 0);
            }
        }
    }
}

proof fn lemma_secret_vars_not_empty(env: Seq<Json>)
    ensures
        forall|i: int|
            0 <= i < secret_vars(env).len() ==> (#[trigger] secret_vars(env)[i]).len() > 0,
    decreases env.len(),
{
    if env.len() > 0 {
        lemma_secret_vars_not_empty(env.drop_last());
        let before = secret_vars(env.drop_last());
        assert forall|i: int| 0 <= i < secret_vars(env).len() implies (#[trigger] secret_vars(
            env,
        )[i]).len() > 0 by {
            if i < before.len() {
                assert(before[i].len() > 0);
            }
        }
    }
}

/// No secret stands at the empty path.
pub proof fn lemma_secret_paths_not_empty(b: Fields)
    ensures
        forall|i: int|
            0 <= i < secret_paths(b).len() ==> (#[trigger] secret_paths(b)[i]).len() > 0,
{
    lemma_text_paths_not_empty(b, user_secret_keys(), seq![]);
    if let Some(c) = provider_config(b) {
        lemma_text_paths_not_empty(c, provider_secret_keys(), provider_prefix());
    }
    if let Some(env) = exec_env(b) {
        lemma_secret_vars_not_empty(env);
    }
}

/// Text that starts with neither a digit nor a plus sign is no number.
proof fn lemma_not_a_number(s: Seq<char>)
    requires
        s.len() > 0,
        s[0] != '+',
        !text::is_digit(s[0]),
    ensures
        text::parsed(s) is None,
{
}

/// A number that was written is read back.
proof fn lemma_written_number(n: nat)
    ensures
        text::parsed(text::decimal(n)) == Some(n),
    decreases n,
{
    text::lemma_decimal_digits(n);
}

/// The paths of keys end in one of the keys, and part from each other.
proof fn lemma_text_paths_apart(o: Fields, keys: Seq<Seq<char>>, prefix: Seq<Seq<char>>)
    requires
        keys.no_duplicates(),
        forall|k: int| 0 <= k < keys.len() ==> text::parsed(#[trigger] keys[k]) is None,
    ensures
        apart(text_paths(o, keys, prefix)),
        forall|i: int|
            0 <= i < text_paths(o, keys, prefix).len() ==> exists|k: int|
                0 <= k < keys.len() && (#[trigger] text_paths(o, keys, prefix)[i]) == prefix.push(
                    #[trigger] keys[k],
                ),
    decreases keys.len(),
{
    if keys.len() > 0 {
        let fewer = keys.drop_last();
        assert(fewer.no_duplicates());
        assert forall|k: int| 0 <= k < fewer.len() implies text::parsed(
            #[trigger] fewer[k],
        ) is None by {
            assert(fewer[k] == keys[k]);
        }
        lemma_text_paths_apart(o, fewer, prefix);
        let before = text_paths(o, fewer, prefix);
        let all = text_paths(o, keys, prefix);
        let last = keys.len() - 1;
        assert forall|i: int| 0 <= i < all.len() implies exists|k: int|
            0 <= k < keys.len() && (#[trigger] all[i]) == prefix.push(#[trigger] keys[k]) by {
            if i < before.len() {
                let k = choose|k: int|
                    0 <= k < fewer.len() && before[i] == prefix.push(#[trigger] fewer[k]);
                assert(all[i] == prefix.push(keys[k]));
            } else {
                assert(all[i] == prefix.push(keys[last]));
            }
        }
        assert forall|i: int, j: int| 0 <= i < j < all.len() implies paths::diverge(
            #[trigger] all[i],
            #[trigger] all[j],
        ) by {
            assert(all[i] == before[i]);
            if j < before.len() {
                assert(all[j] == before[j]);
            } else {
                let k = choose|k: int|
                    0 <= k < fewer.len() && before[i] == prefix.push(#[trigger] fewer[k]);
                assert(fewer[k] == keys[k]);
                paths::diverge_at_the_end(prefix, keys[k], keys[last]);
            }
        }
    }
}

/// The paths of two variables part.
proof fn lemma_var_paths_diverge(i: nat, j: nat)
    requires
        i != j,
    ensures
        paths::diverge(var_path(i), var_path(j)),
{
    lemma_written_number(i);
    lemma_written_number(j);
    let p = var_path(i);
    let q = var_path(j);
    reveal_with_fuel(paths::diverge, 3);
    assert(p.drop_first().drop_first()[0] == text::decimal(i));
    assert(q.drop_first().drop_first()[0] == text::decimal(j));
}

/// The paths of the secret variables are paths of variables, and part from each other.
proof fn lemma_secret_vars_apart(env: Seq<Json>)
    ensures
        apart(secret_vars(env)),
        forall|i: int|
            0 <= i < secret_vars(env).len() ==> exists|k: int|
                0 <= k < env.len() && (#[trigger] secret_vars(env)[i]) == #[trigger] var_path(
                    k as nat,
                ),
    decreases env.len(),
{
    if env.len() > 0 {
        let fewer = env.drop_last();
        lemma_secret_vars_apart(fewer);
        let before = secret_vars(fewer);
        let all = secret_vars(env);
        let last = env.len() - 1;
        assert forall|i: int| 0 <= i < all.len() implies exists|k: int|
            0 <= k < env.len() && (#[trigger] all[i]) == #[trigger] var_path(k as nat) by {
            if i < before.len() {
                let k = choose|k: int|
                    0 <= k < fewer.len() && before[i] == #[trigger] var_path(k as nat);
                assert(all[i] == var_path(k as nat));
            } else {
                assert(all[i] == var_path(last as nat));
            }
        }
        assert forall|i: int, j: int| 0 <= i < j < all.len() implies paths::diverge(
            #[trigger] all[i],
            #[trigger] all[j],
        ) by {
            assert(all[i] == before[i]);
            if j < before.len() {
                assert(all[j] == before[j]);
            } else {
                let k = choose|k: int|
                    0 <= k < fewer.len() && before[i] == #[trigger] var_path(k as nat);
                lemma_var_paths_diverge(k as nat, last as nat);
            }
        }
    }
}

proof fn lemma_secret_keys()
    ensures
        user_secret_keys().no_duplicates(),
        provider_secret_keys().no_duplicates(),
        forall|k: int|
            0 <= k < user_secret_keys().len() ==> text::parsed(#[trigger] user_secret_keys()[k]) is None
                && user_secret_keys()[k] != "auth-provider"@ && user_secret_keys()[k] != "exec"@,
        forall|k: int|
            0 <= k < provider_secret_keys().len() ==> text::parsed(
                #[trigger] provider_secret_keys()[k],
            ) is None,
        "auth-provider"@ != "exec"@,
        text::parsed("auth-provider"@) is None,
        text::parsed("exec"@) is None,
{
    reveal_strlit("token");
    reveal_strlit("client-key-data");
    reveal_strlit("password");
    reveal_strlit("client-secret");
    reveal_strlit("id-token");
    reveal_strlit("refresh-token");
    reveal_strlit("access-token");
    reveal_strlit("auth-provider");
    reveal_strlit("exec");
    assert("token"@.len() == 5 && "client-key-data"@.len() == 15 && "password"@.len() == 8);
    assert("client-secret"@.len() == 13 && "id-token"@.len() == 8);
    assert("refresh-token"@.len() == 13 && "access-token"@.len() == 12);
    assert("client-secret"@[0] == 'c' && "refresh-token"@[0] == 'r');
    assert("auth-provider"@.len() == 13 && "exec"@.len() == 4);
    lemma_not_a_number("token"@);
    lemma_not_a_number("client-key-data"@);
    lemma_not_a_number("password"@);
    lemma_not_a_number("client-secret"@);
    lemma_not_a_number("id-token"@);
    lemma_not_a_number("refresh-token"@);
    lemma_not_a_number("access-token"@);
    lemma_not_a_number("auth-provider"@);
    lemma_not_a_number("exec"@);
}

/// The paths of a user's secrets part from each other.
pub proof fn lemma_secret_paths_apart(b: Fields)
    ensures
        apart(secret_paths(b)),
{
    lemma_secret_keys();
    let x = text_paths(b, user_secret_keys(), seq![]);
    let y = match provider_config(b) {
        Some(c) => text_paths(c, provider_secret_keys(), provider_prefix()),
        None => seq![],
    };
    let z = match exec_env(b) {
        Some(env) => secret_vars(env),
        None => seq![],
    };
    lemma_text_paths_apart(b, user_secret_keys(), seq![]);
    if let Some(c) = provider_config(b) {
        lemma_text_paths_apart(c, provider_secret_keys(), provider_prefix());
    }
    if let Some(env) = exec_env(b) {
        lemma_secret_vars_apart(env);
    }
    let all = secret_paths(b);
    assert(all == x + y + z);
    let m = x.len();
    let n = x.len() + y.len();
    assert forall|i: int| 0 <= i < m implies (#[trigger] x[i]).len() == 1
        && text::parsed(x[i][0]) is None && x[i][0] != "auth-provider"@ && x[i][0] != "exec"@ by {
        let k = choose|k: int|
            0 <= k < user_secret_keys().len() && x[i] == Seq::<Seq<char>>::empty().push(
                #[trigger] user_secret_keys()[k],
            );
        assert(x[i][0] == user_secret_keys()[k]);
    }
    assert forall|i: int| 0 <= i < y.len() implies (#[trigger] y[i]).len() == 3 && y[i][0]
        == "auth-provider"@ by {
        let k = choose|k: int|
            0 <= k < provider_secret_keys().len() && y[i] == provider_prefix().push(
                #[trigger] provider_secret_keys()[k],
            );
    }
    assert forall|i: int| 0 <= i < z.len() implies (#[trigger] z[i]).len() == 4 && z[i][0]
        == "exec"@ by {
        let k = choose|k: int| z[i] == #[trigger] var_path(k as nat);
    }
    assert forall|i: int, j: int| 0 <= i < j < all.len() implies paths::diverge(
        #[trigger] all[i],
        #[trigger] all[j],
    ) by {
        if j < m {
            assert(all[i] == x[i] && all[j] == x[j]);
        } else if j < n {
            assert(all[j] == y[j - m]);
            if i < m {
                assert(all[i] == x[i]);
            } else {
                assert(all[i] == y[i - m]);
            }
        } else {
            assert(all[j] == z[j - n]);
            if i < m {
                assert(all[i] == x[i]);
            } else if i < n {
                assert(all[i] == y[i - m]);
            } else {
                assert(all[i] == z[i - n]);
            }
        }
    }
}

/// Masking at paths leaves what stands at a path that parts from all of them.
pub proof fn masked_elsewhere(
    v: Json,
    at: Seq<Seq<Seq<char>>>,
    placeholder: Seq<char>,
    q: Seq<Seq<char>>,
)
    requires
        forall|i: int| 0 <= i < at.len() ==> paths::diverge(#[trigger] at[i], q),
    ensures
        paths::deep(masked(v, at, placeholder), q) == paths::deep(v, q),
    decreases at.len(),
{
    if at.len() > 0 {
        let fewer = at.drop_last();
        assert forall|i: int| 0 <= i < fewer.len() implies paths::diverge(
            #[trigger] fewer[i],
            q,
        ) by {
            assert(fewer[i] == at[i]);
        }
        masked_elsewhere(v, fewer, placeholder, q);
        assert(paths::diverge(at[at.len() - 1], q));
        paths::replace_elsewhere(
            masked(v, fewer, placeholder),
            at.last(),
            Json::Str(placeholder),
            q,
        );
    }
}

} // verus!
