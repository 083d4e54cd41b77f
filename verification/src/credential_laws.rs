//! What is a secret of a user, key by key, and what becomes of it when a document is shown,
//! saved or taken out.

use crate::credentials;
use crate::document;
use crate::json::{self, Fields, Json};
use crate::laws;
use crate::masking_laws;
use crate::model::Kind;
use crate::paths;
use crate::shape_laws;
use crate::text;
use crate::transfer;
use crate::transfer_laws;
use crate::users::AuthKind;
use vstd::prelude::*;

verus! {

/// A key of a user that holds a secret.
pub open spec fn is_user_secret(key: Seq<char>) -> bool {
    key == "token"@ || key == "client-key-data"@ || key == "password"@
}

/// A key of a login provider's settings that holds a secret.
pub open spec fn is_provider_secret(key: Seq<char>) -> bool {
    key == "client-secret"@ || key == "id-token"@ || key == "refresh-token"@ || key
        == "access-token"@
}

/// A variable whose name, in capitals, has a word for a secret in it.
pub open spec fn is_secret_name(name: Seq<char>) -> bool {
    let capitals = text::ascii_uppercase(name);
    ||| text::contains_text(capitals, "SECRET"@)
    ||| text::contains_text(capitals, "TOKEN"@)
    ||| text::contains_text(capitals, "PASSWORD"@)
    ||| text::contains_text(capitals, "PASSWD"@)
    ||| text::contains_text(capitals, "CREDENTIAL"@)
    ||| text::contains_text(capitals, "PRIVATE"@)
    ||| text::contains_text(capitals, "API_KEY"@)
    ||| text::contains_text(capitals, "ACCESS_KEY"@)
}

proof fn lemma_user_secret_keys()
    ensures
        forall|k: Seq<char>| #[trigger]
            credentials::user_secret_keys().contains(k) <==> is_user_secret(k),
{
    laws::lemma_auth_literals();
    let keys = credentials::user_secret_keys();
    assert(keys[0] == "token"@);
    assert(keys[1] == "client-key-data"@);
    assert(keys[2] == "password"@);
}

pub proof fn lemma_provider_secret_keys()
    ensures
        forall|k: Seq<char>| #[trigger]
            credentials::provider_secret_keys().contains(k) <==> is_provider_secret(k),
{
    let keys = credentials::provider_secret_keys();
    assert(keys[0] == "client-secret"@);
    assert(keys[1] == "id-token"@);
    assert(keys[2] == "refresh-token"@);
    assert(keys[3] == "access-token"@);
}

pub proof fn lemma_secret_names(name: Seq<char>)
    ensures
        credentials::secret_env(name) <==> is_secret_name(name),
{
    let words = credentials::secret_words();
    assert(words[0] == "SECRET"@);
    assert(words[1] == "TOKEN"@);
    assert(words[2] == "PASSWORD"@);
    assert(words[3] == "PASSWD"@);
    assert(words[4] == "CREDENTIAL"@);
    assert(words[5] == "PRIVATE"@);
    assert(words[6] == "API_KEY"@);
    assert(words[7] == "ACCESS_KEY"@);
}

// ----- Which paths are secret -----

proof fn lemma_text_paths(o: Fields, keys: Seq<Seq<char>>, prefix: Seq<Seq<char>>)
    ensures
        forall|p: Seq<Seq<char>>|
            #[trigger] credentials::text_paths(o, keys, prefix).contains(p) <==> exists|i: int|
                0 <= i < keys.len() && p == prefix.push(#[trigger] keys[i])
                    && credentials::holds_text(o, keys[i]),
    decreases keys.len(),
{
    if keys.len() > 0 {
        let before = keys.drop_last();
        lemma_text_paths(o, before, prefix);
        let found = credentials::text_paths(o, before, prefix);
        let all = credentials::text_paths(o, keys, prefix);
        assert forall|p: Seq<Seq<char>>| #[trigger] all.contains(p) <==> exists|i: int|
            0 <= i < keys.len() && p == prefix.push(#[trigger] keys[i]) && credentials::holds_text(
                o,
                keys[i],
            ) by {
            if all.contains(p) {
                let j = choose|j: int| 0 <= j < all.len() && all[j] == p;
                if j < found.len() {
                    assert(found[j] == p);
                    assert(found.contains(p));
                    let i = choose|i: int|
                        0 <= i < before.len() && p == prefix.push(#[trigger] before[i])
                            && credentials::holds_text(o, before[i]);
                    assert(keys[i] == before[i]);
                } else {
                    assert(p == prefix.push(keys[keys.len() - 1]));
                }
            }
            if exists|i: int|
                0 <= i < keys.len() && p == prefix.push(#[trigger] keys[i])
                    && credentials::holds_text(o, keys[i]) {
                let i = choose|i: int|
                    0 <= i < keys.len() && p == prefix.push(#[trigger] keys[i])
                        && credentials::holds_text(o, keys[i]);
                if i < before.len() {
                    assert(before[i] == keys[i]);
                    assert(found.contains(p));
                    let j = choose|j: int| 0 <= j < found.len() && found[j] == p;
                    assert(all[j] == p);
                } else {
                    assert(all[all.len() - 1] == p);
                }
            }
        }
    }
}

proof fn lemma_secret_vars(env: Seq<Json>)
    ensures
        forall|p: Seq<Seq<char>>|
            #[trigger] credentials::secret_vars(env).contains(p) <==> exists|i: int|
                0 <= i < env.len() && p == credentials::var_path(i as nat)
                    && credentials::secret_env(credentials::var_name(#[trigger] env[i])),
    decreases env.len(),
{
    if env.len() > 0 {
        let before = env.drop_last();
        lemma_secret_vars(before);
        let found = credentials::secret_vars(before);
        let all = credentials::secret_vars(env);
        assert forall|p: Seq<Seq<char>>| #[trigger] all.contains(p) <==> exists|i: int|
            0 <= i < env.len() && p == credentials::var_path(i as nat) && credentials::secret_env(
                credentials::var_name(#[trigger] env[i]),
            ) by {
            if all.contains(p) {
                let j = choose|j: int| 0 <= j < all.len() && all[j] == p;
                if j < found.len() {
                    assert(found[j] == p);
                    assert(found.contains(p));
                    let i = choose|i: int|
                        0 <= i < before.len() && p == credentials::var_path(i as nat)
                            && credentials::secret_env(credentials::var_name(#[trigger] before[i]));
                    assert(env[i] == before[i]);
                } else {
                    assert(p == credentials::var_path((env.len() - 1) as nat));
                    assert(env[env.len() - 1] == env.last());
                }
            }
            if exists|i: int|
                0 <= i < env.len() && p == credentials::var_path(i as nat)
                    && credentials::secret_env(credentials::var_name(#[trigger] env[i])) {
                let i = choose|i: int|
                    0 <= i < env.len() && p == credentials::var_path(i as nat)
                        && credentials::secret_env(credentials::var_name(#[trigger] env[i]));
                if i < before.len() {
                    assert(before[i] == env[i]);
                    assert(found.contains(p));
                    let j = choose|j: int| 0 <= j < found.len() && found[j] == p;
                    assert(all[j] == p);
                } else {
                    assert(all[all.len() - 1] == p);
                }
            }
        }
    }
}

proof fn lemma_secret_paths(b: Fields, p: Seq<Seq<char>>)
    ensures
        credentials::secret_paths(b).contains(p) <==> {
            ||| credentials::text_paths(b, credentials::user_secret_keys(), seq![]).contains(p)
            ||| credentials::provider_config(b) matches Some(c) && credentials::text_paths(
                c,
                credentials::provider_secret_keys(),
                credentials::provider_prefix(),
            ).contains(p)
            ||| credentials::exec_env(b) matches Some(env) && credentials::secret_vars(
                env,
            ).contains(p)
        },
{
    let x = credentials::text_paths(b, credentials::user_secret_keys(), seq![]);
    let y = match credentials::provider_config(b) {
        Some(c) => credentials::text_paths(
            c,
            credentials::provider_secret_keys(),
            credentials::provider_prefix(),
        ),
        None => seq![],
    };
    let z = match credentials::exec_env(b) {
        Some(env) => credentials::secret_vars(env),
        None => seq![],
    };
    let all = x + y + z;
    assert(all == credentials::secret_paths(b));
    if x.contains(p) {
        let i = choose|i: int| 0 <= i < x.len() && x[i] == p;
        assert(all[i] == p);
    }
    if y.contains(p) {
        let i = choose|i: int| 0 <= i < y.len() && y[i] == p;
        assert(all[x.len() + i] == p);
    }
    if z.contains(p) {
        let i = choose|i: int| 0 <= i < z.len() && z[i] == p;
        assert(all[x.len() + y.len() + i] == p);
    }
    if all.contains(p) {
        let i = choose|i: int| 0 <= i < all.len() && all[i] == p;
        if i < x.len() {
            assert(x[i] == p);
        } else if i < x.len() + y.len() {
            assert(y[i - x.len()] == p);
        } else {
            assert(z[i - x.len() - y.len()] == p);
        }
    }
}

/// A token, a private key and a password are secrets of their user, wherever they aren't empty.
pub proof fn credentials_of_a_user_are_secret(b: Fields, key: Seq<char>, s: Seq<char>)
    requires
        key == "token"@ || key == "client-key-data"@ || key == "password"@,
        json::field(b, key) == Some(Json::Str(s)),
        s.len() > 0,
    ensures
        credentials::secret_paths(b).contains(seq![key]),
        paths::deep(Json::Object(b), seq![key]) == Some(Json::Str(s)),
{
    lemma_user_secret_keys();
    let keys = credentials::user_secret_keys();
    assert(keys.contains(key));
    let i = choose|i: int| 0 <= i < keys.len() && keys[i] == key;
    lemma_text_paths(b, keys, seq![]);
    assert(seq![key] =~= Seq::<Seq<char>>::empty().push(keys[i]));
    assert(credentials::holds_text(b, keys[i]));
    lemma_secret_paths(b, seq![key]);
    reveal_with_fuel(paths::deep, 2);
}

/// The client secret and the tokens in a login provider's settings are secrets of the user,
/// wherever they aren't empty.
pub proof fn credentials_of_a_provider_are_secret(
    b: Fields,
    provider: Fields,
    config: Fields,
    key: Seq<char>,
    s: Seq<char>,
)
    requires
        json::field(b, "auth-provider"@) == Some(Json::Object(provider)),
        json::field(provider, "config"@) == Some(Json::Object(config)),
        key == "client-secret"@ || key == "id-token"@ || key == "refresh-token"@ || key
            == "access-token"@,
        json::field(config, key) == Some(Json::Str(s)),
        s.len() > 0,
    ensures
        credentials::secret_paths(b).contains(seq!["auth-provider"@, "config"@, key]),
{
    lemma_provider_secret_keys();
    let keys = credentials::provider_secret_keys();
    assert(keys.contains(key));
    let i = choose|i: int| 0 <= i < keys.len() && keys[i] == key;
    let p = seq!["auth-provider"@, "config"@, key];
    lemma_text_paths(config, keys, credentials::provider_prefix());
    assert(p =~= credentials::provider_prefix().push(keys[i]));
    assert(credentials::holds_text(config, keys[i]));
    lemma_secret_paths(b, p);
}

/// The value of a plugin's variable is a secret of the user where the variable's name has a word
/// for a secret in it, in whatever case.
pub proof fn secret_variables_are_secret(
    b: Fields,
    exec: Fields,
    env: Seq<Json>,
    i: int,
    variable: Fields,
    name: Seq<char>,
)
    requires
        json::field(b, "exec"@) == Some(Json::Object(exec)),
        json::field(exec, "env"@) == Some(Json::Array(env)),
        0 <= i < env.len(),
        env[i] == Json::Object(variable),
        json::field(variable, "name"@) == Some(Json::Str(name)),
        is_secret_name(name),
    ensures
        credentials::secret_paths(b).contains(
            seq!["exec"@, "env"@, text::decimal(i as nat), "value"@],
        ),
{
    lemma_secret_names(name);
    lemma_secret_vars(env);
    assert(credentials::var_name(env[i]) == name);
    let p = seq!["exec"@, "env"@, text::decimal(i as nat), "value"@];
    assert(p == credentials::var_path(i as nat));
    lemma_secret_paths(b, p);
}

/// Nothing else is a secret: a secret's path is that of a token, a private key or a password of
/// the user, of a secret or a token in the login provider's settings, or of the value of a
/// variable with a word for a secret in its name.
pub proof fn nothing_else_is_secret(b: Fields, p: Seq<Seq<char>>)
    requires
        credentials::secret_paths(b).contains(p),
    ensures
        ({
            ||| p.len() == 1 && is_user_secret(p[0])
            ||| p.len() == 3 && p[0] == "auth-provider"@ && p[1] == "config"@
                && is_provider_secret(p[2])
            ||| exists|i: int|
                0 <= i < credentials::exec_env(b)->Some_0.len() && p == seq![
                    "exec"@,
                    "env"@,
                    text::decimal(i as nat),
                    "value"@,
                ] && is_secret_name(
                    credentials::var_name(#[trigger] credentials::exec_env(b)->Some_0[i]),
                )
        }),
{
    lemma_user_secret_keys();
    lemma_provider_secret_keys();
    lemma_secret_paths(b, p);
    let keys = credentials::user_secret_keys();
    lemma_text_paths(b, keys, seq![]);
    if credentials::text_paths(b, keys, seq![]).contains(p) {
        let i = choose|i: int|
            0 <= i < keys.len() && p == Seq::<Seq<char>>::empty().push(#[trigger] keys[i])
                && credentials::holds_text(b, keys[i]);
        assert(keys.contains(keys[i]));
    } else if credentials::provider_config(b) is Some && credentials::text_paths(
        credentials::provider_config(b)->Some_0,
        credentials::provider_secret_keys(),
        credentials::provider_prefix(),
    ).contains(p) {
        let c = credentials::provider_config(b)->Some_0;
        let keys = credentials::provider_secret_keys();
        lemma_text_paths(c, keys, credentials::provider_prefix());
        let i = choose|i: int|
            0 <= i < keys.len() && p == credentials::provider_prefix().push(#[trigger] keys[i])
                && credentials::holds_text(c, keys[i]);
        assert(keys.contains(keys[i]));
    } else {
        let env = credentials::exec_env(b)->Some_0;
        lemma_secret_vars(env);
        let i = choose|i: int|
            0 <= i < env.len() && p == credentials::var_path(i as nat) && credentials::secret_env(
                credentials::var_name(#[trigger] env[i]),
            );
        lemma_secret_names(credentials::var_name(env[i]));
    }
}

// ----- Stripping -----

proof fn lemma_stripped(b: Fields)
    requires
        json::fields_well_formed(b),
    ensures
        ({
            let s = credentials::stripped(b);
            &&& forall|k: Seq<char>| is_user_secret(k) ==> !(#[trigger] json::has_key(s, k))
            &&& forall|k: Seq<char>|
                !is_user_secret(k) && k != "auth-provider"@ && k != "exec"@ ==> #[trigger]
                    json::field(s, k) == json::field(b, k)
            &&& json::field(s, "auth-provider"@) == match credentials::provider_config(b) {
                Some(c) => Some(
                    document::with_field(
                        json::field(b, "auth-provider"@)->Some_0,
                        "config"@,
                        Json::Object(
                            credentials::without_keys(c, credentials::provider_secret_keys()),
                        ),
                    ),
                ),
                None => json::field(b, "auth-provider"@),
            }
            &&& json::field(s, "exec"@) == match credentials::exec_env(b) {
                Some(env) => Some(
                    document::with_field(
                        json::field(b, "exec"@)->Some_0,
                        "env"@,
                        Json::Array(credentials::public_vars(env)),
                    ),
                ),
                None => json::field(b, "exec"@),
            }
        }),
{
    laws::lemma_auth_literals();
    lemma_user_secret_keys();
    let keys = credentials::user_secret_keys();
    laws::lemma_without_keys(b, keys);
    let b1 = credentials::without_keys(b, keys);
    let b2 = credentials::without_provider_secrets(b1);
    let b3 = credentials::without_env_secrets(b2);
    assert(!keys.contains("auth-provider"@) && !keys.contains("exec"@));
    assert(json::field(b1, "auth-provider"@) == json::field(b, "auth-provider"@));
    assert(json::field(b1, "exec"@) == json::field(b, "exec"@));
    if let Some(c) = credentials::provider_config(b1) {
        json::put_then_field(
            b1,
            "auth-provider"@,
            document::with_field(
                json::field(b1, "auth-provider"@)->Some_0,
                "config"@,
                Json::Object(credentials::without_keys(c, credentials::provider_secret_keys())),
            ),
        );
    }
    assert(json::field(b2, "exec"@) == json::field(b, "exec"@));
    if let Some(env) = credentials::exec_env(b2) {
        json::put_then_field(
            b2,
            "exec"@,
            document::with_field(
                json::field(b2, "exec"@)->Some_0,
                "env"@,
                Json::Array(credentials::public_vars(env)),
            ),
        );
    }
    assert forall|k: Seq<char>| is_user_secret(k) implies !(#[trigger] json::has_key(b3, k)) by {
        assert(keys.contains(k));
        assert(!json::has_key(b1, k));
        assert(k != "auth-provider"@ && k != "exec"@);
        assert(json::field(b1, k) is None);
        assert(json::field(b2, k) is None);
        assert(json::field(b3, k) is None);
    }
    assert forall|k: Seq<char>|
        !is_user_secret(k) && k != "auth-provider"@ && k != "exec"@ implies #[trigger] json::field(
        b3,
        k,
    ) == json::field(b, k) by {
        assert(!keys.contains(k));
        assert(json::field(b1, k) == json::field(b, k));
        assert(json::field(b2, k) == json::field(b, k));
    }
}

/// A stripped user has no token, no private key and no password, not even an empty one.
pub proof fn stripping_takes_the_credentials(b: Fields)
    requires
        json::fields_well_formed(b),
    ensures
        !json::has_key(credentials::stripped(b), "token"@),
        !json::has_key(credentials::stripped(b), "client-key-data"@),
        !json::has_key(credentials::stripped(b), "password"@),
{
    lemma_stripped(b);
}

/// Stripping keeps whatever isn't a credential: the certificate, the paths of files, the name,
/// and every field that isn't known.
pub proof fn stripping_keeps_the_rest(b: Fields, key: Seq<char>)
    requires
        json::fields_well_formed(b),
        key != "token"@,
        key != "client-key-data"@,
        key != "password"@,
        key != "auth-provider"@,
        key != "exec"@,
    ensures
        json::field(credentials::stripped(b), key) == json::field(b, key),
{
    lemma_stripped(b);
}

/// Of a login provider's settings, stripping takes the client secret and the tokens and keeps
/// the rest, and it keeps the provider's other fields.
pub proof fn stripping_takes_a_providers_credentials(
    b: Fields,
    provider: Fields,
    config: Fields,
    key: Seq<char>,
)
    requires
        json::fields_well_formed(b),
        json::field(b, "auth-provider"@) == Some(Json::Object(provider)),
        json::field(provider, "config"@) == Some(Json::Object(config)),
    ensures
        ({
            let after = json::field(credentials::stripped(b), "auth-provider"@);
            let left = json::as_fields(json::get(after->Some_0, "config"@));
            &&& after is Some
            &&& left is Some
            &&& key == "client-secret"@ || key == "id-token"@ || key == "refresh-token"@ || key
                == "access-token"@ ==> !json::has_key(left->Some_0, key)
            &&& key != "client-secret"@ && key != "id-token"@ && key != "refresh-token"@ && key
                != "access-token"@ ==> json::field(left->Some_0, key) == json::field(config, key)
            &&& key != "config"@ ==> json::get(after->Some_0, key) == json::field(provider, key)
        }),
{
    lemma_stripped(b);
    lemma_provider_secret_keys();
    json::lemma_field_well_formed(b, "auth-provider"@);
    assert(json::well_formed(Json::Object(provider)));
    assert(json::fields_well_formed(provider));
    json::lemma_field_well_formed(provider, "config"@);
    assert(json::well_formed(Json::Object(config)));
    assert(json::fields_well_formed(config));
    let keys = credentials::provider_secret_keys();
    laws::lemma_without_keys(config, keys);
    assert(keys.contains(key) <==> is_provider_secret(key));
    json::put_then_field(
        provider,
        "config"@,
        Json::Object(credentials::without_keys(config, keys)),
    );
}

/// Whether a list is another's elements at rising places.
pub open spec fn taken_in_order(from: Seq<Json>, places: Seq<int>, to: Seq<Json>) -> bool {
    &&& places.len() == to.len()
    &&& forall|i: int|
        0 <= i < to.len() ==> 0 <= #[trigger] places[i] < from.len() && to[i] == from[places[i]]
    &&& forall|i: int, j: int| 0 <= i < j < to.len() ==> #[trigger] places[i] < #[trigger] places[j]
}

proof fn lemma_public_vars_in_order(env: Seq<Json>) -> (places: Seq<int>)
    ensures
        taken_in_order(env, places, credentials::public_vars(env)),
        forall|i: int|
            0 <= i < env.len() && !credentials::secret_env(
                credentials::var_name(#[trigger] env[i]),
            ) ==> places.contains(i),
    decreases env.len(),
{
    if env.len() == 0 {
        Seq::empty()
    } else {
        let before = env.drop_last();
        let p = lemma_public_vars_in_order(before);
        let secret = credentials::secret_env(credentials::var_name(env.last()));
        let r = if secret {
            p
        } else {
            p.push(env.len() - 1)
        };
        let vars = credentials::public_vars(env);
        assert forall|i: int| 0 <= i < vars.len() implies 0 <= #[trigger] r[i] < env.len()
            && vars[i] == env[r[i]] by {
            if i < p.len() {
                assert(r[i] == p[i]);
                assert(before[p[i]] == env[p[i]]);
            }
        }
        assert forall|i: int|
            0 <= i < env.len() && !credentials::secret_env(
                credentials::var_name(#[trigger] env[i]),
            ) implies r.contains(i) by {
            if i < before.len() {
                assert(before[i] == env[i]);
                assert(p.contains(i));
                let j = choose|j: int| 0 <= j < p.len() && p[j] == i;
                assert(r[j] == i);
            } else {
                assert(r[r.len() - 1] == i);
            }
        }
        r
    }
}

/// Of a plugin's variables, stripping takes exactly those whose names have a word for a secret in
/// them; the others stay, in their order, and so do the plugin's other fields.
pub proof fn stripping_takes_secret_variables(
    b: Fields,
    exec: Fields,
    env: Seq<Json>,
    key: Seq<char>,
) -> (places: Seq<int>)
    requires
        json::fields_well_formed(b),
        json::field(b, "exec"@) == Some(Json::Object(exec)),
        json::field(exec, "env"@) == Some(Json::Array(env)),
    ensures
        ({
            let after = json::field(credentials::stripped(b), "exec"@);
            let left = json::as_items(json::get(after->Some_0, "env"@));
            &&& after is Some
            &&& left is Some
            &&& taken_in_order(env, places, left->Some_0)
            &&& forall|i: int|
                0 <= i < env.len() ==> (places.contains(i) <==> !is_secret_name(
                    credentials::var_name(#[trigger] env[i]),
                ))
            &&& key != "env"@ ==> json::get(after->Some_0, key) == json::field(exec, key)
        }),
{
    lemma_stripped(b);
    let vars = credentials::public_vars(env);
    json::put_then_field(exec, "env"@, Json::Array(vars));
    laws::lemma_public_vars(env);
    let places = lemma_public_vars_in_order(env);
    assert forall|i: int| 0 <= i < env.len() implies (places.contains(i) <==> !is_secret_name(
        credentials::var_name(#[trigger] env[i]),
    )) by {
        lemma_secret_names(credentials::var_name(env[i]));
        if places.contains(i) {
            let j = choose|j: int| 0 <= j < places.len() && places[j] == i;
            assert(vars[j] == env[places[j]]);
            assert(!credentials::secret_env(credentials::var_name(vars[j])));
        }
    }
    places
}

// ----- Documents -----

/// No user of a document that was taken out without credentials has a token, a private key or a
/// password.
pub proof fn extracts_without_credentials_hold_none(
    d: Json,
    context: Seq<char>,
    place: int,
    b: Fields,
)
    requires
        json::well_formed(d),
        document::contains(d, Kind::Context, context),
        context.len() > 0,
        0 <= place < document::list(
            transfer::extracted(d, context, false)->Some_0,
            Kind::User,
        ).len(),
        document::body_of(
            document::list(transfer::extracted(d, context, false)->Some_0, Kind::User)[place],
            Kind::User,
        ) == Some(b),
    ensures
        !json::has_key(b, "token"@),
        !json::has_key(b, "client-key-data"@),
        !json::has_key(b, "password"@),
{
    transfer_laws::extracted_document_is_one_context(d, context, false);
    let name = document::context_reference(d, context, Kind::User)->Some_0;
    let u = document::entry(d, Kind::User, name)->Some_0;
    assert(transfer::referred(d, context, Kind::User) == Some(u));
    shape_laws::lemma_entry_well_formed(d, Kind::User, name);
    shape_laws::lemma_get_well_formed(u, "user"@);
    if let Some(before) = document::body_of(u, Kind::User) {
        assert(json::fields_well_formed(before));
        lemma_stripped(before);
        json::put_then_field(
            document::fields_of(u),
            "user"@,
            Json::Object(credentials::stripped(before)),
        );
        assert(b == credentials::stripped(before));
    } else {
        assert(document::body_of(transfer::exported_user(u, false), Kind::User) is None);
    }
}

/// A document with credentials is taken out with the user as it stands.
pub proof fn extracts_with_credentials_keep_the_user(d: Json, context: Seq<char>, name: Seq<char>)
    requires
        document::contains(d, Kind::Context, context),
        context.len() > 0,
        document::context_reference(d, context, Kind::User) == Some(name),
        document::contains(d, Kind::User, name),
    ensures
        document::list(transfer::extracted(d, context, true)->Some_0, Kind::User) == seq![
            document::entry(d, Kind::User, name)->Some_0,
        ],
{
    transfer_laws::extracted_document_is_one_context(d, context, true);
}

/// A document with a token, a private key or a password in one of its users holds secrets, so
/// that its file is made private.
pub proof fn documents_with_credentials_hold_secrets(
    d: Json,
    place: int,
    b: Fields,
    key: Seq<char>,
    s: Seq<char>,
)
    requires
        0 <= place < document::list(d, Kind::User).len(),
        document::body_of(document::list(d, Kind::User)[place], Kind::User) == Some(b),
        key == "token"@ || key == "client-key-data"@ || key == "password"@,
        json::field(b, key) == Some(Json::Str(s)),
        s.len() > 0,
    ensures
        transfer::holds_secrets(d),
{
    credentials_of_a_user_are_secret(b, key, s);
    assert(transfer::holds_secret(document::list(d, Kind::User)[place]));
}

/// A masked document shows the placeholder in place of every token, private key and password.
pub proof fn masked_documents_show_no_credentials(
    d: Json,
    placeholder: Seq<char>,
    place: int,
    b: Fields,
    key: Seq<char>,
    s: Seq<char>,
)
    requires
        0 <= place < document::list(d, Kind::User).len(),
        document::body_of(document::list(d, Kind::User)[place], Kind::User) == Some(b),
        key == "token"@ || key == "client-key-data"@ || key == "password"@,
        json::field(b, key) == Some(Json::Str(s)),
        s.len() > 0,
    ensures
        ({
            let shown = document::body_of(
                document::list(transfer::with_masked_users(d, placeholder), Kind::User)[place],
                Kind::User,
            );
            &&& shown is Some
            &&& json::field(shown->Some_0, key) == Some(Json::Str(placeholder))
        }),
{
    credentials_of_a_user_are_secret(b, key, s);
    let all = credentials::secret_paths(b);
    let k = choose|k: int| 0 <= k < all.len() && all[k] == seq![key];
    masking_laws::masked_documents_show_no_secret(d, placeholder, place, b, k);
    reveal_with_fuel(paths::deep, 2);
}

// ----- Ways of signing in -----

/// What kind of user a body makes: a plugin goes before a login provider, that before a
/// certificate, that before a token, that before a token file, that before a name and password.
pub proof fn the_first_credential_decides_the_kind(b: Fields)
    ensures
        ({
            let kind = credentials::auth_kind(b);
            let exec = json::has_key(b, "exec"@);
            let provider = json::has_key(b, "auth-provider"@);
            let cert = json::has_key(b, "client-certificate"@) || json::has_key(
                b,
                "client-certificate-data"@,
            );
            let token = json::has_key(b, "token"@);
            let file = json::has_key(b, "tokenFile"@);
            let basic = json::has_key(b, "username"@) || json::has_key(b, "password"@);
            &&& kind == AuthKind::Exec <==> exec
            &&& kind == AuthKind::OidcProvider || kind == AuthKind::OtherProvider <==> provider
                && !exec
            &&& kind == AuthKind::OidcProvider ==> json::text_at(
                json::field(b, "auth-provider"@)->Some_0,
                "name"@,
            ) == Some("oidc"@)
            &&& kind == AuthKind::OtherProvider ==> json::text_at(
                json::field(b, "auth-provider"@)->Some_0,
                "name"@,
            ) != Some("oidc"@)
            &&& kind == AuthKind::ClientCertificate <==> cert && !exec && !provider
            &&& kind == AuthKind::Token <==> token && !exec && !provider && !cert
            &&& kind == AuthKind::TokenFile <==> file && !exec && !provider && !cert && !token
            &&& kind == AuthKind::Basic <==> basic && !exec && !provider && !cert && !token
                && !file
            &&& kind == AuthKind::Unset <==> !basic && !exec && !provider && !cert && !token
                && !file
        }),
{
    laws::lemma_auth_literals();
}

/// A user that was switched to another kind has no credential of the kinds before left: neither
/// a token, nor a private key, nor a password, nor a plugin, unless the new kind is that one.
pub proof fn switching_takes_other_credentials(b: Fields, kind: AuthKind)
    requires
        credentials::auth_kind(b) != kind,
    ensures
        ({
            let s = credentials::with_auth_kind(b, kind);
            &&& kind != AuthKind::Token ==> !json::has_key(s, "token"@)
            &&& kind != AuthKind::TokenFile ==> !json::has_key(s, "tokenFile"@)
            &&& kind != AuthKind::ClientCertificate ==> !json::has_key(s, "client-certificate"@)
                && !json::has_key(s, "client-certificate-data"@) && !json::has_key(s, "client-key"@)
                && !json::has_key(s, "client-key-data"@)
            &&& kind != AuthKind::Exec ==> !json::has_key(s, "exec"@)
            &&& kind != AuthKind::OidcProvider ==> !json::has_key(s, "auth-provider"@)
            &&& kind != AuthKind::Basic ==> !json::has_key(s, "username"@) && !json::has_key(
                s,
                "password"@,
            )
        }),
{
    laws::lemma_auth_literals();
    laws::lemma_kept(b, kind);
    let k = credentials::kept(b, kind);
    let all = credentials::auth_keys();
    assert(all[0] == "token"@ && all[1] == "tokenFile"@ && all[2] == "client-certificate"@);
    assert(all[3] == "client-certificate-data"@ && all[4] == "client-key"@);
    assert(all[5] == "client-key-data"@ && all[6] == "exec"@ && all[7] == "auth-provider"@);
    assert(all[8] == "username"@ && all[9] == "password"@);
    assert forall|key: Seq<char>|
        all.contains(key) && !credentials::kind_keys(kind).contains(key) implies !(
    #[trigger] json::has_key(credentials::with_auth_kind(b, kind), key)) by {
        assert(!credentials::stays(kind, key));
        assert(json::field(k, key) is None);
        lemma_started_elsewhere(k, kind, key);
    }
}

/// The starting point of a kind adds no key of another.
proof fn lemma_started_elsewhere(k: Fields, kind: AuthKind, key: Seq<char>)
    requires
        !credentials::kind_keys(kind).contains(key),
    ensures
        json::field(credentials::started(k, kind), key) == json::field(k, key),
{
    laws::lemma_auth_literals();
    let nothing = Json::Str(""@);
    let own = credentials::kind_keys(kind);
    let s = credentials::started(k, kind);
    match kind {
        AuthKind::Token => {
            assert(own[0] == "token"@);
            json::put_then_field(k, "token"@, nothing);
        },
        AuthKind::TokenFile => {
            assert(own[0] == "tokenFile"@);
            json::put_then_field(k, "tokenFile"@, nothing);
        },
        AuthKind::Basic => {
            assert(own[0] == "username"@ && own[1] == "password"@);
            json::put_then_field(k, "username"@, nothing);
            json::put_then_field(json::put(k, "username"@, nothing), "password"@, nothing);
        },
        AuthKind::ClientCertificate => {
            assert(own[0] == "client-certificate"@ && own[2] == "client-key"@);
            json::put_then_field(k, "client-certificate"@, nothing);
            json::put_then_field(
                json::put(k, "client-certificate"@, nothing),
                "client-key"@,
                nothing,
            );
        },
        AuthKind::Exec => {
            assert(own[0] == "exec"@);
            let exec = Json::Object(
                seq![
                    ("apiVersion"@, Json::Str(crate::users::EXEC_API_VERSION@)),
                    ("command"@, nothing),
                ],
            );
            assert(s == json::put(k, "exec"@, exec));
            json::put_then_field(k, "exec"@, exec);
        },
        AuthKind::OidcProvider => {
            assert(own[0] == "auth-provider"@);
            let config = Json::Object(seq![("idp-issuer-url"@, nothing), ("client-id"@, nothing)]);
            let provider = Json::Object(
                seq![("name"@, Json::Str("oidc"@)), ("config"@, config)],
            );
            assert(s == json::put(k, "auth-provider"@, provider));
            json::put_then_field(k, "auth-provider"@, provider);
        },
        _ => {},
    }
}

/// Switching keeps every field that isn't one of a credential: only these ten keys are touched.
pub proof fn switching_touches_credentials_only(b: Fields, kind: AuthKind, key: Seq<char>)
    requires
        key != "token"@,
        key != "tokenFile"@,
        key != "client-certificate"@,
        key != "client-certificate-data"@,
        key != "client-key"@,
        key != "client-key-data"@,
        key != "exec"@,
        key != "auth-provider"@,
        key != "username"@,
        key != "password"@,
    ensures
        json::field(credentials::with_auth_kind(b, kind), key) == json::field(b, key),
{
    laws::lemma_auth_literals();
    let all = credentials::auth_keys();
    if all.contains(key) {
        let i = choose|i: int| 0 <= i < all.len() && all[i] == key;
        assert(all.len() == 10);
        assert(all[0] == "token"@ && all[1] == "tokenFile"@ && all[2] == "client-certificate"@);
        assert(all[3] == "client-certificate-data"@ && all[4] == "client-key"@);
        assert(all[5] == "client-key-data"@ && all[6] == "exec"@ && all[7] == "auth-provider"@);
        assert(all[8] == "username"@ && all[9] == "password"@);
    }
    laws::switching_keeps_other_fields(b, kind, key);
}

/// A user that is switched to a plugin starts with an API version that kubectl knows and an empty
/// command; one that is switched to a token starts with an empty one.
pub proof fn switched_users_start_empty(b: Fields)
    ensures
        credentials::auth_kind(b) != AuthKind::Exec ==> {
            let exec = json::field(credentials::with_auth_kind(b, AuthKind::Exec), "exec"@);
            &&& exec is Some
            &&& json::text_at(exec->Some_0, "apiVersion"@) == Some(
                "client.authentication.k8s.io/v1"@,
            )
            &&& json::text_at(exec->Some_0, "command"@) == Some(""@)
        },
        credentials::auth_kind(b) != AuthKind::Token ==> json::field(
            credentials::with_auth_kind(b, AuthKind::Token),
            "token"@,
        ) == Some(Json::Str(""@)),
        credentials::auth_kind(b) != AuthKind::OidcProvider ==> json::text_at(
            json::field(
                credentials::with_auth_kind(b, AuthKind::OidcProvider),
                "auth-provider"@,
            )->Some_0,
            "name"@,
        ) == Some("oidc"@),
{
    reveal_strlit("apiVersion");
    reveal_strlit("command");
    reveal_strlit("name");
    reveal_strlit("config");
    assert("apiVersion"@.len() == 10 && "command"@.len() == 7);
    let nothing = Json::Str(""@);
    let block = seq![
        ("apiVersion"@, Json::Str(crate::users::EXEC_API_VERSION@)),
        ("command"@, nothing),
    ];
    json::lemma_key_index_is(block, "apiVersion"@, 0);
    json::lemma_key_index_is(block, "command"@, 1);
    json::put_then_field(credentials::kept(b, AuthKind::Exec), "exec"@, Json::Object(block));
    json::put_then_field(credentials::kept(b, AuthKind::Token), "token"@, nothing);
    let config = Json::Object(seq![("idp-issuer-url"@, nothing), ("client-id"@, nothing)]);
    let provider = seq![("name"@, Json::Str("oidc"@)), ("config"@, config)];
    json::lemma_key_index_is(provider, "name"@, 0);
    json::put_then_field(
        credentials::kept(b, AuthKind::OidcProvider),
        "auth-provider"@,
        Json::Object(provider),
    );
}

} // verus!
