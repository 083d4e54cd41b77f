//! Where the fields of the forms write to, and which of them hide what they hold.

use crate::credentials;
use crate::document;
use crate::edits;
use crate::exec;
use crate::form_view;
use crate::forms;
use crate::json::{self, Fields, Json};
use crate::laws;
use crate::model::Kind;
use crate::outside;
use crate::paths;
use crate::text;
use vstd::prelude::*;

verus! {

/// Each field of a form stands for one place of one kind of entry.
pub proof fn fields_stand_for_their_places()
    ensures
        forms::bound_to("server"@) == Some((Kind::Cluster, seq!["server"@])),
        forms::bound_to("tls-server-name"@) == Some((Kind::Cluster, seq!["tls-server-name"@])),
        forms::bound_to("proxy-url"@) == Some((Kind::Cluster, seq!["proxy-url"@])),
        forms::bound_to("ca-file"@) == Some((Kind::Cluster, seq!["certificate-authority"@])),
        forms::bound_to("namespace"@) == Some((Kind::Context, seq!["namespace"@])),
        forms::bound_to("token"@) == Some((Kind::User, seq!["token"@])),
        forms::bound_to("token-file"@) == Some((Kind::User, seq!["tokenFile"@])),
        forms::bound_to("cert-file"@) == Some((Kind::User, seq!["client-certificate"@])),
        forms::bound_to("key-file"@) == Some((Kind::User, seq!["client-key"@])),
        forms::bound_to("key-data"@) == Some((Kind::User, seq!["client-key-data"@])),
        forms::bound_to("exec-command"@) == Some((Kind::User, seq!["exec"@, "command"@])),
        forms::bound_to("exec-hint"@) == Some((Kind::User, seq!["exec"@, "installHint"@])),
        forms::bound_to("oidc-issuer"@) == Some(
            (Kind::User, seq!["auth-provider"@, "config"@, "idp-issuer-url"@]),
        ),
        forms::bound_to("oidc-client-id"@) == Some(
            (Kind::User, seq!["auth-provider"@, "config"@, "client-id"@]),
        ),
        forms::bound_to("oidc-client-secret"@) == Some(
            (Kind::User, seq!["auth-provider"@, "config"@, "client-secret"@]),
        ),
        forms::bound_to("oidc-scopes"@) == Some(
            (Kind::User, seq!["auth-provider"@, "config"@, "extra-scopes"@]),
        ),
        forms::bound_to("username"@) == Some((Kind::User, seq!["username"@])),
        forms::bound_to("password"@) == Some((Kind::User, seq!["password"@])),
{
    laws::lemma_auth_literals();
    reveal_strlit("server");
    reveal_strlit("tls-server-name");
    reveal_strlit("proxy-url");
    reveal_strlit("ca-file");
    reveal_strlit("namespace");
    reveal_strlit("token-file");
    reveal_strlit("cert-file");
    reveal_strlit("key-file");
    reveal_strlit("key-data");
    reveal_strlit("exec-command");
    reveal_strlit("exec-hint");
    reveal_strlit("oidc-issuer");
    reveal_strlit("oidc-client-id");
    reveal_strlit("oidc-client-secret");
    reveal_strlit("oidc-scopes");
    assert("server"@.len() == 6 && "tls-server-name"@.len() == 15 && "proxy-url"@.len() == 9);
    assert("ca-file"@.len() == 7 && "namespace"@.len() == 9 && "token-file"@.len() == 10);
    assert("cert-file"@.len() == 9 && "key-file"@.len() == 8 && "key-data"@.len() == 8);
    assert("exec-command"@.len() == 12 && "exec-hint"@.len() == 9 && "oidc-issuer"@.len() == 11);
    assert("oidc-client-id"@.len() == 14 && "oidc-client-secret"@.len() == 18);
    assert("oidc-scopes"@.len() == 11);
    assert("proxy-url"@[0] == 'p' && "namespace"@[0] == 'n' && "cert-file"@[0] == 'c');
    assert("exec-hint"@[0] == 'e' && "key-file"@[0] == 'k' && "key-data"@[0] == 'k');
    assert("key-file"@[4] == 'f' && "key-data"@[4] == 'd');
    assert("oidc-issuer"@[5] == 'i' && "oidc-scopes"@[5] == 's');
}

/// What is typed into a field is what stands at its place; a server's URL is trimmed.
pub proof fn typed_values_stand_in_their_places(body: Fields, value: Seq<char>)
    requires
        json::fields_well_formed(body),
    ensures
        paths::text(forms::changed_body(body, "server"@, value), seq!["server"@])
            == text::trimmed(value),
        paths::text(forms::changed_body(body, "tls-server-name"@, value), seq!["tls-server-name"@])
            == value,
        paths::text(forms::changed_body(body, "proxy-url"@, value), seq!["proxy-url"@]) == value,
        paths::text(
            forms::changed_body(body, "ca-file"@, value),
            seq!["certificate-authority"@],
        ) == value,
        paths::text(forms::changed_body(body, "namespace"@, value), seq!["namespace"@]) == value,
        paths::text(forms::changed_body(body, "token"@, value), seq!["token"@]) == value,
        paths::text(forms::changed_body(body, "token-file"@, value), seq!["tokenFile"@]) == value,
        paths::text(
            forms::changed_body(body, "cert-file"@, value),
            seq!["client-certificate"@],
        ) == value,
        paths::text(forms::changed_body(body, "key-file"@, value), seq!["client-key"@]) == value,
        paths::text(forms::changed_body(body, "key-data"@, value), seq!["client-key-data"@])
            == value,
        paths::text(forms::changed_body(body, "exec-command"@, value), seq!["exec"@, "command"@])
            == value,
        paths::text(
            forms::changed_body(body, "oidc-client-secret"@, value),
            seq!["auth-provider"@, "config"@, "client-secret"@],
        ) == value,
        paths::text(forms::changed_body(body, "username"@, value), seq!["username"@]) == value,
        paths::text(forms::changed_body(body, "password"@, value), seq!["password"@]) == value,
{
    fields_stand_for_their_places();
    lemma_not_the_server();
    forms::a_typed_value_is_read_back(body, "server"@, value);
    forms::a_typed_value_is_read_back(body, "tls-server-name"@, value);
    forms::a_typed_value_is_read_back(body, "proxy-url"@, value);
    forms::a_typed_value_is_read_back(body, "ca-file"@, value);
    forms::a_typed_value_is_read_back(body, "namespace"@, value);
    forms::a_typed_value_is_read_back(body, "token"@, value);
    forms::a_typed_value_is_read_back(body, "token-file"@, value);
    forms::a_typed_value_is_read_back(body, "cert-file"@, value);
    forms::a_typed_value_is_read_back(body, "key-file"@, value);
    forms::a_typed_value_is_read_back(body, "key-data"@, value);
    forms::a_typed_value_is_read_back(body, "exec-command"@, value);
    forms::a_typed_value_is_read_back(body, "oidc-client-secret"@, value);
    forms::a_typed_value_is_read_back(body, "username"@, value);
    forms::a_typed_value_is_read_back(body, "password"@, value);
}

proof fn lemma_not_the_server()
    ensures
        "tls-server-name"@ != "server"@,
        "proxy-url"@ != "server"@,
        "ca-file"@ != "server"@,
        "namespace"@ != "server"@,
        "token"@ != "server"@,
        "token-file"@ != "server"@,
        "cert-file"@ != "server"@,
        "key-file"@ != "server"@,
        "key-data"@ != "server"@,
        "exec-command"@ != "server"@,
        "oidc-client-secret"@ != "server"@,
        "username"@ != "server"@,
        "password"@ != "server"@,
{
    laws::lemma_auth_literals();
    reveal_strlit("server");
    reveal_strlit("tls-server-name");
    reveal_strlit("proxy-url");
    reveal_strlit("ca-file");
    reveal_strlit("namespace");
    reveal_strlit("token-file");
    reveal_strlit("cert-file");
    reveal_strlit("key-file");
    reveal_strlit("key-data");
    reveal_strlit("exec-command");
    reveal_strlit("oidc-client-secret");
    assert("server"@.len() == 6);
}

/// A path takes the place of inline data, and inline data that of a path: never are both there.
pub proof fn a_file_and_its_data_are_never_both_there(body: Fields, value: Seq<char>)
    requires
        json::fields_well_formed(body),
    ensures
        !json::has_key(
            forms::changed_body(body, "ca-file"@, value),
            "certificate-authority-data"@,
        ),
        !json::has_key(forms::changed_body(body, "cert-file"@, value), "client-certificate-data"@),
        !json::has_key(forms::changed_body(body, "key-file"@, value), "client-key-data"@),
        !json::has_key(forms::changed_body(body, "key-data"@, value), "client-key"@),
{
    laws::lemma_auth_literals();
    reveal_strlit("ca-file");
    reveal_strlit("cert-file");
    reveal_strlit("key-file");
    reveal_strlit("key-data");
    assert("ca-file"@.len() == 7 && "cert-file"@.len() == 9);
    assert("key-file"@.len() == 8 && "key-data"@.len() == 8);
    assert("key-file"@[4] == 'f' && "key-data"@[4] == 'd');
    forms::files_and_data_replace_each_other(body, "ca-file"@, value);
    forms::files_and_data_replace_each_other(body, "cert-file"@, value);
    forms::files_and_data_replace_each_other(body, "key-file"@, value);
    forms::files_and_data_replace_each_other(body, "key-data"@, value);
}

/// A pasted certificate is kept inline, as the base64 of its text with one line end, and the path
/// of a file goes.
pub proof fn pasted_certificates_are_inline(body: Fields, s: Seq<char>)
    requires
        json::fields_well_formed(body),
        text::trimmed(s).len() > 0,
    ensures
        ({
            let data = outside::base64_encoded(vstd::utf8::encode_utf8(text::trimmed(s) + "\n"@));
            let ca = forms::changed_body(body, "ca-pem"@, s);
            let cert = forms::changed_body(body, "cert-pem"@, s);
            &&& data.len() > 0 ==> json::field(ca, "certificate-authority-data"@) == Some(
                Json::Str(data),
            )
            &&& data.len() > 0 ==> json::field(cert, "client-certificate-data"@) == Some(
                Json::Str(data),
            )
            &&& !json::has_key(ca, "certificate-authority"@)
            &&& !json::has_key(cert, "client-certificate"@)
        }),
{
    laws::lemma_auth_literals();
    reveal_strlit("ca-pem");
    reveal_strlit("cert-pem");
    assert("ca-pem"@.len() == 6 && "cert-pem"@.len() == 8);
    reveal_strlit("certificate-authority");
    reveal_strlit("certificate-authority-data");
    assert("certificate-authority"@.len() == 21 && "certificate-authority-data"@.len() == 26);
    lemma_with_pem(body, s, "certificate-authority"@, "certificate-authority-data"@);
    lemma_with_pem(body, s, "client-certificate"@, "client-certificate-data"@);
}

proof fn lemma_with_pem(body: Fields, s: Seq<char>, file_key: Seq<char>, data_key: Seq<char>)
    requires
        json::fields_well_formed(body),
        text::trimmed(s).len() > 0,
        file_key != data_key,
    ensures
        ({
            let data = outside::base64_encoded(vstd::utf8::encode_utf8(text::trimmed(s) + "\n"@));
            let after = forms::with_pem(body, s, file_key, data_key);
            &&& data.len() > 0 ==> json::field(after, data_key) == Some(Json::Str(data))
            &&& !json::has_key(after, file_key)
        }),
{
    let data = outside::base64_encoded(vstd::utf8::encode_utf8(text::trimmed(s) + "\n"@));
    let rest = json::without(body, file_key);
    json::without_then_field(body, file_key);
    json::without_keeps_well_formed(body, file_key);
    assert(json::field(rest, file_key) is None);
    let after = forms::with_pem(body, s, file_key, data_key);
    paths::set_keeps_other_keys(rest, seq![data_key], paths::text_value(data), file_key);
    json::lemma_key_index(after, file_key);
    if data.len() > 0 {
        paths::set_then_get(rest, seq![data_key], Json::Str(data));
        assert(paths::at(after, seq![data_key]) == json::field(after, data_key));
    }
}

/// Typing into a field of one key leaves every other key of the entry alone, but for the one that
/// it takes the place of.
pub proof fn typing_leaves_other_keys_alone(
    body: Fields,
    id: Seq<char>,
    value: Seq<char>,
    key: Seq<char>,
)
    requires
        json::fields_well_formed(body),
        id == "server"@ || id == "token"@ || id == "namespace"@ || id == "username"@ || id
            == "password"@,
        key != id,
    ensures
        json::field(forms::changed_body(body, id, value), key) == json::field(body, key),
{
    fields_stand_for_their_places();
    laws::lemma_auth_literals();
    reveal_strlit("server");
    reveal_strlit("namespace");
    reveal_strlit("ca-pem");
    reveal_strlit("cert-pem");
    reveal_strlit("exec-args");
    reveal_strlit("ca-file");
    reveal_strlit("cert-file");
    reveal_strlit("key-file");
    reveal_strlit("key-data");
    assert("server"@.len() == 6 && "server"@[0] == 's' && "namespace"@.len() == 9);
    assert("namespace"@[0] == 'n' && "ca-pem"@.len() == 6 && "ca-pem"@[0] == 'c');
    assert("cert-pem"@.len() == 8 && "cert-pem"@[0] == 'c' && "exec-args"@.len() == 9);
    assert("exec-args"@[0] == 'e' && "ca-file"@.len() == 7 && "cert-file"@.len() == 9);
    assert("cert-file"@[0] == 'c' && "key-file"@.len() == 8 && "key-file"@[0] == 'k');
    assert("key-data"@.len() == 8 && "key-data"@[0] == 'k');
    assert(forms::replaces(id) is None);
    assert(forms::bound_to(id)->Some_0.1 == seq![id]);
    paths::set_keeps_other_keys(
        body,
        seq![id],
        paths::text_value(forms::written(id, value)),
        key,
    );
}

/// The fields of tokens, keys, client secrets and passwords are masked, and no others; so are the
/// variables with a word for a secret in their name.
pub proof fn secret_fields_are_masked(id: Seq<char>, body: Fields, i: int)
    ensures
        forms::secret_field(id) <==> id == "token"@ || id == "key-data"@ || id
            == "oidc-client-secret"@ || id == "password"@,
        0 <= i < forms::env_for(Kind::User, body).len() ==> (forms::env_for(
            Kind::User,
            body,
        )[i].2 <==> credentials::secret_env(forms::env_for(Kind::User, body)[i].0)),
        0 <= i < forms::inputs_for(Kind::User, body).len() && (forms::inputs_for(
            Kind::User,
            body,
        )[i].0 == "token"@ || forms::inputs_for(Kind::User, body)[i].0 == "key-data"@
            || forms::inputs_for(Kind::User, body)[i].0 == "password"@ || forms::inputs_for(
            Kind::User,
            body,
        )[i].0 == "oidc-client-secret"@) ==> forms::inputs_for(Kind::User, body)[i].2,
{
}

proof fn lemma_filled_lines(lines: Seq<Seq<char>>, x: Seq<char>)
    ensures
        forms::filled_lines(lines).contains(Json::Str(x)) <==> x.len() > 0 && exists|i: int|
            0 <= i < lines.len() && text::trimmed(#[trigger] lines[i]) == x,
        forms::filled_lines(lines).len() <= lines.len(),
    decreases lines.len(),
{
    if lines.len() > 0 {
        let before = lines.drop_last();
        lemma_filled_lines(before, x);
        let found = forms::filled_lines(before);
        let all = forms::filled_lines(lines);
        let v = Json::Str(x);
        if all.contains(v) {
            let i = choose|i: int| 0 <= i < all.len() && all[i] == v;
            if i < found.len() {
                assert(found[i] == v);
                let j = choose|j: int| 0 <= j < before.len() && text::trimmed(#[trigger] before[j])
                    == x;
                assert(lines[j] == before[j]);
            } else {
                assert(text::trimmed(lines[lines.len() - 1]) == x);
            }
        }
        if x.len() > 0 && exists|i: int|
            0 <= i < lines.len() && text::trimmed(#[trigger] lines[i]) == x {
            let i = choose|i: int| 0 <= i < lines.len() && text::trimmed(#[trigger] lines[i]) == x;
            if i < before.len() {
                assert(before[i] == lines[i]);
                let j = choose|j: int| 0 <= j < found.len() && found[j] == v;
                assert(all[j] == v);
            } else {
                assert(all[all.len() - 1] == v);
            }
        }
    }
}

/// The arguments of a plugin are the lines that were typed, trimmed, without the empty ones.
pub proof fn each_typed_line_is_an_argument(lines: Seq<Seq<char>>, x: Seq<char>)
    ensures
        forms::filled_lines(lines).contains(Json::Str(x)) <==> x.len() > 0 && exists|i: int|
            0 <= i < lines.len() && text::trimmed(#[trigger] lines[i]) == x,
{
    lemma_filled_lines(lines, x);
}

/// Typed variables are written with their values, those without a name left out; what is written
/// is what is read.
pub proof fn typed_variables_are_read_back(rows: Seq<(Seq<char>, Seq<char>)>, block: Fields, i: int)
    requires
        forall|k: int| 0 <= k < rows.len() ==> text::trimmed((#[trigger] rows[k]).0).len() > 0,
        json::field(block, "env"@) == Some(Json::Array(forms::variables(rows))),
        0 <= i < rows.len(),
    ensures
        exec::env_of(Json::Object(block)).len() == rows.len(),
        exec::env_of(Json::Object(block))[i] == (text::trimmed(rows[i].0), rows[i].1),
{
    lemma_variables(rows, i);
    let v = forms::variables(rows);
    reveal_strlit("name");
    reveal_strlit("value");
    assert("name"@.len() == 4 && "value"@.len() == 5);
    let o = v[i]->Object_0;
    json::lemma_key_index_is(o, "name"@, 0);
    json::lemma_key_index_is(o, "value"@, 1);
}

proof fn lemma_variables(rows: Seq<(Seq<char>, Seq<char>)>, i: int)
    requires
        forall|k: int| 0 <= k < rows.len() ==> text::trimmed((#[trigger] rows[k]).0).len() > 0,
        0 <= i < rows.len(),
    ensures
        forms::variables(rows).len() == rows.len(),
        forms::variables(rows)[i] == Json::Object(
            seq![
                ("name"@, Json::Str(text::trimmed(rows[i].0))),
                ("value"@, Json::Str(rows[i].1)),
            ],
        ),
    decreases rows.len(),
{
    reveal_with_fuel(forms::variables, 2);
    let before = rows.drop_last();
    assert forall|k: int| 0 <= k < before.len() implies text::trimmed((#[trigger] before[k]).0).len()
        > 0 by {
        assert(before[k] == rows[k]);
    }
    assert(text::trimmed(rows[rows.len() - 1].0).len() > 0);
    if i < before.len() {
        lemma_variables(before, i);
        assert(before[i] == rows[i]);
    } else if before.len() > 0 {
        lemma_variables(before, 0);
    }
}

/// A text that is edited stands where it was typed, in the entry it was typed for; the other
/// entries stay.
pub proof fn edited_texts_are_read_back(
    d: Json,
    kind: Kind,
    name: Seq<char>,
    path: Seq<Seq<char>>,
    value: Seq<char>,
    b: Fields,
)
    requires
        document::body(d, kind, name) == Some(b),
        path.len() > 0,
        value.len() > 0,
    ensures
        ({
            let e = edits::with_text(d, kind, name, path, value);
            let after = document::body(e, kind, name);
            &&& after is Some
            &&& paths::at(after->Some_0, path) == Some(Json::Str(value))
            &&& document::names(e, kind) == document::names(d, kind)
            &&& forall|k: Kind| k != kind ==> #[trigger] document::list(e, k) == document::list(d, k)
            &&& document::current_context(e) == document::current_context(d)
        }),
{
    laws::body_edit_keeps_the_rest(d, kind, name, paths::with(b, path, Json::Str(value)));
    paths::set_then_get(b, path, Json::Str(value));
}

/// A switch that is toggled is on if it was off, and off if it was on.
pub proof fn toggled_switches_change(b: Fields, path: Seq<Seq<char>>)
    requires
        path.len() > 0,
    ensures
        paths::flag(form_view::toggled(b, path), path) == !paths::flag(b, path),
{
    paths::set_then_get(b, path, Json::Bool(!paths::flag(b, path)));
}

} // verus!
