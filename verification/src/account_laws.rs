//! What the kubeconfig of a service account holds, and what is asked of the API server to get one.

use crate::document;
use crate::import::{self, Grant, Role, SaAnswer, SaCall, SaRequest, SaState, TokenKind};
use crate::json::{self, Fields, Json};
use crate::locations;
use crate::manifests;
use crate::model::Kind;
use crate::schema;
use crate::text;
use vstd::prelude::*;

verus! {

// ----- The document -----

/// The kubeconfig of a service account has one cluster, one user and one context. The context is
/// the current one and is named after the account and the source context; the cluster and the
/// user it refers to are that cluster and that user, and its namespace is the one asked for. The
/// user has the token and nothing else; the cluster is the source context's, as it stands there.
pub proof fn a_service_account_gets_one_whole_context(
    source: Json,
    dir: Seq<char>,
    source_context: Seq<char>,
    namespace: Seq<char>,
    name: Seq<char>,
    token: Seq<char>,
)
    requires
        import::service_account_document(
            source,
            dir,
            source_context,
            namespace,
            name,
            token,
        ) is Some,
    ensures
        ({
            let d = import::service_account_document(
                source,
                dir,
                source_context,
                namespace,
                name,
                token,
            )->Some_0;
            let context = document::name_of(document::list(d, Kind::Context)[0]);
            let cluster = document::name_of(document::list(d, Kind::Cluster)[0]);
            let user = document::name_of(document::list(d, Kind::User)[0]);
            let context_body = document::body(d, Kind::Context, context->Some_0);
            let cluster_body = document::body(d, Kind::Cluster, cluster->Some_0);
            let user_body = document::body(d, Kind::User, user->Some_0);
            &&& document::list(d, Kind::Context).len() == 1
            &&& document::list(d, Kind::Cluster).len() == 1
            &&& document::list(d, Kind::User).len() == 1
            &&& context == Some(name + "@"@ + source_context)
            &&& user is Some
            &&& document::current_context(d) == context
            &&& document::context_reference(d, context->Some_0, Kind::Cluster) == cluster
            &&& document::context_reference(d, context->Some_0, Kind::User) == user
            &&& json::field(context_body->Some_0, "namespace"@) == Some(Json::Str(namespace))
            &&& user_body is Some
            &&& user_body->Some_0.len() == 1
            &&& json::field(user_body->Some_0, "token"@) == Some(Json::Str(token))
            &&& cluster == document::context_reference(
                locations::moved(source, dir),
                source_context,
                Kind::Cluster,
            )
            &&& cluster_body is Some
            &&& cluster_body == document::body(
                locations::moved(source, dir),
                Kind::Cluster,
                cluster->Some_0,
            )
        }),
{
    let s = locations::moved(source, dir);
    let cluster = document::context_reference(s, source_context, Kind::Cluster)->0;
    let body = document::body(s, Kind::Cluster, cluster)->0;
    let user = name + "@"@ + cluster;
    let context = name + "@"@ + source_context;
    let context_body = seq![
        ("cluster"@, Json::Str(cluster)),
        ("user"@, Json::Str(user)),
        ("namespace"@, Json::Str(namespace)),
    ];
    import::lemma_lists(cluster, body, user, import::one("token"@, token), context, context_body);
    let d = import::service_account_document(
        source,
        dir,
        source_context,
        namespace,
        name,
        token,
    )->Some_0;
    reveal_strlit("@");
    assert(user.len() > 0 && context.len() > 0);
    lemma_new_entry(Kind::Cluster, cluster, body);
    lemma_new_entry(Kind::User, user, import::one("token"@, token));
    lemma_new_entry(Kind::Context, context, context_body);
    document::lemma_name_index_is(document::list(d, Kind::Cluster), cluster, 0);
    document::lemma_name_index_is(document::list(d, Kind::User), user, 0);
    document::lemma_name_index_is(document::list(d, Kind::Context), context, 0);
    lemma_context_body(cluster, user, namespace);
    json::lemma_key_index_is(import::one("token"@, token), "token"@, 0);
    let d3 = document::added(
        document::added(
            document::added(document::empty_document(), Kind::Cluster, cluster, body),
            Kind::User,
            user,
            import::one("token"@, token),
        ),
        Kind::Context,
        context,
        context_body,
    );
    assert(d == document::with_current_context(d3, Some(context)));
    json::put_then_field(document::fields_of(d3), "current-context"@, Json::Str(context));
}

proof fn lemma_new_entry(kind: Kind, name: Seq<char>, body: Fields)
    ensures
        document::name_of(document::new_entry(kind, name, body)) == Some(name),
        document::body_of(document::new_entry(kind, name, body), kind) == Some(body),
{
    document::lemma_keys_differ();
    reveal_strlit("name");
    reveal_strlit("context");
    reveal_strlit("cluster");
    reveal_strlit("user");
    assert("name"@.len() == 4 && "context"@.len() == 7 && "cluster"@.len() == 7);
    assert("user"@.len() == 4 && "user"@[0] == 'u' && "name"@[0] == 'n');
    let o = document::new_entry(kind, name, body)->Object_0;
    json::lemma_key_index_is(o, "name"@, 0);
    json::lemma_key_index_is(o, document::body_key(kind), 1);
}

proof fn lemma_context_body(cluster: Seq<char>, user: Seq<char>, namespace: Seq<char>)
    ensures
        ({
            let b = seq![
                ("cluster"@, Json::Str(cluster)),
                ("user"@, Json::Str(user)),
                ("namespace"@, Json::Str(namespace)),
            ];
            &&& json::field(b, "cluster"@) == Some(Json::Str(cluster))
            &&& json::field(b, "user"@) == Some(Json::Str(user))
            &&& json::field(b, "namespace"@) == Some(Json::Str(namespace))
        }),
{
    reveal_strlit("cluster");
    reveal_strlit("user");
    reveal_strlit("namespace");
    assert("cluster"@.len() == 7 && "user"@.len() == 4 && "namespace"@.len() == 9);
    let b = seq![
        ("cluster"@, Json::Str(cluster)),
        ("user"@, Json::Str(user)),
        ("namespace"@, Json::Str(namespace)),
    ];
    json::lemma_key_index_is(b, "cluster"@, 0);
    json::lemma_key_index_is(b, "user"@, 1);
    json::lemma_key_index_is(b, "namespace"@, 2);
}

/// There is such a document whenever the source context refers to a cluster that is there, and
/// no name begins or ends with a space.
pub proof fn a_service_account_needs_a_cluster(
    source: Json,
    dir: Seq<char>,
    source_context: Seq<char>,
    namespace: Seq<char>,
    name: Seq<char>,
    token: Seq<char>,
    cluster: Seq<char>,
)
    requires
        document::context_reference(
            locations::moved(source, dir),
            source_context,
            Kind::Cluster,
        ) == Some(cluster),
        document::body(locations::moved(source, dir), Kind::Cluster, cluster) is Some,
        text::trimmed(cluster) == cluster,
        text::trimmed(name + "@"@ + cluster) == name + "@"@ + cluster,
        text::trimmed(name + "@"@ + source_context) == name + "@"@ + source_context,
    ensures
        import::service_account_document(
            source,
            dir,
            source_context,
            namespace,
            name,
            token,
        ) is Some,
{
    reveal_strlit("@");
    assert((name + "@"@ + cluster).len() > 0);
    assert((name + "@"@ + source_context).len() > 0);
}

// ----- The calls -----

/// What comes next once something was found or made: behind the account the binding, if a role
/// was asked for, and behind that the token, read from a Secret if that was asked for.
pub proof fn the_calls_go_from_account_to_token(q: SaRequest, s: SaState, answer: SaAnswer)
    requires
        import::fits(s.call, answer),
        answer is Found || answer is Created,
    ensures
        ({
            let next = import::after_answer(q, s, answer);
            &&& s.call == SaCall::GetAccount || s.call == SaCall::CreateAccount ==> next.call
                == if q.grant is Nothing {
                if q.kind is Secret {
                    SaCall::GetSecret
                } else {
                    SaCall::RequestToken
                }
            } else {
                SaCall::GetBinding
            }
            &&& s.call == SaCall::GetBinding || s.call == SaCall::CreateBinding ==> next.call
                == if q.kind is Secret {
                SaCall::GetSecret
            } else {
                SaCall::RequestToken
            }
            &&& s.call == SaCall::GetSecret || s.call == SaCall::CreateSecret ==> next.call
                == SaCall::ReadSecret
            &&& next.result == s.result
            &&& answer is Found ==> next.created == s.created
            &&& answer is Created ==> next.created.len() == s.created.len() + 1
                && s.created.is_prefix_of(next.created)
        }),
{
    let next = import::after_answer(q, s, answer);
    if answer is Created {
        assert(next.created.subrange(0, s.created.len() as int) =~= s.created);
    } else {
        assert(s.created.subrange(0, s.created.len() as int) =~= s.created);
    }
}

/// The token that comes out is the one that the server gave, with its end, and with what was made
/// on the way; a failure ends the request with what the server said.
pub proof fn the_servers_token_comes_out(q: SaRequest, s: SaState, answer: SaAnswer)
    requires
        import::fits(s.call, answer),
    ensures
        ({
            let next = import::after_answer(q, s, answer);
            &&& answer matches SaAnswer::Token { token: Some(t), expires } ==> next.result == Some(
                Ok::<_, Seq<char>>((t@, expires, s.created)),
            )
            &&& answer matches SaAnswer::Token { token: None, .. } ==> next.result is Some
                && next.result->Some_0 is Err
            &&& answer matches SaAnswer::SecretToken(Some(bytes)) ==> next.result is Some
                && if vstd::utf8::valid_utf8(bytes@) {
                next.result->Some_0 is Ok && next.result->Some_0->Ok_0.0
                    == vstd::utf8::decode_utf8(bytes@) && next.result->Some_0->Ok_0.1 is None
                    && next.result->Some_0->Ok_0.2 == s.created
            } else {
                next.result->Some_0 is Err
            }
            &&& answer matches SaAnswer::Failed { code, message } ==> next.result is Some
                && next.result->Some_0 is Err && message@.is_suffix_of(
                next.result->Some_0->Err_0,
            )
            &&& next.result != s.result ==> next.call == SaCall::Done
        }),
{
    if let SaAnswer::Failed { code, message } = answer {
        let told = "not allowed: "@ + message@;
        assert(told.subrange(told.len() - message@.len(), told.len() as int) =~= message@);
        assert(message@.subrange(0, message@.len() as int) =~= message@);
    }
}

/// A missing account is made only if that was asked for; else the request ends with an error.
/// A missing binding or Secret is made.
pub proof fn missing_objects_are_made(q: SaRequest, s: SaState)
    ensures
        ({
            let next = import::after_answer(q, s, SaAnswer::Missing);
            &&& s.call == SaCall::GetAccount ==> if q.create {
                next.call == SaCall::CreateAccount
            } else {
                next.call == SaCall::Done && next.result is Some && next.result->Some_0 is Err
            }
            &&& s.call == SaCall::GetBinding ==> next.call == SaCall::CreateBinding
            &&& s.call == SaCall::GetSecret ==> next.call == SaCall::CreateSecret
            &&& next.created == s.created
        }),
{
}

/// A Secret without a token is read again, twenty times in all.
pub proof fn empty_secrets_are_read_again(q: SaRequest, s: SaState)
    ensures
        ({
            let next = import::after_answer(q, s, SaAnswer::SecretToken(None));
            if s.reads < 19 {
                next.call == s.call && next.reads == s.reads + 1 && next.result == s.result
            } else {
                next.call == SaCall::Done && next.result is Some && next.result->Some_0 is Err
            }
        }),
{
}

// ----- The manifests -----

proof fn lemma_object_field(pairs: Seq<(Seq<char>, Json)>, i: int)
    requires
        0 <= i < pairs.len(),
        forall|j: int| i < j < pairs.len() ==> (#[trigger] pairs[j]).0 != pairs[i].0,
    ensures
        json::get(schema::object_of(pairs), pairs[i].0) == Some(pairs[i].1),
    decreases pairs.len(),
{
    let before = pairs.drop_last();
    let last = pairs.last();
    json::put_then_field(schema::fields_of(before), last.0, last.1);
    if i < before.len() {
        assert(before[i] == pairs[i]);
        assert(pairs[pairs.len() - 1].0 != pairs[i].0);
        assert forall|j: int| i < j < before.len() implies (#[trigger] before[j]).0
            != before[i].0 by {
            assert(before[j] == pairs[j]);
        }
        lemma_object_field(before, i);
    }
}

proof fn lemma_manifest_keys()
    ensures
        "name"@.len() == 4,
        "name"@[0] == 'n',
        "kind"@.len() == 4,
        "kind"@[0] == 'k',
        "type"@.len() == 4,
        "spec"@.len() == 4,
        "labels"@.len() == 6,
        "annotations"@.len() == 11,
        "metadata"@.len() == 8,
        "metadata"@[0] == 'm',
        "roleRef"@.len() == 7,
        "subjects"@.len() == 8,
        "subjects"@[0] == 's',
        "apiGroup"@.len() == 8,
        "namespace"@.len() == 9,
        "audiences"@.len() == 9,
        "expirationSeconds"@.len() == 17,
{
    reveal_strlit("name");
    reveal_strlit("kind");
    reveal_strlit("type");
    reveal_strlit("spec");
    reveal_strlit("labels");
    reveal_strlit("annotations");
    reveal_strlit("metadata");
    reveal_strlit("roleRef");
    reveal_strlit("subjects");
    reveal_strlit("apiGroup");
    reveal_strlit("namespace");
    reveal_strlit("audiences");
    reveal_strlit("expirationSeconds");
}

/// A binding that is made gives the role that was asked for, a cluster role, to the account that
/// was asked for, and to nothing else.
pub proof fn bindings_give_what_was_asked_for(q: SaRequest)
    requires
        !(q.grant is Nothing),
    ensures
        ({
            let m = manifests::manifest(q, SaCall::CreateBinding);
            let role = json::get(m->Some_0, "roleRef"@)->Some_0;
            let subjects = json::as_items(json::get(m->Some_0, "subjects"@));
            let who = subjects->Some_0[0];
            &&& m is Some
            &&& json::text_at(role, "kind"@) == Some("ClusterRole"@)
            &&& json::text_at(role, "apiGroup"@) == Some("rbac.authorization.k8s.io"@)
            &&& json::text_at(role, "name"@) == Some(
                match q.grant {
                    Grant::ClusterAdmin => "cluster-admin"@,
                    Grant::Namespace(Role::View) => "view"@,
                    Grant::Namespace(Role::Edit) => "edit"@,
                    Grant::Namespace(Role::Admin) => "admin"@,
                    Grant::Nothing => seq![],
                },
            )
            &&& subjects is Some
            &&& subjects->Some_0.len() == 1
            &&& json::text_at(who, "kind"@) == Some("ServiceAccount"@)
            &&& json::text_at(who, "name"@) == Some(q.name@)
            &&& json::text_at(who, "namespace"@) == Some(q.namespace@)
        }),
{
    lemma_manifest_keys();
    let role = manifests::granted_role(q.grant)->Some_0;
    let role_pairs = seq![
        ("apiGroup"@, Json::Str("rbac.authorization.k8s.io"@)),
        ("kind"@, Json::Str("ClusterRole"@)),
        ("name"@, Json::Str(role)),
    ];
    let subject_pairs = seq![
        ("kind"@, Json::Str("ServiceAccount"@)),
        ("name"@, Json::Str(q.name@)),
        ("namespace"@, Json::Str(q.namespace@)),
    ];
    let pairs = seq![
        ("metadata"@, manifests::one_text("name"@, import::binding_of(q))),
        ("roleRef"@, schema::object_of(role_pairs)),
        ("subjects"@, Json::Array(seq![schema::object_of(subject_pairs)])),
    ];
    lemma_object_field(role_pairs, 0);
    lemma_object_field(role_pairs, 1);
    lemma_object_field(role_pairs, 2);
    lemma_object_field(subject_pairs, 0);
    lemma_object_field(subject_pairs, 1);
    lemma_object_field(subject_pairs, 2);
    lemma_object_field(pairs, 1);
    lemma_object_field(pairs, 2);
    assert(manifests::binding(q, role) == schema::object_of(pairs));
}

/// The other manifests: an account that is made has the name that was asked for; a token is asked
/// for as long as was asked for; a Secret is one for the account's token.
pub proof fn manifests_are_for_the_account(q: SaRequest)
    ensures
        ({
            let account = manifests::manifest(q, SaCall::CreateAccount);
            let secret = manifests::manifest(q, SaCall::CreateSecret);
            &&& account is Some
            &&& json::text_at(json::get(account->Some_0, "metadata"@)->Some_0, "name"@) == Some(
                q.name@,
            )
            &&& secret is Some
            &&& json::text_at(secret->Some_0, "type"@) == Some(
                "kubernetes.io/service-account-token"@,
            )
            &&& json::text_at(json::get(secret->Some_0, "metadata"@)->Some_0, "name"@) == Some(
                q.name@ + "-token"@,
            )
            &&& json::text_at(
                json::get(
                    json::get(secret->Some_0, "metadata"@)->Some_0,
                    "annotations"@,
                )->Some_0,
                "kubernetes.io/service-account.name"@,
            ) == Some(q.name@)
        }),
        q.kind matches TokenKind::Request(seconds) ==> ({
            let request = manifests::manifest(q, SaCall::RequestToken);
            &&& request is Some
            &&& json::get(json::get(request->Some_0, "spec"@)->Some_0, "expirationSeconds"@)
                == Some(Json::Number(text::signed_decimal(seconds as int)))
        }),
{
    lemma_manifest_keys();
    let labels = manifests::one_text("app.kubernetes.io/managed-by"@, "kubyl"@);
    let account_pairs = seq![("name"@, Json::Str(q.name@)), ("labels"@, labels)];
    lemma_object_field(account_pairs, 0);
    lemma_object_field(seq![("metadata"@, schema::object_of(account_pairs))], 0);
    let annotation = seq![("kubernetes.io/service-account.name"@, Json::Str(q.name@))];
    lemma_object_field(annotation, 0);
    let secret_pairs = seq![
        ("name"@, Json::Str(q.name@ + "-token"@)),
        ("annotations"@, schema::object_of(annotation)),
    ];
    lemma_object_field(secret_pairs, 0);
    lemma_object_field(secret_pairs, 1);
    let pairs = seq![
        ("metadata"@, schema::object_of(secret_pairs)),
        ("type"@, Json::Str("kubernetes.io/service-account-token"@)),
    ];
    lemma_object_field(pairs, 0);
    lemma_object_field(pairs, 1);
    if let TokenKind::Request(seconds) = q.kind {
        let spec_pairs = seq![
            ("audiences"@, Json::Array(seq![])),
            ("expirationSeconds"@, Json::Number(text::signed_decimal(seconds as int))),
        ];
        lemma_object_field(spec_pairs, 1);
        lemma_object_field(seq![("spec"@, schema::object_of(spec_pairs))], 0);
    }
}

/// A binding is named after the account and the role; the binding for the whole cluster also after
/// the namespace, so that accounts of the same name in other namespaces have bindings of their
/// own.
pub proof fn bindings_are_named_after_the_account(q: SaRequest)
    ensures
        q.grant matches Grant::Namespace(role) ==> import::binding_of(q) == q.name@ + "-"@
            + match role {
            Role::View => "view"@,
            Role::Edit => "edit"@,
            Role::Admin => "admin"@,
        },
        q.grant is ClusterAdmin ==> import::binding_of(q) == q.namespace@ + "-"@ + q.name@
            + "-cluster-admin"@,
{
}

} // verus!
