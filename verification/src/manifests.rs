//! What is created in a cluster for a service account: the objects, as the API server takes
//! them.

use crate::import::{self, Grant, SaCall, SaRequest, TokenKind};
use crate::json::Json;
use crate::schema;
use crate::text;
use crate::value::{self, Value};
use vstd::prelude::*;

verus! {

/// An object with one text in it.
pub open spec fn one_text(key: Seq<char>, s: Seq<char>) -> Json {
    schema::object_of(seq![(key, Json::Str(s))])
}

fn with_text(key: &'static str, s: &str) -> (r: Value)
    ensures
        r@ == one_text(key@, s@),
{
    let pairs: Vec<(&'static str, Value)> = vec![(key, Value::text(s))];
    assert(schema::pairs_of(pairs@) =~= seq![(key@, Json::Str(s@))]);
    schema::object(pairs)
}

/// The service account, marked as Kubyl's.
pub open spec fn account(q: SaRequest) -> Json {
    schema::object_of(
        seq![
            (
                "metadata"@,
                schema::object_of(
                    seq![
                        ("name"@, Json::Str(q.name@)),
                        ("labels"@, one_text("app.kubernetes.io/managed-by"@, "kubyl"@)),
                    ],
                ),
            ),
        ],
    )
}

/// The ClusterRole that a grant binds; none without a grant.
pub open spec fn granted_role(grant: Grant) -> Option<Seq<char>> {
    match grant {
        Grant::Nothing => None,
        Grant::Namespace(role) => Some(import::role_name(role)),
        Grant::ClusterAdmin => Some("cluster-admin"@),
    }
}

/// A binding of the service account to a ClusterRole.
pub open spec fn binding(q: SaRequest, role: Seq<char>) -> Json {
    schema::object_of(
        seq![
            ("metadata"@, one_text("name"@, import::binding_of(q))),
            (
                "roleRef"@,
                schema::object_of(
                    seq![
                        ("apiGroup"@, Json::Str("rbac.authorization.k8s.io"@)),
                        ("kind"@, Json::Str("ClusterRole"@)),
                        ("name"@, Json::Str(role)),
                    ],
                ),
            ),
            (
                "subjects"@,
                Json::Array(
                    seq![
                        schema::object_of(
                            seq![
                                ("kind"@, Json::Str("ServiceAccount"@)),
                                ("name"@, Json::Str(q.name@)),
                                ("namespace"@, Json::Str(q.namespace@)),
                            ],
                        ),
                    ],
                ),
            ),
        ],
    )
}

/// A request for a token that is valid for some seconds.
pub open spec fn token_request(seconds: i64) -> Json {
    schema::object_of(
        seq![
            (
                "spec"@,
                schema::object_of(
                    seq![
                        ("audiences"@, Json::Array(seq![])),
                        (
                            "expirationSeconds"@,
                            Json::Number(text::signed_decimal(seconds as int)),
                        ),
                    ],
                ),
            ),
        ],
    )
}

/// The Secret that the cluster fills with a long-lived token.
pub open spec fn token_secret(q: SaRequest) -> Json {
    schema::object_of(
        seq![
            (
                "metadata"@,
                schema::object_of(
                    seq![
                        ("name"@, Json::Str(q.name@ + "-token"@)),
                        (
                            "annotations"@,
                            one_text("kubernetes.io/service-account.name"@, q.name@),
                        ),
                    ],
                ),
            ),
            ("type"@, Json::Str("kubernetes.io/service-account-token"@)),
        ],
    )
}

/// The object that a call sends; none for one that only reads.
pub open spec fn manifest(q: SaRequest, call: SaCall) -> Option<Json> {
    match call {
        SaCall::CreateAccount => Some(account(q)),
        SaCall::CreateBinding => match granted_role(q.grant) {
            Some(role) => Some(binding(q, role)),
            None => None,
        },
        SaCall::RequestToken => match q.kind {
            TokenKind::Request(seconds) => Some(token_request(seconds)),
            TokenKind::Secret => None,
        },
        SaCall::CreateSecret => Some(token_secret(q)),
        _ => None,
    }
}

fn account_value(q: &SaRequest) -> (r: Value)
    ensures
        r@ == account(*q),
{
    let labels: Value = with_text("app.kubernetes.io/managed-by", "kubyl");
    let metadata: Vec<(&'static str, Value)> = vec![
        ("name", Value::text(q.name.as_str())),
        ("labels", labels),
    ];
    assert(schema::pairs_of(metadata@) =~= seq![
        ("name"@, Json::Str(q.name@)),
        ("labels"@, one_text("app.kubernetes.io/managed-by"@, "kubyl"@)),
    ]);
    let metadata: Value = schema::object(metadata);
    let pairs: Vec<(&'static str, Value)> = vec![("metadata", metadata)];
    assert(schema::pairs_of(pairs@) =~= seq![("metadata"@, metadata@)]);
    schema::object(pairs)
}

fn role_ref(role: &str) -> (r: Value)
    ensures
        r@ == schema::object_of(
            seq![
                ("apiGroup"@, Json::Str("rbac.authorization.k8s.io"@)),
                ("kind"@, Json::Str("ClusterRole"@)),
                ("name"@, Json::Str(role@)),
            ],
        ),
{
    let pairs: Vec<(&'static str, Value)> = vec![
        ("apiGroup", Value::text("rbac.authorization.k8s.io")),
        ("kind", Value::text("ClusterRole")),
        ("name", Value::text(role)),
    ];
    assert(schema::pairs_of(pairs@) =~= seq![
        ("apiGroup"@, Json::Str("rbac.authorization.k8s.io"@)),
        ("kind"@, Json::Str("ClusterRole"@)),
        ("name"@, Json::Str(role@)),
    ]);
    schema::object(pairs)
}

fn subject(q: &SaRequest) -> (r: Value)
    ensures
        r@ == schema::object_of(
            seq![
                ("kind"@, Json::Str("ServiceAccount"@)),
                ("name"@, Json::Str(q.name@)),
                ("namespace"@, Json::Str(q.namespace@)),
            ],
        ),
{
    let pairs: Vec<(&'static str, Value)> = vec![
        ("kind", Value::text("ServiceAccount")),
        ("name", Value::text(q.name.as_str())),
        ("namespace", Value::text(q.namespace.as_str())),
    ];
    assert(schema::pairs_of(pairs@) =~= seq![
        ("kind"@, Json::Str("ServiceAccount"@)),
        ("name"@, Json::Str(q.name@)),
        ("namespace"@, Json::Str(q.namespace@)),
    ]);
    schema::object(pairs)
}

fn binding_value(q: &SaRequest, role: &str) -> (r: Value)
    ensures
        r@ == binding(*q, role@),
{
    let metadata: Value = with_text("name", q.binding_name().as_str());
    let role_ref: Value = role_ref(role);
    let subjects: Vec<Value> = vec![subject(q)];
    assert(value::items_view(subjects@) =~= seq![subjects@[0]@]);
    let pairs: Vec<(&'static str, Value)> = vec![
        ("metadata", metadata),
        ("roleRef", role_ref),
        ("subjects", Value::Array(subjects)),
    ];
    assert(schema::pairs_of(pairs@) =~= seq![
        ("metadata"@, metadata@),
        ("roleRef"@, role_ref@),
        ("subjects"@, Json::Array(value::items_view(subjects@))),
    ]);
    schema::object(pairs)
}

fn token_request_value(seconds: i64) -> (r: Value)
    ensures
        r@ == token_request(seconds),
{
    let none: Vec<Value> = Vec::new();
    assert(value::items_view(none@) =~= seq![]);
    let number: String = text::signed_decimal_text(seconds);
    let spec_pairs: Vec<(&'static str, Value)> = vec![
        ("audiences", Value::Array(none)),
        ("expirationSeconds", Value::Number(number)),
    ];
    assert(schema::pairs_of(spec_pairs@) =~= seq![
        ("audiences"@, Json::Array(seq![])),
        ("expirationSeconds"@, Json::Number(text::signed_decimal(seconds as int))),
    ]);
    let body: Value = schema::object(spec_pairs);
    let pairs: Vec<(&'static str, Value)> = vec![("spec", body)];
    assert(schema::pairs_of(pairs@) =~= seq![("spec"@, body@)]);
    schema::object(pairs)
}

fn token_secret_value(q: &SaRequest) -> (r: Value)
    ensures
        r@ == token_secret(*q),
{
    let name: String = q.secret_name();
    let annotations: Value = with_text("kubernetes.io/service-account.name", q.name.as_str());
    let metadata: Vec<(&'static str, Value)> = vec![
        ("name", Value::text(name.as_str())),
        ("annotations", annotations),
    ];
    assert(schema::pairs_of(metadata@) =~= seq![
        ("name"@, Json::Str(q.name@ + "-token"@)),
        ("annotations"@, one_text("kubernetes.io/service-account.name"@, q.name@)),
    ]);
    let metadata: Value = schema::object(metadata);
    let pairs: Vec<(&'static str, Value)> = vec![
        ("metadata", metadata),
        ("type", Value::text("kubernetes.io/service-account-token")),
    ];
    assert(schema::pairs_of(pairs@) =~= seq![
        ("metadata"@, metadata@),
        ("type"@, Json::Str("kubernetes.io/service-account-token"@)),
    ]);
    schema::object(pairs)
}

impl SaRequest {
    /// The object that a call sends; none for one that only reads.
    pub fn manifest(&self, call: SaCall) -> (r: Option<Value>)
        ensures
            match r {
                Some(v) => manifest(*self, call) == Some(v@),
                None => manifest(*self, call) is None,
            },
    {
        match call {
            SaCall::CreateAccount => Some(account_value(self)),
            SaCall::CreateBinding => match self.grant {
                Grant::Nothing => None,
                Grant::Namespace(role) => Some(binding_value(self, role.name())),
                Grant::ClusterAdmin => Some(binding_value(self, "cluster-admin")),
            },
            SaCall::RequestToken => match self.kind {
                TokenKind::Request(seconds) => Some(token_request_value(seconds)),
                TokenKind::Secret => None,
            },
            SaCall::CreateSecret => Some(token_secret_value(self)),
            _ => None,
        }
    }
}

} // verus!
