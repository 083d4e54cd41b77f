//! New kubeconfigs from a service account of a connected cluster, or from a cloud CLI. Both
//! open the result as an unsaved document in the editor, where it can be tested and saved.
//!
//! Service accounts get a TokenRequest with an expiry by default; a long-lived token Secret is
//! possible but discouraged. Cloud CLIs write the same entries their `get-credentials` commands
//! write: Kubyl runs exactly those commands (after showing them).

use crate::certs::Moment;
use crate::document;
use crate::json::{Fields, Json};
use crate::laws;
use crate::locations;
use crate::model::{Doc, Kind};
use crate::outside;
use crate::text::{self, cat, cat3, cat4, cat5};
use crate::transfer_laws;
use crate::value::{self, Object, Value};
use vstd::prelude::*;

verus! {

// ----- Service accounts: what to do -----

/// How the service account's token is made.
#[derive(Clone, Copy, Debug, PartialEq, Eq, Structural)]
pub enum TokenKind {
    /// A TokenRequest that expires after this many seconds (recommended).
    Request(i64),
    /// A long-lived `kubernetes.io/service-account-token` Secret.
    Secret,
}

/// A built-in ClusterRole for one namespace.
#[derive(Clone, Copy, Debug, PartialEq, Eq, Structural)]
pub enum Role {
    View,
    Edit,
    Admin,
}

pub open spec fn role_name(role: Role) -> Seq<char> {
    match role {
        Role::View => "view"@,
        Role::Edit => "edit"@,
        Role::Admin => "admin"@,
    }
}

impl Role {
    pub fn name(self) -> (r: &'static str)
        ensures
            r@ == role_name(self),
    {
        match self {
            Role::View => "view",
            Role::Edit => "edit",
            Role::Admin => "admin",
        }
    }
}

/// Permissions to grant the service account.
#[derive(Clone, Copy, Debug, PartialEq, Eq, Structural)]
pub enum Grant {
    Nothing,
    /// A RoleBinding in the namespace to a built-in ClusterRole (`view`, `edit`, `admin`).
    Namespace(Role),
    /// A ClusterRoleBinding to `cluster-admin`.
    ClusterAdmin,
}

impl Grant {
    /// The choices, in order.
    pub fn all() -> (r: Vec<Grant>)
        ensures
            r@ == seq![
                Grant::Nothing,
                Grant::Namespace(Role::View),
                Grant::Namespace(Role::Edit),
                Grant::Namespace(Role::Admin),
                Grant::ClusterAdmin,
            ],
    {
        vec![
            Grant::Nothing,
            Grant::Namespace(Role::View),
            Grant::Namespace(Role::Edit),
            Grant::Namespace(Role::Admin),
            Grant::ClusterAdmin,
        ]
    }

    pub fn label(self) -> (r: String)
        ensures
            r@ == grant_label(self),
    {
        match self {
            Grant::Nothing => "No binding (only what it has)".to_string(),
            Grant::Namespace(role) => cat(role.name(), " in the namespace (RoleBinding)"),
            Grant::ClusterAdmin => "cluster-admin on the whole cluster (ClusterRoleBinding)".to_string(),
        }
    }
}

pub open spec fn grant_label(grant: Grant) -> Seq<char> {
    match grant {
        Grant::Nothing => "No binding (only what it has)"@,
        Grant::Namespace(role) => role_name(role) + " in the namespace (RoleBinding)"@,
        Grant::ClusterAdmin => "cluster-admin on the whole cluster (ClusterRoleBinding)"@,
    }
}

/// What a service-account request produced.
#[derive(Debug)]
pub struct SaToken {
    pub token: String,
    pub expires: Option<Moment>,
    pub created: Vec<String>,
}

/// A service account's token, asked for.
#[derive(Debug)]
pub struct SaRequest {
    pub namespace: String,
    pub name: String,
    /// Create the service account if it doesn't exist.
    pub create: bool,
    pub kind: TokenKind,
    pub grant: Grant,
}

/// The next call to the API server.
#[derive(Clone, Copy, Debug, PartialEq, Eq, Structural)]
pub enum SaCall {
    GetAccount,
    CreateAccount,
    GetBinding,
    CreateBinding,
    RequestToken,
    GetSecret,
    CreateSecret,
    /// Read the Secret's token (the token controller fills it in).
    ReadSecret,
    Done,
}

/// What the API server answered.
#[derive(Debug)]
pub enum SaAnswer {
    Found,
    Missing,
    Created,
    /// A TokenRequest's status: the token and when it expires.
    Token { token: Option<String>, expires: Option<Moment> },
    /// The token bytes in a Secret, if they are there.
    SecretToken(Option<Vec<u8>>),
    /// An error, with its code if the API server sent one.
    Failed { code: Option<u16>, message: String },
}

/// Whether an answer is one to a call.
pub open spec fn fits(call: SaCall, answer: SaAnswer) -> bool {
    match answer {
        SaAnswer::Failed { .. } => call != SaCall::Done,
        SaAnswer::Found | SaAnswer::Missing => call == SaCall::GetAccount || call
            == SaCall::GetBinding || call == SaCall::GetSecret,
        SaAnswer::Created => call == SaCall::CreateAccount || call == SaCall::CreateBinding || call
            == SaCall::CreateSecret,
        SaAnswer::Token { .. } => call == SaCall::RequestToken,
        SaAnswer::SecretToken(_) => call == SaCall::ReadSecret,
    }
}

/// How often a new Secret is read before its token is given up.
pub const SECRET_READS: u32 = 20;

/// The token, when it expires, and what was created for it.
pub type SaOutcome = Result<(Seq<char>, Option<Moment>, Seq<Seq<char>>), Seq<char>>;

/// Where a request stands, as a mathematical value.
pub struct SaState {
    pub call: SaCall,
    pub created: Seq<Seq<char>>,
    pub reads: u32,
    pub result: Option<SaOutcome>,
}

/// Where a request stands.
#[derive(Debug)]
pub struct SaRun {
    pub call: SaCall,
    /// What was created so far.
    pub created: Vec<String>,
    /// How often the Secret was read.
    pub reads: u32,
    pub result: Option<Result<SaToken, String>>,
}

pub open spec fn outcome_of(r: Option<Result<SaToken, String>>) -> Option<SaOutcome> {
    match r {
        Some(Ok(t)) => Some(Ok((t.token@, t.expires, text::texts(t.created@)))),
        Some(Err(e)) => Some(Err(e@)),
        None => None,
    }
}

impl View for SaRun {
    type V = SaState;

    open spec fn view(&self) -> SaState {
        SaState {
            call: self.call,
            created: text::texts(self.created@),
            reads: self.reads,
            result: outcome_of(self.result),
        }
    }
}

/// An API error in words.
pub open spec fn api_error(code: Option<u16>, message: Seq<char>) -> Seq<char> {
    if code == Some(403u16) {
        "not allowed: "@ + message
    } else {
        message
    }
}

/// The binding's name.
pub open spec fn binding_of(q: SaRequest) -> Seq<char> {
    match q.grant {
        Grant::ClusterAdmin => q.namespace@ + "-"@ + q.name@ + "-cluster-admin"@,
        Grant::Namespace(role) => q.name@ + "-"@ + role_name(role),
        Grant::Nothing => seq![],
    }
}

/// What is said of a new binding.
pub open spec fn binding_note(q: SaRequest) -> Seq<char> {
    match q.grant {
        Grant::ClusterAdmin => "ClusterRoleBinding "@ + binding_of(q) + " → cluster-admin"@,
        Grant::Namespace(role) => "RoleBinding "@ + q.namespace@ + "/"@ + binding_of(q)
            + " → ClusterRole "@ + role_name(role),
        Grant::Nothing => seq![],
    }
}

/// The call that gets the token.
pub open spec fn token_call(q: SaRequest) -> SaCall {
    if q.kind is Secret {
        SaCall::GetSecret
    } else {
        SaCall::RequestToken
    }
}

/// The call once the account is there.
pub open spec fn binding_call(q: SaRequest) -> SaCall {
    if q.grant is Nothing {
        token_call(q)
    } else {
        SaCall::GetBinding
    }
}

pub open spec fn ended(s: SaState, result: SaOutcome) -> SaState {
    SaState { call: SaCall::Done, result: Some(result), ..s }
}

/// Where a request stands after an answer.
pub open spec fn after_answer(q: SaRequest, s: SaState, answer: SaAnswer) -> SaState {
    match answer {
        SaAnswer::Failed { code, message } => ended(s, Err(api_error(code, message@))),
        SaAnswer::Found => SaState {
            call: match s.call {
                SaCall::GetAccount => binding_call(q),
                SaCall::GetBinding => token_call(q),
                _ => SaCall::ReadSecret,
            },
            ..s
        },
        SaAnswer::Missing => match s.call {
            SaCall::GetAccount => if q.create {
                SaState { call: SaCall::CreateAccount, ..s }
            } else {
                ended(
                    s,
                    Err(
                        "the service account "@ + q.namespace@ + "/"@ + q.name@
                            + " doesn't exist"@,
                    ),
                )
            },
            SaCall::GetBinding => SaState { call: SaCall::CreateBinding, ..s },
            _ => SaState { call: SaCall::CreateSecret, ..s },
        },
        SaAnswer::Created => match s.call {
            SaCall::CreateAccount => SaState {
                call: binding_call(q),
                created: s.created.push("ServiceAccount "@ + q.namespace@ + "/"@ + q.name@),
                ..s
            },
            SaCall::CreateBinding => SaState {
                call: token_call(q),
                created: s.created.push(binding_note(q)),
                ..s
            },
            _ => SaState {
                call: SaCall::ReadSecret,
                created: s.created.push(
                    "Secret "@ + q.namespace@ + "/"@ + q.name@ + "-token (long-lived token)"@,
                ),
                ..s
            },
        },
        SaAnswer::Token { token, expires } => ended(
            s,
            match token {
                Some(token) => Ok((token@, expires, s.created)),
                None => Err("the API server returned no token"@),
            },
        ),
        SaAnswer::SecretToken(Some(bytes)) => ended(
            s,
            if vstd::utf8::valid_utf8(bytes@) {
                Ok((vstd::utf8::decode_utf8(bytes@), None, s.created))
            } else {
                Err("the token isn't text"@)
            },
        ),
        SaAnswer::SecretToken(None) => if s.reads + 1 >= SECRET_READS {
            ended(s, Err("the token Secret wasn't filled in within 10 s"@))
        } else {
            SaState { reads: (s.reads + 1) as u32, ..s }
        },
    }
}

/// A request goes on until it has a result, and reads the Secret a limited number of times.
pub open spec fn sound(s: SaState) -> bool {
    &&& s.call == SaCall::Done <==> s.result is Some
    &&& s.reads < SECRET_READS
}

impl SaRequest {
    /// The binding's name.
    pub fn binding_name(&self) -> (r: String)
        ensures
            r@ == binding_of(*self),
    {
        match self.grant {
            Grant::ClusterAdmin => cat4(
                self.namespace.as_str(),
                "-",
                self.name.as_str(),
                "-cluster-admin",
            ),
            Grant::Namespace(role) => cat3(self.name.as_str(), "-", role.name()),
            Grant::Nothing => {
                let none: String = String::new();
                assert(none@ =~= Seq::empty());
                none
            },
        }
    }

    fn note(&self) -> (r: String)
        ensures
            r@ == binding_note(*self),
    {
        let binding: String = self.binding_name();
        match self.grant {
            Grant::ClusterAdmin => cat3(
                "ClusterRoleBinding ",
                binding.as_str(),
                " → cluster-admin",
            ),
            Grant::Namespace(role) => {
                let head: String = cat4(
                    "RoleBinding ",
                    self.namespace.as_str(),
                    "/",
                    binding.as_str(),
                );
                cat3(head.as_str(), " → ClusterRole ", role.name())
            },
            Grant::Nothing => {
                let none: String = String::new();
                assert(none@ =~= Seq::empty());
                none
            },
        }
    }

    /// The name of the token Secret.
    pub fn secret_name(&self) -> (r: String)
        ensures
            r@ == self.name@ + "-token"@,
    {
        cat(self.name.as_str(), "-token")
    }

    fn token_call(&self) -> (r: SaCall)
        ensures
            r == token_call(*self),
    {
        match self.kind {
            TokenKind::Secret => SaCall::GetSecret,
            TokenKind::Request(_) => SaCall::RequestToken,
        }
    }

    fn binding_call(&self) -> (r: SaCall)
        ensures
            r == binding_call(*self),
    {
        match self.grant {
            Grant::Nothing => self.token_call(),
            _ => SaCall::GetBinding,
        }
    }
}

impl SaRun {
    /// A request before its first call.
    pub fn begin() -> (r: SaRun)
        ensures
            r@ == (SaState {
                call: SaCall::GetAccount,
                created: seq![],
                reads: 0,
                result: None,
            }),
            sound(r@),
    {
        let r = SaRun {
            call: SaCall::GetAccount,
            created: Vec::new(),
            reads: 0,
            result: None,
        };
        assert(r@.created =~= Seq::empty());
        r
    }

    fn end(&mut self, result: Result<SaToken, String>)
        ensures
            final(self)@ == (SaState {
                call: SaCall::Done,
                result: outcome_of(Some(result)),
                ..old(self)@
            }),
    {
        self.result = Some(result);
        self.call = SaCall::Done;
    }

    fn token(&self, token: String, expires: Option<Moment>) -> (r: SaToken)
        ensures
            outcome_of(Some(Ok(r))) == Some::<SaOutcome>(
                Ok((token@, expires, self@.created)),
            ),
    {
        SaToken { token, expires, created: text::clone_texts(&self.created) }
    }

    /// Takes the answer to the last call and says which one is next. A missing service account
    /// is only created when that was asked for; what exists is left alone.
    pub fn answer(&mut self, request: &SaRequest, answer: SaAnswer)
        requires
            sound(old(self)@),
            fits(old(self).call, answer),
        ensures
            final(self)@ == after_answer(*request, old(self)@, answer),
            sound(final(self)@),
    {
        broadcast use text::texts_push;

        let namespace: &str = request.namespace.as_str();
        let name: &str = request.name.as_str();
        match answer {
            SaAnswer::Failed { code, message } => {
                let denied: bool = match code {
                    Some(c) => c == 403,
                    None => false,
                };
                let error: String = if denied {
                    cat("not allowed: ", message.as_str())
                } else {
                    message
                };
                self.end(Err(error));
            },
            SaAnswer::Found => {
                self.call = match self.call {
                    SaCall::GetAccount => request.binding_call(),
                    SaCall::GetBinding => request.token_call(),
                    _ => SaCall::ReadSecret,
                };
            },
            SaAnswer::Missing => match self.call {
                SaCall::GetAccount => {
                    if request.create {
                        self.call = SaCall::CreateAccount;
                    } else {
                        let error: String = cat5(
                            "the service account ",
                            namespace,
                            "/",
                            name,
                            " doesn't exist",
                        );
                        self.end(Err(error));
                    }
                },
                SaCall::GetBinding => {
                    self.call = SaCall::CreateBinding;
                },
                _ => {
                    self.call = SaCall::CreateSecret;
                },
            },
            SaAnswer::Created => match self.call {
                SaCall::CreateAccount => {
                    self.created.push(cat4("ServiceAccount ", namespace, "/", name));
                    self.call = request.binding_call();
                },
                SaCall::CreateBinding => {
                    self.created.push(request.note());
                    self.call = request.token_call();
                },
                _ => {
                    self.created.push(
                        cat5("Secret ", namespace, "/", name, "-token (long-lived token)"),
                    );
                    self.call = SaCall::ReadSecret;
                },
            },
            SaAnswer::Token { token, expires } => match token {
                Some(token) => {
                    let token: SaToken = self.token(token, expires);
                    self.end(Ok(token));
                },
                None => self.end(Err("the API server returned no token".to_string())),
            },
            SaAnswer::SecretToken(Some(bytes)) => match outside::utf8_text(bytes) {
                Some(token) => {
                    let token: SaToken = self.token(token, None);
                    self.end(Ok(token));
                },
                None => self.end(Err("the token isn't text".to_string())),
            },
            SaAnswer::SecretToken(None) => {
                if self.reads + 1 >= SECRET_READS {
                    self.end(
                        Err("the token Secret wasn't filled in within 10 s".to_string()),
                    );
                } else {
                    self.reads = self.reads + 1;
                }
            },
        }
    }
}

// ----- Service accounts: the document -----

/// One field.
pub open spec fn one(key: Seq<char>, v: Seq<char>) -> Fields {
    seq![(key, Json::Str(v))]
}

/// A kubeconfig for a service account: the source context's cluster, a user with the token, a
/// context in the namespace. None if the source context has no cluster or a name can't be used.
pub open spec fn service_account_document(
    source: Json,
    dir: Seq<char>,
    source_context: Seq<char>,
    namespace: Seq<char>,
    name: Seq<char>,
    token: Seq<char>,
) -> Option<Json> {
    let d = locations::moved(source, dir);
    match document::context_reference(d, source_context, Kind::Cluster) {
        None => None,
        Some(cluster) => match document::body(d, Kind::Cluster, cluster) {
            None => None,
            Some(body) => {
                let user = name + "@"@ + cluster;
                let context = name + "@"@ + source_context;
                if document::name_error(cluster) is Some || document::name_error(user) is Some
                    || document::name_error(context) is Some {
                    None
                } else {
                    let d1 = document::added(
                        document::empty_document(),
                        Kind::Cluster,
                        cluster,
                        body,
                    );
                    let d2 = document::added(d1, Kind::User, user, one("token"@, token));
                    let d3 = document::added(
                        d2,
                        Kind::Context,
                        context,
                        seq![
                            ("cluster"@, Json::Str(cluster)),
                            ("user"@, Json::Str(user)),
                            ("namespace"@, Json::Str(namespace)),
                        ],
                    );
                    Some(document::with_current_context(d3, Some(context)))
                }
            },
        },
    }
}

/// The lists of a document with one more cluster, user and context than an empty one.
pub proof fn lemma_lists(
    cluster: Seq<char>,
    body: Fields,
    user: Seq<char>,
    user_body: Fields,
    context: Seq<char>,
    context_body: Fields,
)
    ensures
        ({
            let d0 = document::empty_document();
            let d1 = document::added(d0, Kind::Cluster, cluster, body);
            let d2 = document::added(d1, Kind::User, user, user_body);
            let d3 = document::added(d2, Kind::Context, context, context_body);
            let d4 = document::with_current_context(d3, Some(context));
            &&& !document::contains(d0, Kind::Cluster, cluster)
            &&& !document::contains(d1, Kind::User, user)
            &&& !document::contains(d2, Kind::Context, context)
            &&& document::list(d4, Kind::Cluster) == seq![
                document::new_entry(Kind::Cluster, cluster, body),
            ]
            &&& document::list(d4, Kind::User) == seq![
                document::new_entry(Kind::User, user, user_body),
            ]
            &&& document::list(d4, Kind::Context) == seq![
                document::new_entry(Kind::Context, context, context_body),
            ]
        }),
{
    let d0 = document::empty_document();
    let d1 = document::added(d0, Kind::Cluster, cluster, body);
    let d2 = document::added(d1, Kind::User, user, user_body);
    let d3 = document::added(d2, Kind::Context, context, context_body);
    document::lemma_keys_differ();
    transfer_laws::lemma_empty_lists();
    document::with_list_reads(
        d0,
        Kind::Cluster,
        document::list(d0, Kind::Cluster).push(
            document::new_entry(Kind::Cluster, cluster, body),
        ),
    );
    document::with_list_reads(
        d1,
        Kind::User,
        document::list(d1, Kind::User).push(document::new_entry(Kind::User, user, user_body)),
    );
    document::with_list_reads(
        d2,
        Kind::Context,
        document::list(d2, Kind::Context).push(
            document::new_entry(Kind::Context, context, context_body),
        ),
    );
    laws::lemma_with_current_keeps_lists(d3, Some(context));
    assert(document::list(d1, Kind::Cluster) =~= seq![
        document::new_entry(Kind::Cluster, cluster, body),
    ]);
    assert(document::list(d2, Kind::User) =~= seq![
        document::new_entry(Kind::User, user, user_body),
    ]);
    assert(document::list(d3, Kind::Context) =~= seq![
        document::new_entry(Kind::Context, context, context_body),
    ]);
}

/// A kubeconfig for a service account: the source context's cluster (no credentials of the
/// source user), a user with the token, a context in the namespace. `dir` is the folder that
/// `source` was read from: relative paths (a CA file) are made absolute, since the new file
/// lives elsewhere.
pub fn service_account_doc(
    source: &Doc,
    dir: &str,
    source_context: &str,
    namespace: &str,
    name: &str,
    token: &str,
) -> (r: Option<Doc>)
    ensures
        ({
            let wanted = service_account_document(
                source@,
                dir@,
                source_context@,
                namespace@,
                name@,
                token@,
            );
            match r {
                Some(d) => wanted == Some(d@),
                None => wanted is None,
            }
        }),
{
    let source: Doc = source.with_absolute_paths(dir);
    let (cluster, _) = source.context_refs(source_context);
    let cluster: String = match cluster {
        Some(cluster) => cluster,
        None => {
            return None;
        },
    };
    let body: Object = match source.body(Kind::Cluster, cluster.as_str()) {
        Some(body) => body.clone(),
        None => {
            return None;
        },
    };
    let user: String = cat3(name, "@", cluster.as_str());
    let context: String = cat3(name, "@", source_context);
    let user_fields: Vec<(String, Value)> = vec![("token".to_string(), Value::text(token))];
    let context_fields: Vec<(String, Value)> = vec![
        ("cluster".to_string(), Value::text(cluster.as_str())),
        ("user".to_string(), Value::text(user.as_str())),
        ("namespace".to_string(), Value::text(namespace)),
    ];
    let ghost user_body = one("token"@, token@);
    let ghost context_body = seq![
        ("cluster"@, Json::Str(cluster@)),
        ("user"@, Json::Str(user@)),
        ("namespace"@, Json::Str(namespace@)),
    ];
    proof {
        lemma_lists(cluster@, body@, user@, user_body, context@, context_body);
        assert(value::pairs_view(user_fields@) =~= user_body);
        assert(value::pairs_view(context_fields@) =~= context_body);
        reveal_strlit("cluster");
        reveal_strlit("user");
        reveal_strlit("namespace");
        assert("cluster"@.len() == 7 && "user"@.len() == 4 && "namespace"@.len() == 9);
    }
    let mut doc: Doc = Doc::empty();
    if doc.add(Kind::Cluster, cluster.as_str(), body).is_err() {
        return None;
    }
    if doc.add(Kind::User, user.as_str(), Object::of(user_fields)).is_err() {
        return None;
    }
    if doc.add(Kind::Context, context.as_str(), Object::of(context_fields)).is_err() {
        return None;
    }
    doc.set_current_context(Some(context.as_str()));
    Some(doc)
}

/// A service account's kubeconfig copies the cluster only: its one user has the token and
/// nothing else, so nothing of the source user comes along.
pub proof fn service_account_document_has_one_user(
    source: Json,
    dir: Seq<char>,
    source_context: Seq<char>,
    namespace: Seq<char>,
    name: Seq<char>,
    token: Seq<char>,
)
    requires
        service_account_document(source, dir, source_context, namespace, name, token) is Some,
    ensures
        ({
            let d = service_account_document(
                source,
                dir,
                source_context,
                namespace,
                name,
                token,
            )->0;
            let cluster = document::context_reference(
                locations::moved(source, dir),
                source_context,
                Kind::Cluster,
            )->0;
            &&& document::list(d, Kind::User) == seq![
                document::new_entry(Kind::User, name + "@"@ + cluster, one("token"@, token)),
            ]
            &&& document::list(d, Kind::Cluster).len() == 1
            &&& document::list(d, Kind::Context).len() == 1
        }),
{
    let s = locations::moved(source, dir);
    let cluster = document::context_reference(s, source_context, Kind::Cluster)->0;
    let body = document::body(s, Kind::Cluster, cluster)->0;
    let user = name + "@"@ + cluster;
    lemma_lists(
        cluster,
        body,
        user,
        one("token"@, token),
        name + "@"@ + source_context,
        seq![
            ("cluster"@, Json::Str(cluster)),
            ("user"@, Json::Str(user)),
            ("namespace"@, Json::Str(namespace)),
        ],
    );
}

/// Nothing is created unasked: a service account only where that was asked for, and whatever is
/// created was looked for first and wasn't there; without a grant no binding is even looked for.
pub proof fn nothing_is_created_unasked(q: SaRequest, s: SaState, answer: SaAnswer)
    requires
        fits(s.call, answer),
    ensures
        ({
            let call = after_answer(q, s, answer).call;
            &&& call == SaCall::CreateAccount ==> q.create && s.call == SaCall::GetAccount && answer
                is Missing
            &&& call == SaCall::GetBinding ==> !(q.grant is Nothing)
            &&& call == SaCall::CreateBinding ==> s.call == SaCall::GetBinding && answer is Missing
            &&& call == SaCall::GetSecret ==> q.kind is Secret
            &&& call == SaCall::CreateSecret ==> s.call == SaCall::GetSecret && answer is Missing
        }),
{
}

} // verus!
