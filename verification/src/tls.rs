//! TLS targets and failures for the connection test, and finding a cluster's CA (trust on first
//! use).
//!
//! A CA found in `kube-public/cluster-info` (or in the certificates the server sent) is only
//! offered when it verifies the server's certificate, and the user confirms its fingerprint
//! before it's used.

use crate::certs::{self, Cert, CertInfo};
use crate::json::{self, Json};
use crate::outside;
use crate::pem;
use crate::text::{self, cat, cat3, decimal_text, same, trim};
use crate::value::Value;
use vstd::prelude::*;

verus! {

/// The most `cluster-info` bytes read.
pub const MAX_BODY: usize = 1 << 20;

/// Where to connect and which name the certificate must be valid for.
#[derive(Debug, PartialEq, Eq)]
pub struct Target {
    pub host: String,
    pub port: u16,
    /// `tls-server-name`, else the host.
    pub server_name: String,
    pub https: bool,
}

/// A target as a mathematical value.
pub struct Endpoint {
    pub host: Seq<char>,
    pub port: u16,
    pub server_name: Seq<char>,
    pub https: bool,
}

impl View for Target {
    type V = Endpoint;

    open spec fn view(&self) -> Endpoint {
        Endpoint {
            host: self.host@,
            port: self.port,
            server_name: self.server_name@,
            https: self.https,
        }
    }
}

impl Clone for Target {
    fn clone(&self) -> (r: Target)
        ensures
            r@ == self@,
    {
        Target {
            host: self.host.clone(),
            port: self.port,
            server_name: self.server_name.clone(),
            https: self.https,
        }
    }
}

/// A URL's scheme, host, port and path; or why it isn't one.
pub type UrlParts = Result<(Seq<char>, Option<Seq<char>>, Option<u16>, Seq<char>), Seq<char>>;

/// The target of a server URL, once the URL is taken apart.
pub open spec fn target_of_url(
    server: Seq<char>,
    url: UrlParts,
    tls_server_name: Option<Seq<char>>,
) -> Result<Endpoint, Seq<char>> {
    match url {
        Err(e) => Err("\""@ + server + "\" isn't a valid URL: "@ + e),
        Ok((scheme, host, port, path)) => if scheme != "https"@ && scheme != "http"@ {
            Err("the server URL must start with https:// (not "@ + scheme + "://)"@)
        } else {
            match host {
                None => Err("\""@ + server + "\" has no host"@),
                Some(host) => {
                    let host = text::without_trailing(text::without_leading(host, '['), ']');
                    let server_name = match tls_server_name {
                        Some(name) if text::trimmed(name).len() > 0 => text::trimmed(name),
                        _ => host,
                    };
                    Ok(
                        Endpoint {
                            host,
                            port: match port {
                                Some(port) => port,
                                None => 443,
                            },
                            server_name,
                            https: scheme == "https"@,
                        },
                    )
                },
            }
        },
    }
}

/// The target of a kubeconfig `server` URL and optional `tls-server-name`.
pub open spec fn target_of(server: Seq<char>, tls_server_name: Option<Seq<char>>) -> Result<
    Endpoint,
    Seq<char>,
> {
    target_of_url(server, outside::url_parts(text::trimmed(server)), tls_server_name)
}

/// The characters of a taken-apart URL.
pub open spec fn url_view(
    url: Result<(String, Option<String>, Option<u16>, String), String>,
) -> UrlParts {
    match url {
        Ok((scheme, host, port, path)) => Ok((scheme@, text::text_of(host), port, path@)),
        Err(e) => Err(e@),
    }
}

/// The characters of an optional text.
pub open spec fn slice_of(s: Option<&str>) -> Option<Seq<char>> {
    match s {
        Some(s) => Some(s@),
        None => None,
    }
}

impl Target {
    /// The target of a server URL, once the URL is taken apart.
    pub fn from_url(
        server: &str,
        url: &Result<(String, Option<String>, Option<u16>, String), String>,
        tls_server_name: Option<&str>,
    ) -> (r: Result<Target, String>)
        ensures
            ({
                let wanted = target_of_url(server@, url_view(*url), slice_of(tls_server_name));
                match r {
                    Ok(t) => wanted == Ok::<_, Seq<char>>(t@),
                    Err(e) => wanted == Err::<Endpoint, _>(e@),
                }
            }),
    {
        match url {
            Err(e) => Err(text::cat4("\"", server, "\" isn't a valid URL: ", e.as_str())),
            Ok((scheme, host, port, _)) => {
                let https: bool = same(scheme.as_str(), "https");
                if !https && !same(scheme.as_str(), "http") {
                    return Err(
                        cat3(
                            "the server URL must start with https:// (not ",
                            scheme.as_str(),
                            "://)",
                        ),
                    );
                }
                let host: String = match host {
                    Some(host) => text::strip_chars(host.as_str(), '[', ']'),
                    None => {
                        return Err(cat3("\"", server, "\" has no host"));
                    },
                };
                let port: u16 = match port {
                    Some(port) => *port,
                    None => 443,
                };
                let name: String = match tls_server_name {
                    Some(name) => trim(name),
                    None => String::new(),
                };
                let server_name: String = if name.as_str().is_empty() {
                    host.clone()
                } else {
                    name
                };
                Ok(Target { host, port, server_name, https })
            },
        }
    }

    /// From a kubeconfig `server` URL and optional `tls-server-name`.
    pub fn parse(server: &str, tls_server_name: Option<&str>) -> (r: Result<Target, String>)
        ensures
            match r {
                Ok(t) => target_of(server@, slice_of(tls_server_name)) == Ok::<_, Seq<char>>(t@),
                Err(e) => target_of(server@, slice_of(tls_server_name)) == Err::<Endpoint, _>(e@),
            },
    {
        let url = outside::parse_url(trim(server).as_str());
        Target::from_url(server, &url, tls_server_name)
    }

    /// `host:port` for display (IPv6 in brackets).
    pub fn authority(&self) -> (r: String)
        ensures
            r@ == authority_of(self@),
    {
        let port: String = decimal_text(self.port as u128);
        if text::contains_char(self.host.as_str(), ':') {
            text::cat4("[", self.host.as_str(), "]:", port.as_str())
        } else {
            cat3(self.host.as_str(), ":", port.as_str())
        }
    }
}

/// Why the CA of a server can't be fetched, if it can't: a server that uses plain HTTP has none.
pub fn ca_refusal(target: &Target) -> (r: Option<String>)
    ensures
        text::text_of(r) == if target@.https {
            None
        } else {
            Some("the server uses plain HTTP; there is no CA to fetch"@)
        },
{
    if target.https {
        None
    } else {
        Some("the server uses plain HTTP; there is no CA to fetch".to_string())
    }
}

/// `host:port`, IPv6 in brackets.
pub open spec fn authority_of(t: Endpoint) -> Seq<char> {
    if t.host.contains(':') {
        "["@ + t.host + "]:"@ + text::decimal(t.port as nat)
    } else {
        t.host + ":"@ + text::decimal(t.port as nat)
    }
}

/// What the TLS step trusts.
#[derive(Debug)]
pub enum Trust {
    /// The OS trust store (no CA in the kubeconfig).
    System,
    /// PEM text of the kubeconfig's CA.
    Pem(String),
    /// `insecure-skip-tls-verify`: nothing is verified.
    Insecure,
}

/// The result of a handshake.
#[derive(Debug)]
pub struct Handshake {
    /// `TLS 1.3`.
    pub protocol: String,
    /// What the server sent, leaf first.
    pub chain: Vec<CertInfo>,
    pub millis: u64,
}

/// Why a handshake failed.
#[derive(Debug, PartialEq)]
pub enum TlsError {
    /// Couldn't connect at all.
    Connect(String),
    /// The server's certificate isn't signed by a trusted CA.
    UnknownIssuer,
    /// The certificate is for other names.
    WrongName { expected: String, names: Vec<String> },
    Expired { not_after: String },
    NotYetValid,
    /// Anything else (alerts, protocol errors, bad signatures).
    Other(String),
}

/// A plain-language explanation of a failed handshake.
pub open spec fn failure_text(e: TlsError) -> Seq<char> {
    match e {
        TlsError::Connect(err) => err@,
        TlsError::UnknownIssuer => "certificate signed by unknown authority: the server's CA isn't the one this kubeconfig trusts"@,
        TlsError::WrongName { expected, names } => if names@.len() == 0 {
            "the server's certificate isn't valid for "@ + expected@
        } else {
            "the server's certificate isn't valid for "@ + expected@ + " (it's for "@
                + text::joined(text::texts(names@), ", "@)
                + "); set the TLS server name if you connect through another address"@
        },
        TlsError::Expired { not_after } => "the server's certificate expired on "@ + not_after@,
        TlsError::NotYetValid => "the server's certificate isn't valid yet (is this computer's clock right?)"@,
        TlsError::Other(err) => "TLS handshake failed: "@ + err@,
    }
}

impl TlsError {
    /// A plain-language explanation.
    pub fn message(&self) -> (r: String)
        ensures
            r@ == failure_text(*self),
    {
        match self {
            TlsError::Connect(err) => err.clone(),
            TlsError::UnknownIssuer => "certificate signed by unknown authority: the server's CA isn't the one this kubeconfig trusts".to_string(),
            TlsError::WrongName { expected, names } => if names.len() == 0 {
                cat("the server's certificate isn't valid for ", expected.as_str())
            } else {
                text::cat5(
                    "the server's certificate isn't valid for ",
                    expected.as_str(),
                    " (it's for ",
                    text::join(names, ", ").as_str(),
                    "); set the TLS server name if you connect through another address",
                )
            },
            TlsError::Expired { not_after } => cat(
                "the server's certificate expired on ",
                not_after.as_str(),
            ),
            TlsError::NotYetValid => "the server's certificate isn't valid yet (is this computer's clock right?)".to_string(),
            TlsError::Other(err) => cat("TLS handshake failed: ", err.as_str()),
        }
    }
}

/// Why the verification of a certificate failed.
#[derive(Debug)]
pub enum VerifyError {
    UnknownIssuer,
    BadSignature,
    WrongName,
    Expired,
    NotYetValid,
    /// Another fault of the certificate, or of the handshake.
    Other(String),
}

/// A failed handshake: what the verification said (none if it wasn't reached), what the
/// connection said, where to, and what the server sent.
pub fn classify(
    verify: Option<&VerifyError>,
    io_error: &str,
    target: &Target,
    served: &Vec<CertInfo>,
) -> (r: TlsError)
    ensures
        match verify {
            Some(VerifyError::UnknownIssuer) | Some(VerifyError::BadSignature) => r
                == TlsError::UnknownIssuer,
            Some(VerifyError::WrongName) => r is WrongName && r->expected@ == target.server_name@
                && text::texts(r->names@) == if served@.len() > 0 {
                served@[0]@.names
            } else {
                seq![]
            },
            Some(VerifyError::Expired) => r is Expired && r->not_after@ == if served@.len() > 0 {
                outside::date_at(served@[0].not_after)
            } else {
                seq![]
            },
            Some(VerifyError::NotYetValid) => r == TlsError::NotYetValid,
            Some(VerifyError::Other(e)) => r is Other && r->Other_0@ == e@,
            None => r is Other && r->Other_0@ == io_error@,
        },
{
    match verify {
        Some(VerifyError::UnknownIssuer) | Some(VerifyError::BadSignature) => {
            TlsError::UnknownIssuer
        },
        Some(VerifyError::WrongName) => {
            let names: Vec<String> = if served.len() > 0 {
                text::clone_texts(&served[0].names)
            } else {
                Vec::new()
            };
            assert(served@.len() == 0 ==> text::texts(names@) =~= seq![]);
            TlsError::WrongName { expected: target.server_name.clone(), names }
        },
        Some(VerifyError::Expired) => {
            let not_after: String = if served.len() > 0 {
                served[0].not_after_date()
            } else {
                String::new()
            };
            TlsError::Expired { not_after }
        },
        Some(VerifyError::NotYetValid) => TlsError::NotYetValid,
        Some(VerifyError::Other(e)) => TlsError::Other(e.clone()),
        None => TlsError::Other(io_error.to_string()),
    }
}

// ----- Roots -----

/// The first certificate that can't be a trust anchor, and why.
pub open spec fn first_unusable(ders: Seq<Seq<u8>>) -> Option<Seq<char>>
    decreases ders.len(),
{
    if ders.len() == 0 {
        None
    } else {
        match outside::anchor_error(ders[0]) {
            Some(e) => Some(e),
            None => first_unusable(ders.drop_first()),
        }
    }
}

/// The DER certificates of PEM text that make a root store; every one must be usable, and there
/// must be one.
pub fn roots_from_pem(pem: &str) -> (r: Result<Vec<Vec<u8>>, String>)
    ensures
        ({
            let ders = certs::labelled(pem::blocks(text::text_lines(pem@)), "CERTIFICATE"@);
            match first_unusable(ders) {
                Some(e) => r is Err && r->Err_0@ == "the CA certificate isn't usable: "@ + e,
                None => if ders.len() == 0 {
                    r is Err && r->Err_0@ == "the CA data holds no certificate"@
                } else {
                    r is Ok && outside::byte_lists(r->Ok_0@) == ders
                },
            }
        }),
{
    let ders: Vec<Vec<u8>> = certs::certificate_blocks(pem);
    let ghost all = outside::byte_lists(ders@);
    let mut i: usize = 0;
    assert(all.skip(0) =~= all);
    while i < ders.len()
        invariant
            i <= ders@.len(),
            all == outside::byte_lists(ders@),
            all == certs::labelled(pem::blocks(text::text_lines(pem@)), "CERTIFICATE"@),
            first_unusable(all) == first_unusable(all.skip(i as int)),
        decreases ders@.len() - i,
    {
        let ghost rest = all.skip(i as int);
        assert(rest[0] == ders@[i as int]@);
        assert(rest.drop_first() =~= all.skip(i + 1));
        if let Some(e) = outside::check_anchor(ders[i].as_slice()) {
            return Err(cat("the CA certificate isn't usable: ", e.as_str()));
        }
        i += 1;
    }
    if ders.len() == 0 {
        return Err("the CA data holds no certificate".to_string());
    }
    Ok(ders)
}

// ----- Finding a CA -----

/// Where a CA candidate came from.
#[derive(Clone, Copy, Debug, PartialEq, Eq, Structural)]
pub enum CaOrigin {
    /// `kube-public/cluster-info`, read anonymously.
    ClusterInfo,
    /// The certificate chain the server sent.
    ServedChain,
}

impl CaOrigin {
    pub fn label(&self) -> (r: &'static str)
        ensures
            r@ == match *self {
                CaOrigin::ClusterInfo => "kube-public/cluster-info (anonymous)"@,
                CaOrigin::ServedChain => "the server's certificate chain"@,
            },
    {
        match self {
            CaOrigin::ClusterInfo => "kube-public/cluster-info (anonymous)",
            CaOrigin::ServedChain => "the server's certificate chain",
        }
    }
}

/// A CA that verifies the server's certificate.
#[derive(Debug)]
pub struct CaCandidate {
    pub cert: CertInfo,
    pub origin: CaOrigin,
}

/// Candidates as mathematical values.
pub open spec fn candidates_view(v: Seq<CaCandidate>) -> Seq<(Cert, CaOrigin)> {
    Seq::new(v.len(), |i: int| (v[i].cert@, v[i].origin))
}

pub broadcast proof fn candidates_view_push(v: Seq<CaCandidate>, c: CaCandidate)
    ensures
        #[trigger] candidates_view(v.push(c)) == candidates_view(v).push((c.cert@, c.origin)),
{
    assert(candidates_view(v.push(c)) =~= candidates_view(v).push((c.cert@, c.origin)));
}

/// What fetching the CA found.
#[derive(Debug)]
pub struct FetchedCa {
    /// The server's certificate chain, leaf first.
    pub served: Vec<CertInfo>,
    /// CAs that verify it, best first.
    pub candidates: Vec<CaCandidate>,
    /// Why `cluster-info` gave nothing (shown when there is no candidate).
    pub cluster_info_error: Option<String>,
}

/// Whether `ca` verifies the served chain for a name at a time.
pub open spec fn verifies_chain(
    ca: Cert,
    served: Seq<Cert>,
    server_name: Seq<char>,
    now: u64,
) -> bool {
    served.len() > 0 && outside::verified_by(
        ca.der,
        served[0].der,
        Seq::new((served.len() - 1) as nat, |i: int| served[i + 1].der),
        server_name,
        now,
    )
}

/// Whether `ca` verifies the served chain for the target's name at a time (seconds since 1970).
pub fn verifies_at(ca: &CertInfo, served: &Vec<CertInfo>, target: &Target, now: u64) -> (r: bool)
    ensures
        r == verifies_chain(ca@, certs::certs_view(served@), target.server_name@, now),
{
    if served.len() == 0 {
        return false;
    }
    let mut intermediates: Vec<Vec<u8>> = Vec::new();
    let ghost chain = certs::certs_view(served@);
    let ghost wanted = Seq::new((chain.len() - 1) as nat, |i: int| chain[i + 1].der);
    let mut i: usize = 1;
    assert(outside::byte_lists(intermediates@) =~= wanted.take(0));
    while i < served.len()
        invariant
            1 <= i <= served@.len(),
            chain == certs::certs_view(served@),
            wanted == Seq::new((chain.len() - 1) as nat, |i: int| chain[i + 1].der),
            outside::byte_lists(intermediates@) == wanted.take(i - 1),
        decreases served@.len() - i,
    {
        let ghost before = intermediates@;
        intermediates.push(certs::clone_bytes(&served[i].der));
        assert(outside::byte_lists(intermediates@) =~= outside::byte_lists(before).push(
            wanted[i - 1],
        ));
        assert(wanted.take(i as int) =~= wanted.take(i - 1).push(wanted[i - 1]));
        i += 1;
    }
    assert(wanted.take(i - 1) =~= wanted);
    outside::verify_chain(
        ca.der.as_slice(),
        served[0].der.as_slice(),
        &intermediates,
        target.server_name.as_str(),
        now,
    )
}

/// Whether `ca` verifies the served chain for the target's name now, whatever the clock says.
pub fn verifies(ca: &CertInfo, served: &Vec<CertInfo>, target: &Target) -> (r: bool)
    ensures
        served@.len() == 0 ==> !r,
        exists|now: u64|
            r == #[trigger] verifies_chain(
                ca@,
                certs::certs_view(served@),
                target.server_name@,
                now,
            ),
{
    verifies_at(ca, served, target, outside::unix_now())
}

/// Every certificate with its origin.
pub open spec fn with_origin(certs: Seq<Cert>, origin: CaOrigin) -> Seq<(Cert, CaOrigin)> {
    Seq::new(certs.len(), |i: int| (certs[i], origin))
}

/// Whether a certificate with this hash was found.
pub open spec fn found_hash(found: Seq<(Cert, CaOrigin)>, sha256: Seq<u8>) -> bool {
    exists|i: int| 0 <= i < found.len() && (#[trigger] found[i]).0.sha256 == sha256
}

/// What is found, with the CAs that the server sent after it: from the last one down to the
/// second, each once.
pub open spec fn with_served(found: Seq<(Cert, CaOrigin)>, served: Seq<Cert>) -> Seq<
    (Cert, CaOrigin),
>
    decreases served.len(),
{
    if served.len() <= 1 {
        found
    } else {
        let cert = served.last();
        let next = if cert.is_ca && !found_hash(found, cert.sha256) {
            found.push((cert, CaOrigin::ServedChain))
        } else {
            found
        };
        with_served(next, served.drop_last())
    }
}

/// The ones that verify the chain, in order.
pub open spec fn verifying(
    found: Seq<(Cert, CaOrigin)>,
    served: Seq<Cert>,
    server_name: Seq<char>,
    now: u64,
) -> Seq<(Cert, CaOrigin)>
    decreases found.len(),
{
    if found.len() == 0 {
        seq![]
    } else {
        let before = verifying(found.drop_last(), served, server_name, now);
        if verifies_chain(found.last().0, served, server_name, now) {
            before.push(found.last())
        } else {
            before
        }
    }
}

/// The certificates that `cluster-info` published; none if they can't be read.
pub open spec fn published(pem: Result<Seq<char>, Seq<char>>) -> Seq<Cert> {
    match pem {
        Ok(pem) => match certs::certs_in(pem) {
            Ok(c) => c,
            Err(_) => seq![],
        },
        Err(_) => seq![],
    }
}

/// The CAs to offer: those of `cluster-info`, then those that the server sent, as far as they
/// verify the server's certificate.
pub open spec fn offered(
    served: Seq<Cert>,
    cluster_info: Result<Seq<char>, Seq<char>>,
    server_name: Seq<char>,
    now: u64,
) -> Seq<(Cert, CaOrigin)> {
    verifying(
        with_served(with_origin(published(cluster_info), CaOrigin::ClusterInfo), served),
        served,
        server_name,
        now,
    )
}

/// The characters of a text or of an error.
pub open spec fn text_result(r: Result<String, String>) -> Result<Seq<char>, Seq<char>> {
    match r {
        Ok(s) => Ok(s@),
        Err(e) => Err(e@),
    }
}

/// Whether a certificate with this hash was found.
fn has_hash(found: &Vec<CaCandidate>, sha256: &Vec<u8>) -> (r: bool)
    ensures
        r == found_hash(candidates_view(found@), sha256@),
{
    let ghost all = candidates_view(found@);
    let mut i: usize = 0;
    while i < found.len()
        invariant
            i <= found@.len(),
            all == candidates_view(found@),
            forall|j: int| 0 <= j < i ==> (#[trigger] all[j]).0.sha256 != sha256@,
        decreases found@.len() - i,
    {
        if same_bytes(&found[i].cert.sha256, sha256) {
            assert(all[i as int].0.sha256 == sha256@);
            return true;
        }
        i += 1;
    }
    false
}

/// Whether two byte strings are the same.
pub fn same_bytes(a: &Vec<u8>, b: &Vec<u8>) -> (r: bool)
    ensures
        r == (a@ == b@),
{
    if a.len() != b.len() {
        return false;
    }
    let mut i: usize = 0;
    while i < a.len()
        invariant
            i <= a@.len() == b@.len(),
            forall|j: int| 0 <= j < i ==> a@[j] == b@[j],
        decreases a@.len() - i,
    {
        if a[i] != b[i] {
            return false;
        }
        i += 1;
    }
    assert(a@ =~= b@);
    true
}

/// What fetching the CA of a server found, from the chain it sent and what `cluster-info` said
/// (the PEM of its CA, or why there is none), at a time (seconds since 1970).
pub fn choose_ca(
    served: Vec<CertInfo>,
    cluster_info: &Result<String, String>,
    target: &Target,
    now: u64,
) -> (r: FetchedCa)
    ensures
        r.served == served,
        candidates_view(r.candidates@) == offered(
            certs::certs_view(served@),
            text_result(*cluster_info),
            target.server_name@,
            now,
        ),
        text::text_of(r.cluster_info_error) == match *cluster_info {
            Ok(_) => None,
            Err(e) => Some(e@),
        },
{
    let ghost chain = certs::certs_view(served@);
    let ghost info = text_result(*cluster_info);
    let mut found: Vec<CaCandidate> = Vec::new();
    let mut cluster_info_error: Option<String> = None;
    assert(candidates_view(found@) =~= Seq::empty());
    match cluster_info {
        Ok(pem) => {
            if let Ok(certs) = certs::certificates(pem.as_str()) {
                let ghost all = with_origin(certs::certs_view(certs@), CaOrigin::ClusterInfo);
                let mut i: usize = 0;
                assert(candidates_view(found@) =~= all.take(0));
                while i < certs.len()
                    invariant
                        i <= certs@.len(),
                        all == with_origin(certs::certs_view(certs@), CaOrigin::ClusterInfo),
                        candidates_view(found@) == all.take(i as int),
                    decreases certs@.len() - i,
                {
                    broadcast use candidates_view_push;

                    found.push(
                        CaCandidate { cert: certs[i].clone(), origin: CaOrigin::ClusterInfo },
                    );
                    assert(all.take(i + 1) =~= all.take(i as int).push(all[i as int]));
                    i += 1;
                }
                assert(all.take(i as int) =~= all);
            }
        },
        Err(e) => {
            cluster_info_error = Some(e.clone());
        },
    }
    assert(candidates_view(found@) =~= with_origin(published(info), CaOrigin::ClusterInfo));
    let ghost start = candidates_view(found@);
    let mut n: usize = served.len();
    assert(chain.take(n as int) =~= chain);
    while n > 1
        invariant
            n <= served@.len(),
            chain == certs::certs_view(served@),
            with_served(start, chain) == with_served(
                candidates_view(found@),
                chain.take(n as int),
            ),
        decreases n,
    {
        broadcast use candidates_view_push;

        assert(chain.take(n as int).drop_last() =~= chain.take(n - 1));
        if served[n - 1].is_ca && !has_hash(&found, &served[n - 1].sha256) {
            found.push(
                CaCandidate { cert: served[n - 1].clone(), origin: CaOrigin::ServedChain },
            );
        }
        n -= 1;
    }
    let ghost all = candidates_view(found@);
    assert(all == with_served(start, chain));
    let mut candidates: Vec<CaCandidate> = Vec::new();
    let mut i: usize = 0;
    assert(all.take(0) =~= Seq::empty());
    assert(candidates_view(candidates@) =~= Seq::empty());
    while i < found.len()
        invariant
            i <= found@.len(),
            all == candidates_view(found@),
            chain == certs::certs_view(served@),
            candidates_view(candidates@) == verifying(
                all.take(i as int),
                chain,
                target.server_name@,
                now,
            ),
        decreases found@.len() - i,
    {
        broadcast use candidates_view_push;

        assert(all.take(i + 1).drop_last() =~= all.take(i as int));
        if verifies_at(&found[i].cert, &served, target, now) {
            candidates.push(
                CaCandidate { cert: found[i].cert.clone(), origin: found[i].origin },
            );
        }
        i += 1;
    }
    assert(all.take(i as int) =~= all);
    FetchedCa { served, candidates, cluster_info_error }
}

/// Every CA that is offered verifies the chain.
pub proof fn offered_cas_verify(
    served: Seq<Cert>,
    cluster_info: Result<Seq<char>, Seq<char>>,
    server_name: Seq<char>,
    now: u64,
    i: int,
)
    requires
        0 <= i < offered(served, cluster_info, server_name, now).len(),
    ensures
        verifies_chain(
            offered(served, cluster_info, server_name, now)[i].0,
            served,
            server_name,
            now,
        ),
{
    lemma_verifying(
        with_served(with_origin(published(cluster_info), CaOrigin::ClusterInfo), served),
        served,
        server_name,
        now,
        i,
    );
}

proof fn lemma_verifying(
    found: Seq<(Cert, CaOrigin)>,
    served: Seq<Cert>,
    server_name: Seq<char>,
    now: u64,
    i: int,
)
    requires
        0 <= i < verifying(found, served, server_name, now).len(),
    ensures
        verifies_chain(verifying(found, served, server_name, now)[i].0, served, server_name, now),
    decreases found.len(),
{
    let before = verifying(found.drop_last(), served, server_name, now);
    if i < before.len() {
        lemma_verifying(found.drop_last(), served, server_name, now, i);
    }
}

// ----- cluster-info -----

/// The request for `cluster-info`: anonymous, HTTP/1.0, so the body ends with the connection.
pub fn cluster_info_request(target: &Target) -> (r: String)
    ensures
        r@ == "GET /api/v1/namespaces/kube-public/configmaps/cluster-info HTTP/1.0\r\nHost: "@
            + authority_of(target@)
            + "\r\nAccept: application/json\r\nUser-Agent: kubyl\r\n\r\n"@,
{
    cat3(
        "GET /api/v1/namespaces/kube-public/configmaps/cluster-info HTTP/1.0\r\nHost: ",
        target.authority().as_str(),
        "\r\nAccept: application/json\r\nUser-Agent: kubyl\r\n\r\n",
    )
}

/// Whether an empty line ends at `i + 4`.
pub open spec fn head_ends_at(response: Seq<u8>, i: int) -> bool {
    &&& 0 <= i
    &&& i + 4 <= response.len()
    &&& response[i] == 13
    &&& response[i + 1] == 10
    &&& response[i + 2] == 13
    &&& response[i + 3] == 10
}

/// The status in the first line of an answer's head.
pub open spec fn status_in(head: Seq<char>) -> Option<nat> {
    let lines = text::text_lines(head);
    if lines.len() == 0 {
        None
    } else {
        let words = text::words(lines[0]);
        if words.len() < 2 {
            None
        } else {
            match text::parsed(words[1]) {
                Some(n) if n <= u16::MAX => Some(n),
                _ => None,
            }
        }
    }
}

/// The status in the first line of an answer's head.
pub fn status_of(head: &str) -> (r: Option<u16>)
    ensures
        match r {
            Some(n) => status_in(head@) == Some(n as nat),
            None => status_in(head@) is None,
        },
{
    let lines: Vec<String> = text::lines(head);
    assert(text::texts(lines@).len() == lines@.len());
    if lines.len() == 0 {
        return None;
    }
    let words: Vec<String> = text::split_words(lines[0].as_str());
    assert(text::texts(lines@)[0] == lines@[0]@);
    assert(text::texts(words@).len() == words@.len());
    if words.len() < 2 {
        return None;
    }
    assert(text::texts(words@)[1] == words@[1]@);
    match text::parse_number(words[1].as_str(), u16::MAX as u64) {
        Some(n) => Some(n as u16),
        None => None,
    }
}

/// What an answer with this status means: its body, or why there is none.
pub open spec fn answer_of(status: Option<nat>, body: Seq<u8>) -> Result<Seq<u8>, Seq<char>> {
    match status {
        None => Err("the server's answer isn't HTTP"@),
        Some(n) => if n == 200 {
            Ok(body)
        } else if n == 401 || n == 403 {
            Err("the server doesn't publish cluster-info to anonymous users"@)
        } else if n == 404 {
            Err("the server has no kube-public/cluster-info (not a kubeadm cluster)"@)
        } else {
            Err("cluster-info answered HTTP "@ + text::decimal(n))
        },
    }
}

/// The body of an HTTP answer with status 200.
pub fn cluster_info(response: &Vec<u8>) -> (r: Result<Vec<u8>, String>)
    ensures
        (forall|i: int| !(#[trigger] head_ends_at(response@, i))) ==> (r is Err && r->Err_0@
            == "the server's answer isn't HTTP"@),
        forall|i: int|
            (#[trigger] head_ends_at(response@, i)) && (forall|j: int|
                0 <= j < i ==> !head_ends_at(response@, j)) ==> match answer_of(
                status_in(outside::utf8_lossy(response@.take(i))),
                response@.skip(i + 4),
            ) {
                Ok(body) => r is Ok && r->Ok_0@ == body,
                Err(e) => r is Err && r->Err_0@ == e,
            },
{
    let mut at: usize = 0;
    let len: usize = response.len();
    while at < len && len - at >= 4 && !(response[at] == 13 && response[at + 1] == 10
        && response[at + 2] == 13 && response[at + 3] == 10)
        invariant
            at <= len == response@.len(),
            forall|j: int| 0 <= j < at ==> !(#[trigger] head_ends_at(response@, j)),
        decreases len - at,
    {
        at += 1;
    }
    if len - at < 4 {
        assert forall|i: int| !(#[trigger] head_ends_at(response@, i)) by {
            assert(0 <= i < at ==> !head_ends_at(response@, i));
        }
        return Err("the server's answer isn't HTTP".to_string());
    }
    assert(head_ends_at(response@, at as int));
    let mut head: Vec<u8> = Vec::new();
    let mut i: usize = 0;
    while i < at
        invariant
            i <= at <= response@.len(),
            head@ =~= response@.take(i as int),
        decreases at - i,
    {
        head.push(response[i]);
        i += 1;
    }
    let mut body: Vec<u8> = Vec::new();
    let mut k: usize = at + 4;
    while k < len
        invariant
            at + 4 <= k <= len == response@.len(),
            body@ =~= response@.subrange(at + 4, k as int),
        decreases len - k,
    {
        body.push(response[k]);
        k += 1;
    }
    assert(body@ =~= response@.skip(at + 4));
    let head: String = outside::lossy_text(head.as_slice());
    match status_of(head.as_str()) {
        None => Err("the server's answer isn't HTTP".to_string()),
        Some(n) => if n == 200 {
            Ok(body)
        } else if n == 401 || n == 403 {
            Err("the server doesn't publish cluster-info to anonymous users".to_string())
        } else if n == 404 {
            Err("the server has no kube-public/cluster-info (not a kubeadm cluster)".to_string())
        } else {
            Err(cat("cluster-info answered HTTP ", decimal_text(n as u128).as_str()))
        },
    }
}

/// Where a ConfigMap holds its kubeconfig.
pub const KUBECONFIG_POINTER: &'static str = "/data/kubeconfig";

/// The kubeconfig of a `cluster-info` ConfigMap, from what is read at its place.
pub open spec fn kubeconfig_read(read: Option<Option<Seq<char>>>) -> Result<Seq<char>, Seq<char>> {
    match read {
        Some(Some(kubeconfig)) => Ok(kubeconfig),
        Some(None) => Err("cluster-info has no kubeconfig"@),
        None => Err("cluster-info isn't JSON"@),
    }
}

/// The kubeconfig of a `cluster-info` ConfigMap, from what is read at its place (none if it
/// isn't JSON).
pub fn kubeconfig_from_read(read: Option<Option<String>>) -> (r: Result<String, String>)
    ensures
        text_result(r) == kubeconfig_read(
            match read {
                Some(s) => Some(text::text_of(s)),
                None => None,
            },
        ),
{
    match read {
        Some(Some(kubeconfig)) => Ok(kubeconfig),
        Some(None) => Err("cluster-info has no kubeconfig".to_string()),
        None => Err("cluster-info isn't JSON".to_string()),
    }
}

/// The text of the kubeconfig in a `cluster-info` ConfigMap (JSON).
pub fn kubeconfig_in_cluster_info(configmap: &Vec<u8>) -> (r: Result<String, String>)
    ensures
        text_result(r) == kubeconfig_read(
            outside::json_text_at(configmap@, KUBECONFIG_POINTER@),
        ),
{
    kubeconfig_from_read(outside::read_json_text(configmap.as_slice(), KUBECONFIG_POINTER))
}

/// The CA data of the first cluster of a kubeconfig.
pub open spec fn first_ca_data(kubeconfig: Json) -> Option<Seq<char>> {
    match json::as_items(json::get(kubeconfig, "clusters"@)) {
        Some(clusters) if clusters.len() > 0 => match json::get(clusters[0], "cluster"@) {
            Some(body) => json::text_at(body, "certificate-authority-data"@),
            None => None,
        },
        _ => None,
    }
}

/// The CA (PEM) in the kubeconfig of a `cluster-info` ConfigMap, which holds one cluster.
pub fn ca_from_cluster_info(kubeconfig: &Value) -> (r: Result<String, String>)
    ensures
        match first_ca_data(kubeconfig@) {
            None => r is Err && r->Err_0@ == "cluster-info has no CA"@,
            Some(data) => text_result(r) == pem::data_text(data),
        },
{
    if let Some(slot) = kubeconfig.get("clusters") {
        if let Some(clusters) = slot.as_array() {
            if clusters.len() > 0 {
                assert(crate::value::items_view(clusters@)[0] == clusters@[0]@);
                if let Some(body) = clusters[0].get("cluster") {
                    if let Some(data) = body.text_at("certificate-authority-data") {
                        return certs::pem_from_data(data);
                    }
                }
            }
        }
    }
    Err("cluster-info has no CA".to_string())
}

} // verus!
