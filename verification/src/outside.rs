//! Calls into other crates: each function here makes one and hands plain values back. What its
//! contract claims is taken on trust; what the named results are is left unsaid.

use base64::Engine;
use rustls::client::danger::ServerCertVerifier;
use rustls::client::WebPkiServerVerifier;
use rustls::RootCertStore;
use rustls_pki_types::{CertificateDer, ServerName, UnixTime};
use sha2::Digest;
use std::string::String;
use std::sync::Arc;
use std::time::Duration;
use vstd::prelude::*;
use x509_cert::der::{Decode, Encode};
use x509_cert::ext::pkix::name::GeneralName;
use x509_cert::ext::pkix::{BasicConstraints, SubjectAltName};

verus! {

// ----- Encodings -----

/// The text at a JSON pointer (RFC 6901) of a JSON document; none if the bytes aren't JSON, none
/// inside if there is no text at that place.
pub uninterp spec fn json_text_at(json: Seq<u8>, pointer: Seq<char>) -> Option<Option<Seq<char>>>;

/// `serde_json::from_slice`, and the value's `pointer` and `as_str`: the text at a JSON pointer of
/// the document that the bytes hold. Nothing more is claimed of how the bytes are read.
#[verifier::external_body]
pub(crate) fn read_json_text(json: &[u8], pointer: &str) -> (r: Option<Option<String>>)
    ensures
        match r {
            Some(Some(s)) => json_text_at(json@, pointer@) == Some(Some(s@)),
            Some(None) => json_text_at(json@, pointer@) == Some(None::<Seq<char>>),
            None => json_text_at(json@, pointer@) is None,
        },
{
    match serde_json::from_slice::<serde_json::Value>(json) {
        Ok(v) => Some(v.pointer(pointer).and_then(|at| at.as_str()).map(String::from)),
        Err(_) => None,
    }
}

/// What the standard alphabet of base64 (RFC 4648, padded) decodes a text to.
pub uninterp spec fn base64_decoded(s: Seq<char>) -> Option<Seq<u8>>;

/// What the standard alphabet of base64 (RFC 4648, padded) encodes bytes as.
pub uninterp spec fn base64_encoded(bytes: Seq<u8>) -> Seq<char>;

/// A character of the standard alphabet of base64, or its padding.
pub open spec fn base64_char(c: char) -> bool {
    'A' <= c <= 'Z' || 'a' <= c <= 'z' || '0' <= c <= '9' || c == '+' || c == '/' || c == '='
}

/// `base64::engine::general_purpose::STANDARD.decode`: the bytes, or none for a text that isn't
/// canonical padded base64.
#[verifier::external_body]
pub(crate) fn base64_decode(s: &str) -> (r: Option<Vec<u8>>)
    ensures
        match r {
            Some(bytes) => base64_decoded(s@) == Some(bytes@),
            None => base64_decoded(s@) is None,
        },
{
    base64::engine::general_purpose::STANDARD.decode(s).ok()
}

/// `base64::engine::general_purpose::STANDARD.encode`: a text in the standard alphabet that
/// decodes to the same bytes, four characters for every three bytes.
#[verifier::external_body]
pub(crate) fn base64_encode(bytes: &[u8]) -> (r: String)
    ensures
        r@ == base64_encoded(bytes@),
        base64_decoded(r@) == Some(bytes@),
        r@.len() == 4 * ((bytes@.len() + 2) / 3),
        forall|i: int| 0 <= i < r@.len() ==> base64_char(#[trigger] r@[i]),
{
    base64::engine::general_purpose::STANDARD.encode(bytes)
}

/// `String::from_utf8`: the text that the bytes encode, or none for bytes that aren't UTF-8.
#[verifier::external_body]
pub(crate) fn utf8_text(bytes: Vec<u8>) -> (r: Option<String>)
    ensures
        match r {
            Some(s) => vstd::utf8::valid_utf8(bytes@) && s@ == vstd::utf8::decode_utf8(bytes@),
            None => !vstd::utf8::valid_utf8(bytes@),
        },
{
    String::from_utf8(bytes).ok()
}

/// The text of bytes, with a replacement character where they aren't UTF-8.
pub uninterp spec fn utf8_lossy(bytes: Seq<u8>) -> Seq<char>;

/// `String::from_utf8_lossy`: the text itself where the bytes are UTF-8.
#[verifier::external_body]
pub(crate) fn lossy_text(bytes: &[u8]) -> (r: String)
    ensures
        r@ == utf8_lossy(bytes@),
        vstd::utf8::valid_utf8(bytes@) ==> r@ == vstd::utf8::decode_utf8(bytes@),
{
    String::from_utf8_lossy(bytes).to_string()
}

/// The SHA-256 of bytes.
pub uninterp spec fn sha256(bytes: Seq<u8>) -> Seq<u8>;

/// `sha2::Sha256::digest`: the 32 bytes of the hash.
#[verifier::external_body]
pub(crate) fn sha256_digest(bytes: &[u8]) -> (r: Vec<u8>)
    ensures
        r@ == sha256(bytes@),
        r@.len() == 32,
{
    sha2::Sha256::digest(bytes).to_vec()
}

// ----- Certificates -----

/// What a DER certificate says of its names: the subject, the issuer, and whether they are the
/// same; or why it isn't a certificate.
pub uninterp spec fn certificate_names(der: Seq<u8>) -> Result<
    (Seq<char>, Seq<char>, bool),
    Seq<char>,
>;

/// When a DER certificate is valid, in seconds since 1970: from, until.
pub uninterp spec fn certificate_validity(der: Seq<u8>) -> Option<(u64, u64)>;

/// The `ca` flag of a DER certificate's basic constraints; none without the extension.
pub uninterp spec fn certificate_ca(der: Seq<u8>) -> Option<bool>;

/// The DNS names and IP addresses among a DER certificate's alternative names, in order: the
/// text of a name, or the bytes of an address; neither for a name of another kind.
pub uninterp spec fn certificate_alt_names(der: Seq<u8>) -> Seq<
    (Option<Seq<char>>, Option<Seq<u8>>),
>;

/// The DER public key info of a DER certificate, or why it can't be written.
pub uninterp spec fn certificate_key(der: Seq<u8>) -> Result<Seq<u8>, Seq<char>>;

/// `x509_cert::Certificate::from_der` with its subject and issuer, as text and compared.
#[verifier::external_body]
pub(crate) fn read_certificate_names(der: &[u8]) -> (r: Result<(String, String, bool), String>)
    ensures
        match r {
            Ok((subject, issuer, equal)) => certificate_names(der@) == Ok::<_, Seq<char>>(
                (subject@, issuer@, equal),
            ),
            Err(e) => certificate_names(der@) == Err::<(Seq<char>, Seq<char>, bool), _>(e@),
        },
{
    let cert = x509_cert::Certificate::from_der(der).map_err(|e| e.to_string())?;
    let tbs = cert.tbs_certificate();
    let equal = tbs.subject() == tbs.issuer();
    Ok((tbs.subject().to_string(), tbs.issuer().to_string(), equal))
}

/// The validity of an `x509_cert::Certificate`, as Unix seconds.
#[verifier::external_body]
pub(crate) fn read_certificate_validity(der: &[u8]) -> (r: Option<(u64, u64)>)
    ensures
        r == certificate_validity(der@),
{
    let cert = x509_cert::Certificate::from_der(der).ok()?;
    let validity = cert.tbs_certificate().validity();
    let from = validity.not_before.to_unix_duration().as_secs();
    let until = validity.not_after.to_unix_duration().as_secs();
    Some((from, until))
}

/// The `BasicConstraints` of an `x509_cert::Certificate`.
#[verifier::external_body]
pub(crate) fn read_certificate_ca(der: &[u8]) -> (r: Option<bool>)
    ensures
        r == certificate_ca(der@),
{
    let cert = x509_cert::Certificate::from_der(der).ok()?;
    let constraints = cert.tbs_certificate().get_extension::<BasicConstraints>();
    constraints.ok()?.map(|(_, c)| c.ca)
}

/// The characters and bytes of names read from a certificate.
pub open spec fn alt_names_view(v: Seq<(Option<String>, Option<Vec<u8>>)>) -> Seq<
    (Option<Seq<char>>, Option<Seq<u8>>),
> {
    Seq::new(
        v.len(),
        |i: int|
            (
                crate::text::text_of(v[i].0),
                match v[i].1 {
                    Some(b) => Some(b@),
                    None => None,
                },
            ),
    )
}

/// The `SubjectAltName` of an `x509_cert::Certificate`; no names without the extension.
#[verifier::external_body]
pub(crate) fn read_certificate_alt_names(der: &[u8]) -> (r: Vec<(Option<String>, Option<Vec<u8>>)>)
    ensures
        alt_names_view(r@) == certificate_alt_names(der@),
{
    let one = |name: &GeneralName| match name {
        GeneralName::DnsName(dns) => (Some(dns.to_string()), None),
        GeneralName::IpAddress(ip) => (None, Some(ip.as_bytes().to_vec())),
        _ => (None, None),
    };
    let cert = x509_cert::Certificate::from_der(der).ok();
    let tbs = cert.as_ref().map(|c| c.tbs_certificate());
    let found = tbs.and_then(|t| t.get_extension::<SubjectAltName>().ok()?);
    found.map(|(_, san)| san.0.iter().map(one).collect()).unwrap_or_default()
}

/// The public key info of an `x509_cert::Certificate`, encoded again.
#[verifier::external_body]
pub(crate) fn read_certificate_key(der: &[u8]) -> (r: Result<Vec<u8>, String>)
    ensures
        match r {
            Ok(key) => certificate_key(der@) == Ok::<_, Seq<char>>(key@),
            Err(e) => certificate_key(der@) == Err::<Seq<u8>, _>(e@),
        },
{
    let cert = x509_cert::Certificate::from_der(der).map_err(|e| e.to_string())?;
    let key = cert.tbs_certificate().subject_public_key_info().to_der();
    key.map_err(|e| e.to_string())
}

/// Why a DER certificate can't be a trust anchor, if it can't.
pub uninterp spec fn anchor_error(der: Seq<u8>) -> Option<Seq<char>>;

/// `rustls::RootCertStore::add` on an empty store: the error it returns.
#[verifier::external_body]
pub(crate) fn check_anchor(der: &[u8]) -> (r: Option<String>)
    ensures
        crate::text::text_of(r) == anchor_error(der@),
{
    let der = CertificateDer::from(der);
    RootCertStore::empty().add(der).err().map(|e| e.to_string())
}

/// Whether a trust anchor verifies a certificate with these intermediates for a server's name
/// at a time (seconds since 1970). False also for an anchor that can't be used and for a name
/// that isn't one.
pub uninterp spec fn verified_by(
    anchor: Seq<u8>,
    leaf: Seq<u8>,
    intermediates: Seq<Seq<u8>>,
    server_name: Seq<char>,
    now: u64,
) -> bool;

/// The bytes of a list of byte strings.
pub open spec fn byte_lists(v: Seq<Vec<u8>>) -> Seq<Seq<u8>> {
    Seq::new(v.len(), |i: int| v[i]@)
}

/// `rustls::client::WebPkiServerVerifier` with this one root and ring's algorithms, asked for
/// the chain.
#[verifier::external_body]
pub(crate) fn verify_chain(
    anchor: &[u8],
    leaf: &[u8],
    intermediates: &Vec<Vec<u8>>,
    server_name: &str,
    now: u64,
) -> (r: bool)
    ensures
        r == verified_by(anchor@, leaf@, byte_lists(intermediates@), server_name@, now),
{
    let mut store = RootCertStore::empty();
    let added = store.add(CertificateDer::from(anchor));
    let provider = Arc::new(rustls::crypto::ring::default_provider());
    let roots = Arc::new(store);
    let built = WebPkiServerVerifier::builder_with_provider(roots, provider).build();
    let name = ServerName::try_from(server_name);
    let (Ok(_), Ok(verifier), Ok(name)) = (added, built, name) else { return false };
    let rest: Vec<_> = intermediates.iter().map(|c| c.as_slice().into()).collect();
    let at = UnixTime::since_unix_epoch(Duration::from_secs(now));
    verifier.verify_server_cert(&leaf.into(), &rest, &name, &[], at).is_ok()
}

// ----- Time -----

/// `rustls_pki_types::UnixTime::now`, in seconds since 1970. Whatever the clock says; a clock
/// before 1970 panics.
#[verifier::external_body]
pub(crate) fn unix_now() -> (r: u64) {
    UnixTime::now().as_secs()
}

/// `jiff::Timestamp::now`: the seconds since 1970 and the nanoseconds in the second, of the
/// same sign and less than one second. Whatever the clock says; a clock at a time that
/// timestamps don't reach panics.
#[verifier::external_body]
pub(crate) fn timestamp_now() -> (r: (i64, i32))
    ensures
        -377_705_023_201 <= r.0 <= 253_402_207_200,
        -1_000_000_000 < r.1 < 1_000_000_000,
{
    let now = jiff::Timestamp::now();
    (now.as_second(), now.subsec_nanosecond())
}

/// The UTC date at a second since 1970, `2026-11-02`; that of 1970 for a second that
/// timestamps don't reach.
pub uninterp spec fn date_at(second: i64) -> Seq<char>;

/// The UTC date and minute at a moment (seconds since 1970 and nanoseconds),
/// `2026-11-02 14:05 UTC`; that of 1970 for a moment that timestamps don't reach.
pub uninterp spec fn minute_at(second: i64, nanosecond: i32) -> Seq<char>;

/// `jiff::Timestamp::strftime` with `%Y-%m-%d`.
#[verifier::external_body]
pub(crate) fn date_text(second: i64) -> (r: String)
    ensures
        r@ == date_at(second),
{
    jiff::Timestamp::from_second(second).unwrap_or_default().strftime("%Y-%m-%d").to_string()
}

/// `jiff::Timestamp::strftime` with `%Y-%m-%d %H:%M UTC`.
#[verifier::external_body]
pub(crate) fn minute_text(second: i64, nanosecond: i32) -> (r: String)
    ensures
        r@ == minute_at(second, nanosecond),
{
    let at = jiff::Timestamp::new(second, nanosecond).unwrap_or_default();
    at.strftime("%Y-%m-%d %H:%M UTC").to_string()
}

// ----- URLs -----

/// A URL's scheme, host, port (its own or its scheme's) and path; or why it isn't one.
pub uninterp spec fn url_parts(s: Seq<char>) -> Result<
    (Seq<char>, Option<Seq<char>>, Option<u16>, Seq<char>),
    Seq<char>,
>;

/// `url::Url::parse`.
#[verifier::external_body]
pub(crate) fn parse_url(s: &str) -> (r: Result<
    (String, Option<String>, Option<u16>, String),
    String,
>)
    ensures
        match r {
            Ok((scheme, host, port, path)) => url_parts(s@) == Ok::<_, Seq<char>>(
                (scheme@, crate::text::text_of(host), port, path@),
            ),
            Err(e) => url_parts(s@) == Err::<
                (Seq<char>, Option<Seq<char>>, Option<u16>, Seq<char>),
                _,
            >(e@),
        },
{
    let url = url::Url::parse(s).map_err(|e| e.to_string())?;
    let host = url.host_str().map(String::from);
    Ok((url.scheme().to_string(), host, url.port_or_known_default(), url.path().to_string()))
}

// ----- Letters -----

/// A text in lower case, as Unicode maps it.
pub uninterp spec fn lowercase(s: Seq<char>) -> Seq<char>;

/// A text in upper case, as Unicode maps it.
pub uninterp spec fn uppercase(s: Seq<char>) -> Seq<char>;

/// `str::to_lowercase`.
#[verifier::external_body]
pub(crate) fn to_lowercase(s: &str) -> (r: String)
    ensures
        r@ == lowercase(s@),
{
    s.to_lowercase()
}

/// `str::to_uppercase`.
#[verifier::external_body]
pub(crate) fn to_uppercase(s: &str) -> (r: String)
    ensures
        r@ == uppercase(s@),
{
    s.to_uppercase()
}

} // verus!
