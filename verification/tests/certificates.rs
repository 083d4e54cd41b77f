//! Certificates, PEM texts, server addresses and the handshake's verdicts.

use kubyl_kubeconfig::addresses::ip_to_text;
use kubyl_kubeconfig::certs::{
    certificate_blocks, certificates, check_private_key, colon_hex, common_name, data_from_pem,
    der_to_pem, normalize_pem, pem_blocks, pem_from_data, CertInfo, CertParts, Moment,
};
use kubyl_kubeconfig::tls::{
    ca_from_cluster_info, ca_refusal, choose_ca, classify, cluster_info, cluster_info_request,
    kubeconfig_from_read, kubeconfig_in_cluster_info, roots_from_pem, same_bytes, status_of, verifies, verifies_at,
    CaOrigin, Target, TlsError, VerifyError,
};
use kubyl_kubeconfig::value::{Object, Value};

const CA: &str = "\
-----BEGIN CERTIFICATE-----\n\
MIIBVzCB/aADAgECAhQtKUdj9BMVO4ngZSsKs4LDDY97gjAKBggqhkjOPQQDAjAY\n\
MRYwFAYDVQQDDA1rdWJ5bC10ZXN0LWNhMCAXDTI0MDEwMTAwMDAwMFoYDzIxMjQw\n\
MTAxMDAwMDAwWjAYMRYwFAYDVQQDDA1rdWJ5bC10ZXN0LWNhMFkwEwYHKoZIzj0C\n\
AQYIKoZIzj0DAQcDQgAE+wLD7nnCO0Gwhw1qHOgigr4BIeaqbHRFh+PMQw0ErMkB\n\
jqvM9Qw5PrBdAKu1bWxw8dFF45i9eUr4W2ATX8tWFKMjMCEwDwYDVR0TAQH/BAUw\n\
AwEB/zAOBgNVHQ8BAf8EBAMCAYYwCgYIKoZIzj0EAwIDSQAwRgIhAJH6XD/69AAd\n\
dHWoF02GcarJBM5fboIKc92bAmoF8ZfsAiEA9JxFe9BRF8+4QqxRfTWNOSkTCLFu\n\
+dcJnwHSvE2Q8NE=\n\
-----END CERTIFICATE-----\n\
";

const OTHER_CA: &str = "\
-----BEGIN CERTIFICATE-----\n\
MIIBWDCB/6ADAgECAhQiQdmUANAI9Wj6NQSCFFZZ1uhK1TAKBggqhkjOPQQDAjAZ\n\
MRcwFQYDVQQDDA5rdWJ5bC1vdGhlci1jYTAgFw0yNDAxMDEwMDAwMDBaGA8yMTI0\n\
MDEwMTAwMDAwMFowGTEXMBUGA1UEAwwOa3VieWwtb3RoZXItY2EwWTATBgcqhkjO\n\
PQIBBggqhkjOPQMBBwNCAARX8ytjpvTKdlPg9cjEQkHlFUN6NYrpId+gtzoEQ1jb\n\
CRoGrY8UMqr9Y+kSwZjb1wS6fBDR2h3jnyyG3aooR840oyMwITAPBgNVHRMBAf8E\n\
BTADAQH/MA4GA1UdDwEB/wQEAwIBhjAKBggqhkjOPQQDAgNIADBFAiBBBTGKVOOS\n\
4kG+V0UcG14sElujfrp+xCgr3d4kSO8iEwIhAPG8N2V8QNrIMQnArRsWKoBQ9zhH\n\
ndyuieTJP82F7qnH\n\
-----END CERTIFICATE-----\n\
";

const SERVER: &str = "\
-----BEGIN CERTIFICATE-----\n\
MIIBiTCCAS6gAwIBAgIUW8COoFcWVNUV0n+ubJLoWEl/juUwCgYIKoZIzj0EAwIw\n\
GDEWMBQGA1UEAwwNa3VieWwtdGVzdC1jYTAgFw0yNDAxMDEwMDAwMDBaGA8yMTI0\n\
MDEwMTAwMDAwMFowGTEXMBUGA1UEAwwOa3ViZS1hcGlzZXJ2ZXIwWTATBgcqhkjO\n\
PQIBBggqhkjOPQMBBwNCAARoHV5tYsh3VYWc95tEFPJRuG4w++r74gNs572G3Blv\n\
pnYDe4JPoOg8X6lIRkDJfRAlhiosHWXT91s8HHuyIQ6+o1MwUTAMBgNVHRMBAf8E\n\
AjAAMBMGA1UdJQQMMAoGCCsGAQUFBwMBMCwGA1UdEQQlMCOCCWxvY2FsaG9zdIcE\n\
fwAAAYcQAAAAAAAAAAAAAAAAAAAAATAKBggqhkjOPQQDAgNJADBGAiEAsJUacXwB\n\
TPkJGqkHQ+n+GAZewoBa7JrBw+vyTTo2LFQCIQDogPM8BL0xPTe3DYrLwc1hghq4\n\
r9ZAIMVw4aCQtDcxFg==\n\
-----END CERTIFICATE-----\n\
";

const CLIENT: &str = "\
-----BEGIN CERTIFICATE-----\n\
MIIBdDCCARugAwIBAgIUXM98PJEknky/YJaneUQmZaT9vvcwCgYIKoZIzj0EAwIw\n\
GDEWMBQGA1UEAwwNa3VieWwtdGVzdC1jYTAgFw0yNDAxMDEwMDAwMDBaGA8yMTI0\n\
MDEwMTAwMDAwMFowNDEXMBUGA1UECgwOc3lzdGVtOm1hc3RlcnMxGTAXBgNVBAMM\n\
EGt1YmVybmV0ZXMtYWRtaW4wWTATBgcqhkjOPQIBBggqhkjOPQMBBwNCAARINg5w\n\
bz11o5YhXKyKCZDNfMhMYlZ4oMk07KilQLIqSWb9Milfgcnn5dQAMy1uespUASJL\n\
IN7RgN+XQ8Q7sLGhoyUwIzAMBgNVHRMBAf8EAjAAMBMGA1UdJQQMMAoGCCsGAQUF\n\
BwMCMAoGCCqGSM49BAMCA0cAMEQCIDjtuYifzafApe7akrPq1uAfT2nD4m7PbljH\n\
U4lwOV3oAiBYnNpv3l3j7UtJoK4MVo8Ahe+x5+n8X46Mp8OE7Nzv3Q==\n\
-----END CERTIFICATE-----\n\
";

const EXPIRED: &str = "\
-----BEGIN CERTIFICATE-----\n\
MIIBVzCB/qADAgECAhQ2WI32hoiNa0TGv7UpUaJfs09e4DAKBggqhkjOPQQDAjAY\n\
MRYwFAYDVQQDDA1rdWJ5bC10ZXN0LWNhMB4XDTIwMDEwMTAwMDAwMFoXDTIxMDEw\n\
MTAwMDAwMFowGTEXMBUGA1UEAwwOZXhwaXJlZC1jbGllbnQwWTATBgcqhkjOPQIB\n\
BggqhkjOPQMBBwNCAARgJ7c623f9XJU0eiuglJ1YDwCw4CT5w25E440MA0K/4kWZ\n\
Qi4Aw7ByZlsNcNCdh6bHLKNBxPu35LSR+iUVlpVHoyUwIzAMBgNVHRMBAf8EAjAA\n\
MBMGA1UdJQQMMAoGCCsGAQUFBwMCMAoGCCqGSM49BAMCA0gAMEUCIDVEQ8Ka+liS\n\
sOewgg4SNx5RB1pCoWcr5wkG1Zq1LoPlAiEA+KUfx6bEPYfohXBZlOz/HXEwYTib\n\
305pjewJl9k+Olg=\n\
-----END CERTIFICATE-----\n\
";

/// 2026-01-01, and 2023-06-01 before the certificates are valid.
const NOW: u64 = 1_767_225_600;
const EARLY: u64 = 1_685_577_600;

fn cert(pem: &str) -> CertInfo {
    certificates(pem).unwrap().remove(0)
}

fn target(server: &str) -> Target {
    Target::parse(server, None).unwrap()
}

fn object(fields: Vec<(&str, Value)>) -> Value {
    Value::Object(Object::of(fields.into_iter().map(|(k, v)| (k.to_string(), v)).collect()))
}

/// A PEM block where a private key would stand. Its bytes are no key.
fn client_key() -> String {
    let bytes: Vec<u8> = (0..138).collect();
    der_to_pem("PRIVATE KEY", &bytes)
}

#[test]
fn parses_certificates_and_keys() {
    let ca = certificates(CA).unwrap().remove(0);
    assert_eq!(ca.common_name(), "kubyl-test-ca");
    assert!(ca.is_ca && ca.self_signed && !ca.expired() && !ca.expires_soon());
    assert!(ca.spki_hash().starts_with("sha256:"));
    assert_eq!(ca.fingerprint().len(), 32 * 3 - 1);
    let client = certificates(CLIENT).unwrap().remove(0);
    assert_eq!(client.common_name(), "kubernetes-admin");
    assert!(!client.is_ca && !client.self_signed);
    assert!(check_private_key(&client_key()).is_ok());
    assert!(check_private_key(CLIENT).is_err());
    assert!(certificates("junk").is_err());
    // Round trips through the kubeconfig's base64 form.
    let data = data_from_pem(CA);
    assert_eq!(pem_from_data(&data).unwrap().trim(), CA.trim());
    assert_eq!(pem_from_data(CA).unwrap().trim(), CA.trim());
    assert_eq!(certificates(&ca.pem()).unwrap()[0].sha256, ca.sha256);
    // A PEM pasted into a one-line input.
    let flat = client_key().replace('\n', "");
    assert!(check_private_key(&normalize_pem(&flat)).is_ok());
    assert_eq!(normalize_pem(CA), CA.trim());
}

#[test]
fn parses_server_urls() {
    let t = Target::parse("https://[::1]:6443", Some("kubernetes")).unwrap();
    assert_eq!((t.host.as_str(), t.port, t.server_name.as_str()), ("::1", 6443, "kubernetes"));
    assert_eq!(t.authority(), "[::1]:6443");
    assert_eq!(Target::parse("https://example.com", None).unwrap().port, 443);
    assert!(!Target::parse("http://x:8080", None).unwrap().https);
    assert!(Target::parse("ftp://x", None).is_err());
    assert!(Target::parse("not a url", None).is_err());
}

#[test]
fn verifies_with_the_right_ca_and_explains_the_wrong_one() {
    let served = certificates(SERVER).unwrap();
    assert_eq!(served[0].common_name(), "kube-apiserver");
    let here = target("https://127.0.0.1:6443");
    assert!(verifies_at(&cert(CA), &served, &here, NOW));
    assert!(verifies(&cert(CA), &served, &here));
    assert!(!verifies_at(&cert(OTHER_CA), &served, &here, NOW));
    assert!(!verifies_at(&cert(CA), &served, &here, EARLY));
    assert!(!verifies_at(&cert(CA), &Vec::new(), &here, NOW));
    let err = classify(Some(&VerifyError::UnknownIssuer), "", &here, &served);
    assert_eq!(err, TlsError::UnknownIssuer);
    assert!(err.message().contains("unknown authority"));

    let wrong_name = Target::parse("https://127.0.0.1:6443", Some("other.example.com")).unwrap();
    assert!(!verifies_at(&cert(CA), &served, &wrong_name, NOW));
    let err = classify(Some(&VerifyError::WrongName), "", &wrong_name, &served);
    assert!(matches!(err, TlsError::WrongName { .. }), "{err:?}");
    assert!(err.message().contains("127.0.0.1"), "{}", err.message());
}

#[test]
fn fetches_the_ca_from_cluster_info_anonymously() {
    let here = target("https://127.0.0.1:6443");
    let request = cluster_info_request(&here);
    assert!(request.starts_with("GET /api/v1/namespaces/kube-public/configmaps/cluster-info"));
    assert!(!request.to_ascii_lowercase().contains("authorization"));
    assert_eq!(
        request,
        "GET /api/v1/namespaces/kube-public/configmaps/cluster-info HTTP/1.0\r\n\
         Host: 127.0.0.1:6443\r\nAccept: application/json\r\nUser-Agent: kubyl\r\n\r\n"
    );
    let served = || certificates(SERVER).unwrap();
    let kubeconfig = |ca: &str| {
        object(vec![(
            "clusters",
            Value::Array(vec![object(vec![(
                "cluster",
                object(vec![("certificate-authority-data", Value::Str(data_from_pem(ca)))]),
            )])]),
        )])
    };
    let fetched = choose_ca(served(), &ca_from_cluster_info(&kubeconfig(CA)), &here, NOW);
    assert_eq!(fetched.candidates.len(), 1);
    let ca = &fetched.candidates[0];
    assert_eq!(ca.origin, CaOrigin::ClusterInfo);
    assert_eq!(ca.cert.common_name(), "kubyl-test-ca");
    assert_eq!(fetched.served.len(), 1);

    // A CA that doesn't sign the server's certificate isn't offered.
    let fetched = choose_ca(served(), &ca_from_cluster_info(&kubeconfig(OTHER_CA)), &here, NOW);
    assert!(fetched.candidates.is_empty());

    let answer = cluster_info(&b"HTTP/1.0 403 Forbidden\r\n\r\n{}".to_vec());
    let fetched = choose_ca(served(), &answer.map(|_| String::new()), &here, NOW);
    assert!(fetched.candidates.is_empty());
    assert!(fetched.cluster_info_error.unwrap().contains("anonymous"));
}

#[test]
fn a_ca_in_the_served_chain_is_offered() {
    let here = target("https://127.0.0.1:6443");
    let mut served = certificates(SERVER).unwrap();
    served.push(cert(CA));
    let nothing = Err("no cluster-info".to_string());
    let fetched = choose_ca(served, &nothing, &here, NOW);
    assert_eq!(fetched.candidates.len(), 1);
    assert_eq!(fetched.candidates[0].origin, CaOrigin::ServedChain);
    assert_eq!(fetched.candidates[0].origin.label(), "the server's certificate chain");
    assert_eq!(CaOrigin::ClusterInfo.label(), "kube-public/cluster-info (anonymous)");
    assert_eq!(fetched.cluster_info_error.as_deref(), Some("no cluster-info"));
    // Found in both places, it is offered once.
    let mut served = certificates(SERVER).unwrap();
    served.push(cert(CA));
    let fetched = choose_ca(served, &Ok(CA.to_string()), &here, NOW);
    assert_eq!(fetched.candidates.len(), 1);
    assert_eq!(fetched.candidates[0].origin, CaOrigin::ClusterInfo);
}

#[test]
fn cluster_info_answers_are_read() {
    let err = |text: &str| cluster_info(&text.as_bytes().to_vec()).err().unwrap();
    assert_eq!(err(""), "the server's answer isn't HTTP");
    assert_eq!(err("hello\r\n\r\n"), "the server's answer isn't HTTP");
    assert!(err("HTTP/1.0 401 Unauthorized\r\n\r\n").contains("anonymous"));
    assert!(err("HTTP/1.1 404 Not Found\r\nA: b\r\n\r\n").contains("not a kubeadm cluster"));
    assert_eq!(err("HTTP/1.1 500 Oops\r\n\r\nbody"), "cluster-info answered HTTP 500");
    let ok = cluster_info(&b"HTTP/1.1 200 OK\r\nA: b\r\n\r\n{}\r\n\r\n".to_vec()).unwrap();
    assert_eq!(ok, b"{}\r\n\r\n");
    assert_eq!(status_of("HTTP/1.0 204 No Content"), Some(204));
    assert_eq!(status_of("HTTP/1.0"), None);

    let read = |text: &str| kubeconfig_in_cluster_info(&text.as_bytes().to_vec());
    assert_eq!(read(r#"{"data": {"kubeconfig": "a: b\n"}}"#).unwrap(), "a: b\n");
    assert_eq!(read(r#"{"data": [1]}"#).err().unwrap(), "cluster-info has no kubeconfig");
    assert_eq!(read("no").err().unwrap(), "cluster-info isn't JSON");
    assert_eq!(kubeconfig_from_read(None).err().unwrap(), "cluster-info isn't JSON");
    assert_eq!(kubeconfig_from_read(Some(Some("k".to_string()))).unwrap(), "k");
    assert_eq!(ca_from_cluster_info(&Value::Null).err().unwrap(), "cluster-info has no CA");
}

#[test]
fn failed_handshakes_are_explained() {
    let here = target("https://127.0.0.1:6443");
    let served = certificates(EXPIRED).unwrap();
    let none: Vec<CertInfo> = Vec::new();
    let say = |v: VerifyError, c: &Vec<CertInfo>| classify(Some(&v), "io", &here, c).message();
    assert!(say(VerifyError::BadSignature, &none).contains("unknown authority"));
    assert_eq!(
        say(VerifyError::Expired, &served),
        "the server's certificate expired on 2021-01-01"
    );
    assert_eq!(
        say(VerifyError::WrongName, &none),
        "the server's certificate isn't valid for 127.0.0.1"
    );
    assert!(say(VerifyError::NotYetValid, &none).contains("clock"));
    assert_eq!(say(VerifyError::Other("x".into()), &none), "TLS handshake failed: x");
    assert_eq!(classify(None, "io", &here, &none).message(), "TLS handshake failed: io");
    assert_eq!(TlsError::Connect("refused".into()).message(), "refused");
}

#[test]
fn certificates_are_read_in_full() {
    let ca = cert(CA);
    assert_eq!(ca.fingerprint(), "FB:B7:07:02:D9:A6:22:43:FA:6B:B3:76:77:F4:8E:B0:59:32:2F:52:81:8C:47:84:E5:C9:83:B9:25:2D:4C:06");
    assert_eq!(ca.spki_hash(), "sha256:4cc61d1f05f768e96149400d9e86b3801a6b77df88be0dc073723faf8e822a7d");
    assert_eq!(ca.not_after_date(), "2124-01-01");
    assert_eq!((ca.not_before, ca.not_after), (1_704_067_200, 4_859_740_800));
    assert_eq!(ca.der, pem_blocks(CA)[0].der);
    let server = cert(SERVER);
    assert_eq!(server.names, ["localhost", "127.0.0.1", "::1"]);
    assert_eq!(server.issuer, ca.subject);
    let client = cert(CLIENT);
    assert!(client.subject.contains("kubernetes-admin") && client.subject.contains("system:masters"));
    assert!(client.names.is_empty());
    assert!(CertInfo::parse(b"not a certificate").is_err());
    assert_eq!(ca.clone(), ca);
}

#[test]
fn certificates_expire() {
    let old = cert(EXPIRED);
    let at = |second: i64| Moment { second, nanosecond: 0 };
    assert_eq!(old.not_after, 1_609_459_200);
    assert!(!old.expired_at(at(old.not_after - 86_400)));
    assert!(old.expired_at(at(old.not_after + 1)));
    assert!(old.expired());
    assert_eq!(old.days_left_at(at(old.not_after - 10 * 86_400)), 10);
    assert_eq!(old.days_left_at(at(old.not_after - 10 * 86_400 + 1)), 9);
    assert!(old.expires_soon_at(at(old.not_after - 10 * 86_400)));
    assert!(!old.expires_soon_at(at(old.not_after - 40 * 86_400)));
    assert!(cert(CA).days_left() > 30_000);
}

#[test]
fn certificate_faults_are_told() {
    let good = || CertParts {
        names: Ok(("CN=a".to_string(), "CN=b".to_string(), false)),
        validity: Some((0, 100)),
        ca: Some(true),
        alt_names: vec![
            (Some("a.example".to_string()), None),
            (None, Some(vec![10, 0, 0, 1])),
            (None, None),
        ],
        key: Ok(vec![1, 2, 3]),
    };
    let info = CertInfo::from_parts(&good(), b"der").unwrap();
    assert_eq!((info.subject.as_str(), info.issuer.as_str()), ("CN=a", "CN=b"));
    assert!(info.is_ca && !info.self_signed);
    assert_eq!(info.names, ["a.example", "10.0.0.1"]);
    assert_eq!((info.not_before, info.not_after), (0, 100));
    // SHA-256 of "der" and of the key.
    assert_eq!(
        colon_hex(&info.spki_sha256).replace(':', "").to_lowercase(),
        "039058c6f2c0cb492c533b0a4d14ef77cc0f78abccced5287d84a1a2011cfb81"
    );
    assert_eq!(info.sha256.len(), 32);
    let mut parts = good();
    parts.ca = None;
    assert!(!CertInfo::from_parts(&parts, b"der").unwrap().is_ca);
    let mut parts = good();
    parts.names = Err("bad name".to_string());
    assert!(CertInfo::from_parts(&parts, b"der").is_err());
    let mut parts = good();
    parts.key = Err("bad key".to_string());
    assert!(CertInfo::from_parts(&parts, b"der").is_err());
}

#[test]
fn pem_texts_are_read_and_written() {
    let text = der_to_pem("CERTIFICATE", &[1, 2, 3]);
    assert_eq!(text, "-----BEGIN CERTIFICATE-----\nAQID\n-----END CERTIFICATE-----\n");
    let long = der_to_pem("X", &[0; 60]);
    assert_eq!(long.lines().nth(1).unwrap().len(), 64);
    assert_eq!(pem_blocks(&long)[0].der, vec![0; 60]);
    assert_eq!(pem_blocks(&long)[0].label, "X");
    let both = format!("{CA}{}{OTHER_CA}", client_key());
    assert_eq!(pem_blocks(&both).len(), 3);
    assert_eq!(certificate_blocks(&both).len(), 2);
    assert_eq!(certificates(&both).unwrap().len(), 2);
    assert!(pem_from_data("!!!").is_err());
    assert_eq!(pem_from_data("").unwrap(), "");
    assert_eq!(data_from_pem("a"), "YQo=");
}

#[test]
fn private_keys_are_told_apart() {
    assert!(check_private_key("").is_err());
    assert!(check_private_key(CA).is_err());
    assert!(check_private_key(&der_to_pem("EC PRIVATE KEY", &[1])).is_ok());
    assert!(check_private_key(&der_to_pem("PRIVATE KEY", &[])).is_err());
}

#[test]
fn trust_anchors_are_checked() {
    assert_eq!(roots_from_pem(CA).unwrap().len(), 1);
    assert_eq!(roots_from_pem(&format!("{CA}{OTHER_CA}")).unwrap().len(), 2);
    assert!(roots_from_pem(&der_to_pem("CERTIFICATE", &[1, 2])).is_err());
    assert!(roots_from_pem("junk").is_err());
}

#[test]
fn names_and_bytes_are_shown() {
    assert_eq!(common_name("CN=a,O=b"), "a");
    assert_eq!(common_name("O=b"), "O=b");
    assert_eq!(colon_hex(&[0, 171, 255]), "00:AB:FF");
    assert_eq!(ip_to_text(&vec![127, 0, 0, 1]).as_deref(), Some("127.0.0.1"));
    let mut one = vec![0; 16];
    one[15] = 1;
    assert_eq!(ip_to_text(&one).as_deref(), Some("::1"));
    assert_eq!(ip_to_text(&vec![0; 16]).as_deref(), Some("::"));
    assert_eq!(ip_to_text(&vec![1, 2]), None);
    assert!(same_bytes(&vec![1, 2], &vec![1, 2]) && !same_bytes(&vec![1], &vec![1, 2]));
}

#[test]
fn servers_are_read_from_their_parts() {
    let parts = |scheme: &str, host: Option<&str>, port: Option<u16>| {
        Ok((scheme.to_string(), host.map(|h| h.to_string()), port, String::new()))
    };
    let t = Target::from_url("s", &parts("https", Some("h"), Some(1)), None).unwrap();
    assert_eq!((t.host.as_str(), t.port, t.server_name.as_str(), t.https), ("h", 1, "h", true));
    assert!(Target::from_url("s", &parts("https", None, None), None).is_err());
    assert!(Target::from_url("s", &parts("ws", Some("h"), None), None).is_err());
    assert!(Target::from_url("s", &Err("bad".to_string()), None).is_err());
    assert_eq!(target("http://example.com").port, 80);
    assert_eq!(target("HTTPS://EXAMPLE.com:8443/path").authority(), "example.com:8443");
}

#[test]
fn an_unreadable_certificate_is_an_error() {
    let bad = "-----BEGIN CERTIFICATE-----\n!!!\n-----END CERTIFICATE-----\n";
    for text in [format!("{CA}{bad}"), format!("{bad}{CA}"), bad.to_string()] {
        assert_eq!(certificates(&text).unwrap_err(), "not a certificate: not valid base64");
    }
    // The blocks that can be decoded are still found.
    assert_eq!(pem_blocks(&format!("{CA}{bad}{OTHER_CA}")).len(), 2);
    // Bytes that are no certificate are one that can't be read, too.
    let other = der_to_pem("CERTIFICATE", &[1, 2, 3]);
    assert!(certificates(&format!("{CA}{other}")).is_err());
    // A block of another kind that can't be decoded is no certificate.
    let key = "-----BEGIN PUBLIC KEY-----\n!!!\n-----END PUBLIC KEY-----\n";
    assert_eq!(certificates(&format!("{CA}{key}")).unwrap().len(), 1);
}

#[test]
fn blocks_on_one_line_get_their_line_breaks_back() {
    let text = format!("{}{}", der_to_pem("CERTIFICATE", &[7; 100]), client_key());
    assert_eq!(normalize_pem(&text.replace('\n', "")), text);
    assert_eq!(normalize_pem("  -----BEGIN X-----\nAQID  "), "-----BEGIN X-----\nAQID");
    assert_eq!(normalize_pem(" junk "), "junk");
}

#[test]
fn plain_http_servers_have_no_ca_to_fetch() {
    let target = Target::parse("http://127.0.0.1:8080", None).unwrap();
    assert_eq!(
        ca_refusal(&target).unwrap(),
        "the server uses plain HTTP; there is no CA to fetch"
    );
    assert!(ca_refusal(&Target::parse("https://127.0.0.1:6443", None).unwrap()).is_none());
}
