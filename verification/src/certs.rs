//! Certificates and keys in kubeconfigs: PEM blocks, subject, issuer, validity, fingerprints.

use crate::addresses;
use crate::outside;
use crate::pem;
use crate::text::{self, cat, cat3, same, trim};
use vstd::prelude::*;

verus! {

/// Certificates expiring within this many days are flagged.
pub const EXPIRY_WARNING_DAYS: i64 = 30;

/// A PEM block: its label (`CERTIFICATE`, `RSA PRIVATE KEY`…) and DER bytes.
#[derive(Debug, PartialEq, Eq)]
pub struct PemBlock {
    pub label: String,
    pub der: Vec<u8>,
}

/// Labels and bytes of blocks.
pub open spec fn blocks_view(v: Seq<PemBlock>) -> Seq<(Seq<char>, Seq<u8>)> {
    Seq::new(v.len(), |i: int| (v[i].label@, v[i].der@))
}

/// The label of a line that begins a block.
fn begin_label(line: &str) -> (r: Option<String>)
    ensures
        text::text_of(r) == pem::begin_label(line@),
{
    let line: String = trim(line);
    match text::strip_prefix(line.as_str(), "-----BEGIN ") {
        Some(rest) => text::strip_suffix(rest.as_str(), "-----"),
        None => None,
    }
}

/// Labels and bytes of blocks, those that can't be decoded among them.
pub open spec fn sections_view(v: Seq<(String, Option<Vec<u8>>)>) -> Seq<
    (Seq<char>, Option<Seq<u8>>),
> {
    Seq::new(v.len(), |i: int| (v[i].0@, bytes_of(v[i].1)))
}

pub open spec fn bytes_of(b: Option<Vec<u8>>) -> Option<Seq<u8>> {
    match b {
        Some(b) => Some(b@),
        None => None,
    }
}

/// The PEM blocks in `text`, those that can't be decoded among them.
fn pem_sections(text: &str) -> (r: Vec<(String, Option<Vec<u8>>)>)
    ensures
        sections_view(r@) == pem::sections(text::text_lines(text@)),
{
    let lines: Vec<String> = text::lines(text);
    let ghost all = text::texts(lines@);
    let mut out: Vec<(String, Option<Vec<u8>>)> = Vec::new();
    let mut i: usize = 0;
    assert(all.skip(0) =~= all);
    assert(sections_view(out@) + pem::sections(all.skip(0)) =~= pem::sections(all));
    while i < lines.len()
        invariant
            i <= lines@.len(),
            all == text::texts(lines@),
            sections_view(out@) + pem::sections(all.skip(i as int)) == pem::sections(all),
        decreases lines@.len() - i,
    {
        let ghost rest = all.skip(i as int);
        let ghost tail = all.skip(i + 1);
        assert(rest.drop_first() =~= tail);
        assert(rest[0] == lines@[i as int]@);
        match begin_label(lines[i].as_str()) {
            None => {
                i += 1;
            },
            Some(label) => {
                let end: String = cat3("-----END ", label.as_str(), "-----");
                let mut body: String = String::new();
                let mut j: usize = i + 1;
                let mut ended: bool = false;
                assert(tail.take(0) =~= Seq::empty());
                while j < lines.len() && !ended
                    invariant
                        i < j <= lines@.len(),
                        all == text::texts(lines@),
                        tail == all.skip(i + 1),
                        end@ == pem::end_line(label@),
                        !ended ==> body@ == pem::body_text(tail.take(j - i - 1)),
                        !ended ==> forall|k: int|
                            0 <= k < j - i - 1 ==> text::trimmed(#[trigger] tail[k]) != end@,
                        ended ==> j >= i + 2 && body@ == pem::body_text(tail.take(j - i - 2)),
                        ended ==> text::trimmed(tail[j - i - 2]) == end@ && forall|k: int|
                            0 <= k < j - i - 2 ==> text::trimmed(#[trigger] tail[k]) != end@,
                    decreases lines@.len() - j,
                {
                    let line: String = trim(lines[j].as_str());
                    let ghost k = j - i - 1;
                    assert(tail[k] == lines@[j as int]@);
                    assert(tail.take(k + 1).drop_last() =~= tail.take(k));
                    if same(line.as_str(), end.as_str()) {
                        ended = true;
                    } else if !text::contains_char(line.as_str(), ':') {
                        body.append(line.as_str());
                    }
                    j += 1;
                }
                let ghost n = if ended {
                    j - i - 2
                } else {
                    tail.len() as int
                };
                proof {
                    pem::lemma_end_index_is(tail, end@, n);
                    assert(tail.take(tail.len() as int) =~= tail);
                    if ended {
                        assert(tail.skip(n + 1) =~= all.skip(j as int));
                    } else {
                        assert(all.skip(j as int).len() == 0);
                    }
                }
                let ghost done = out@;
                let ghost next = pem::sections(all.skip(j as int));
                let der: Option<Vec<u8>> = outside::base64_decode(body.as_str());
                out.push((label, der));
                assert(sections_view(out@) + next =~= sections_view(done) + (seq![
                    (label@, bytes_of(der)),
                ] + next));
                i = j;
            },
        }
    }
    assert(sections_view(out@) + pem::sections(all.skip(i as int)) =~= sections_view(out@));
    out
}

/// The PEM blocks in `text` (headers inside a block are skipped).
pub fn pem_blocks(text: &str) -> (r: Vec<PemBlock>)
    ensures
        blocks_view(r@) == pem::blocks(text::text_lines(text@)),
{
    let found: Vec<(String, Option<Vec<u8>>)> = pem_sections(text);
    let ghost all = sections_view(found@);
    let mut out: Vec<PemBlock> = Vec::new();
    let mut i: usize = 0;
    assert(all.skip(0) =~= all);
    assert(blocks_view(out@) + pem::readable(all.skip(0)) =~= pem::readable(all));
    while i < found.len()
        invariant
            i <= found@.len(),
            all == sections_view(found@),
            blocks_view(out@) + pem::readable(all.skip(i as int)) == pem::readable(all),
        decreases found@.len() - i,
    {
        let ghost rest = all.skip(i as int);
        let ghost next = pem::readable(all.skip(i + 1));
        let ghost done = out@;
        assert(rest.drop_first() =~= all.skip(i + 1));
        assert(rest[0] == (found@[i as int].0@, bytes_of(found@[i as int].1)));
        if let Some(der) = &found[i].1 {
            out.push(PemBlock { label: found[i].0.clone(), der: clone_bytes(der) });
            assert(blocks_view(out@) + next =~= blocks_view(done) + (seq![
                (found@[i as int].0@, der@),
            ] + next));
        }
        i += 1;
    }
    proof {
        assert(blocks_view(out@) + pem::readable(all.skip(i as int)) =~= blocks_view(out@));
        pem::lemma_readable_sections(text::text_lines(text@));
    }
    out
}

/// The text without white space.
fn compact(s: &str) -> (r: String)
    ensures
        r@ == pem::compact(s@),
{
    let cs: Vec<char> = text::chars(s);
    let mut out: String = String::new();
    let mut i: usize = 0;
    assert(cs@.take(0) =~= Seq::empty());
    while i < cs.len()
        invariant
            i <= cs@.len(),
            out@ == pem::compact(cs@.take(i as int)),
        decreases cs@.len() - i,
    {
        assert(cs@.take(i + 1).drop_last() =~= cs@.take(i as int));
        if !text::is_white(cs[i]) {
            out.push(cs[i]);
        }
        i += 1;
    }
    assert(cs@.take(i as int) =~= cs@);
    out
}

/// The block of a body whose line breaks were lost: lines of 64 bytes.
fn der_to_pem_text(label: &str, base64: &str) -> (r: String)
    ensures
        r@ == pem::armored(label@, pem::wrapped_bytes(vstd::utf8::encode_utf8(base64@))),
{
    let bytes: &[u8] = base64.as_bytes();
    let mut body: String = String::new();
    let mut i: usize = 0;
    assert(bytes@.skip(0) =~= bytes@);
    assert(body@ + pem::wrapped_bytes(bytes@) =~= pem::wrapped_bytes(bytes@));
    while i < bytes.len()
        invariant
            i <= bytes@.len(),
            body@ + pem::wrapped_bytes(bytes@.skip(i as int)) == pem::wrapped_bytes(bytes@),
        decreases bytes@.len() - i,
    {
        let len: usize = bytes.len();
        let n: usize = if len - i < 64 {
            len - i
        } else {
            64
        };
        let ghost rest = bytes@.skip(i as int);
        let ghost before = body@;
        let mut chunk: Vec<u8> = Vec::new();
        let mut k: usize = 0;
        while k < n
            invariant
                k <= n <= len - i,
                len == bytes@.len(),
                rest == bytes@.skip(i as int),
                chunk@ =~= rest.take(k as int),
            decreases n - k,
        {
            chunk.push(bytes[i + k]);
            k += 1;
        }
        if let Some(line) = outside::utf8_text(chunk) {
            body.append(line.as_str());
        }
        body.append("\n");
        proof {
            assert(rest.skip(n as int) =~= bytes@.skip(i + n));
            assert(body@ =~= before + (pem::chunk_text(rest.take(n as int)) + "\n"@));
            assert(body@ + pem::wrapped_bytes(rest.skip(n as int)) =~= before
                + pem::wrapped_bytes(rest));
        }
        i += n;
    }
    assert(body@ + pem::wrapped_bytes(bytes@.skip(i as int)) =~= body@);
    armor(label, body.as_str())
}

/// A block around the lines of its body.
fn armor(label: &str, body: &str) -> (r: String)
    ensures
        r@ == pem::armored(label@, body@),
{
    let mut out: String = cat3("-----BEGIN ", label, "-----\n");
    out.append(body);
    out.append("-----END ");
    out.append(label);
    out.append("-----\n");
    out
}

/// The first block from `at` on in a text on one line: its label, its body without white space,
/// and where it ends.
fn first_block(cs: &Vec<char>, at: usize) -> (r: Option<(String, String, usize)>)
    requires
        at <= cs@.len(),
    ensures
        match r {
            Some((label, body, end)) => at < end <= cs@.len() && pem::first_block(
                cs@.skip(at as int),
            ) == Some((label@, body@, end - at)),
            None => pem::first_block(cs@.skip(at as int)) is None,
        },
{
    let total: usize = cs.len();
    let ghost s = cs@.skip(at as int);
    let begin: Vec<char> = text::chars("-----BEGIN ");
    let dashes: Vec<char> = text::chars("-----");
    let start: usize = match text::find_from(cs, &begin, at) {
        Some(i) => i + begin.len(),
        None => {
            return None;
        },
    };
    assert(s.skip(start - at) =~= cs@.skip(start as int));
    let label_end: usize = match text::find_from(cs, &dashes, start) {
        Some(i) => i,
        None => {
            return None;
        },
    };
    let label: String = text::text_between(cs, start, label_end);
    let body_start: usize = label_end + dashes.len();
    assert(s.subrange(start - at, label_end - at) =~= label@);
    assert(s.skip(body_start - at) =~= cs@.skip(body_start as int));
    let end: String = cat3("-----END ", label.as_str(), "-----");
    let end_chars: Vec<char> = text::chars(end.as_str());
    let body_end: usize = match text::find_from(cs, &end_chars, body_start) {
        Some(i) => i,
        None => {
            return None;
        },
    };
    let inner: String = text::text_between(cs, body_start, body_end);
    assert(s.subrange(body_start - at, body_end - at) =~= inner@);
    proof {
        pem::lemma_first_block(s);
    }
    Some((label, compact(inner.as_str()), body_end + end_chars.len()))
}

/// PEM text as pasted: also accepts PEM whose line breaks were lost (a one-line input).
pub fn normalize_pem(text: &str) -> (r: String)
    ensures
        r@ == pem::normalized(text@),
{
    let t: String = trim(text);
    if text::contains_char(t.as_str(), '\n') || !text::starts_with(t.as_str(), "-----BEGIN ") {
        return t;
    }
    let cs: Vec<char> = text::chars(t.as_str());
    let mut out: String = String::new();
    let mut at: usize = 0;
    assert(cs@.skip(0) =~= cs@);
    assert(out@ + pem::unfolded(cs@.skip(0)) =~= pem::unfolded(t@));
    loop
        invariant
            at <= cs@.len(),
            out@ + pem::unfolded(cs@.skip(at as int)) == pem::unfolded(t@),
        ensures
            out@ == pem::unfolded(t@),
        decreases cs@.len() - at,
    {
        let ghost s = cs@.skip(at as int);
        match first_block(&cs, at) {
            None => {
                assert(out@ + pem::unfolded(s) =~= out@);
                break;
            },
            Some((label, body, end)) => {
                let ghost before = out@;
                let block: String = der_to_pem_text(label.as_str(), body.as_str());
                out.append(block.as_str());
                proof {
                    assert(s.skip(end - at) =~= cs@.skip(end as int));
                    assert(out@ + pem::unfolded(cs@.skip(end as int)) =~= before + (block@
                        + pem::unfolded(cs@.skip(end as int))));
                }
                at = end;
            },
        }
    }
    if out.as_str().is_empty() {
        t
    } else {
        out
    }
}

/// PEM text from a kubeconfig `*-data` value (base64 of PEM). Also accepts raw PEM pasted by
/// mistake.
pub fn pem_from_data(data: &str) -> (r: Result<String, String>)
    ensures
        match r {
            Ok(s) => pem::data_text(data@) == Ok::<_, Seq<char>>(s@),
            Err(e) => pem::data_text(data@) == Err::<Seq<char>, _>(e@),
        },
{
    let trimmed: String = trim(data);
    if text::starts_with(trimmed.as_str(), "-----BEGIN") {
        return Ok(trimmed);
    }
    match outside::base64_decode(compact(trimmed.as_str()).as_str()) {
        None => Err("not valid base64".to_string()),
        Some(bytes) => match outside::utf8_text(bytes) {
            Some(s) => Ok(s),
            None => Err("the decoded data isn't PEM text".to_string()),
        },
    }
}

/// The `*-data` value for PEM text. Read back, it gives the text, without the space around it
/// and with a line feed at the end.
pub fn data_from_pem(pem: &str) -> (r: String)
    ensures
        r@ == outside::base64_encoded(vstd::utf8::encode_utf8(text::trimmed(pem@) + "\n"@)),
        pem::data_text(r@) == Ok::<_, Seq<char>>(text::trimmed(pem@) + "\n"@),
        r@.len() > 0,
{
    let pem: String = cat(trim(pem).as_str(), "\n");
    let data: String = outside::base64_encode(pem.as_str().as_bytes());
    proof {
        pem::lemma_base64_is_compact(data@);
        vstd::utf8::encode_utf8_valid_utf8(pem@);
        vstd::utf8::encode_utf8_decode_utf8(pem@);
        reveal_strlit("\n");
        assert(pem@.len() > 0);
        if vstd::utf8::encode_utf8(pem@).len() == 0 {
            assert(vstd::utf8::decode_utf8(vstd::utf8::encode_utf8(pem@)).len() == 0);
        }
    }
    data
}

/// PEM text for DER bytes. Read back, it is one block with that label and those bytes (unless
/// the label holds a line feed); line breaks that it loses can be put back.
pub fn der_to_pem(label: &str, der: &[u8]) -> (r: String)
    ensures
        r@ == pem::armored(label@, pem::wrapped(outside::base64_encoded(der@))),
        !label@.contains('\n') ==> pem::blocks(text::text_lines(r@)) == seq![(label@, der@)],
        pem::all_base64(outside::base64_encoded(der@)),
        pem::is_label(label@) ==> pem::normalized(pem::unbroken(r@)) == r@,
{
    let b64: String = outside::base64_encode(der);
    let cs: Vec<char> = text::chars(b64.as_str());
    let mut body: String = String::new();
    let mut i: usize = 0;
    assert(cs@.skip(0) =~= cs@);
    assert(body@ + pem::wrapped(cs@) =~= pem::wrapped(cs@));
    while i < cs.len()
        invariant
            i <= cs@.len(),
            body@ + pem::wrapped(cs@.skip(i as int)) == pem::wrapped(cs@),
        decreases cs@.len() - i,
    {
        let len: usize = cs.len();
        let n: usize = if len - i < 64 {
            len - i
        } else {
            64
        };
        let ghost rest = cs@.skip(i as int);
        let ghost before = body@;
        let line: String = text::text_between(&cs, i, i + n);
        body.append(line.as_str());
        body.append("\n");
        proof {
            assert(rest.take(n as int) =~= line@);
            assert(rest.skip(n as int) =~= cs@.skip(i + n));
            assert(body@ + pem::wrapped(rest.skip(n as int)) =~= before + pem::wrapped(rest));
        }
        i += n;
    }
    assert(body@ + pem::wrapped(cs@.skip(i as int)) =~= body@);
    proof {
        if pem::is_label(label@) {
            pem::lemma_one_block(label@, b64@);
        }
        if !label@.contains('\n') {
            pem::lemma_armored_reads_back(label@, b64@, der@);
        }
    }
    armor(label, body.as_str())
}

// ----- Certificates -----

/// A moment: seconds since 1970 and nanoseconds in the second.
#[derive(Clone, Copy, Debug, PartialEq, Eq, Structural)]
pub struct Moment {
    pub second: i64,
    pub nanosecond: i32,
}

impl Moment {
    /// The moment in nanoseconds since 1970.
    pub open spec fn nanoseconds(self) -> int {
        self.second * 1_000_000_000 + self.nanosecond
    }

    /// Whatever the clock says.
    pub fn now() -> (r: Moment)
        ensures
            -377_705_023_201 <= r.second <= 253_402_207_200,
            -1_000_000_000 < r.nanosecond < 1_000_000_000,
    {
        let (second, nanosecond) = outside::timestamp_now();
        Moment { second, nanosecond }
    }
}

/// What the UI shows about a certificate.
#[derive(Debug, PartialEq)]
pub struct CertInfo {
    pub subject: String,
    pub issuer: String,
    pub self_signed: bool,
    pub is_ca: bool,
    /// Seconds since 1970.
    pub not_before: i64,
    /// Seconds since 1970.
    pub not_after: i64,
    /// DNS names and IPs.
    pub names: Vec<String>,
    /// SHA-256 of the DER certificate.
    pub sha256: Vec<u8>,
    /// SHA-256 of the DER SubjectPublicKeyInfo (kubeadm's `--discovery-token-ca-cert-hash`).
    pub spki_sha256: Vec<u8>,
    pub der: Vec<u8>,
}

/// A certificate as a mathematical value.
pub struct Cert {
    pub subject: Seq<char>,
    pub issuer: Seq<char>,
    pub self_signed: bool,
    pub is_ca: bool,
    pub not_before: i64,
    pub not_after: i64,
    pub names: Seq<Seq<char>>,
    pub sha256: Seq<u8>,
    pub spki_sha256: Seq<u8>,
    pub der: Seq<u8>,
}

impl View for CertInfo {
    type V = Cert;

    open spec fn view(&self) -> Cert {
        Cert {
            subject: self.subject@,
            issuer: self.issuer@,
            self_signed: self.self_signed,
            is_ca: self.is_ca,
            not_before: self.not_before,
            not_after: self.not_after,
            names: text::texts(self.names@),
            sha256: self.sha256@,
            spki_sha256: self.spki_sha256@,
            der: self.der@,
        }
    }
}

impl Clone for CertInfo {
    fn clone(&self) -> (r: CertInfo)
        ensures
            r@ == self@,
    {
        CertInfo {
            subject: self.subject.clone(),
            issuer: self.issuer.clone(),
            self_signed: self.self_signed,
            is_ca: self.is_ca,
            not_before: self.not_before,
            not_after: self.not_after,
            names: text::clone_texts(&self.names),
            sha256: clone_bytes(&self.sha256),
            spki_sha256: clone_bytes(&self.spki_sha256),
            der: clone_bytes(&self.der),
        }
    }
}

/// A copy of bytes.
pub fn clone_bytes(v: &Vec<u8>) -> (r: Vec<u8>)
    ensures
        r@ == v@,
{
    let mut out: Vec<u8> = Vec::new();
    let mut i: usize = 0;
    while i < v.len()
        invariant
            i <= v@.len(),
            out@ =~= v@.take(i as int),
        decreases v@.len() - i,
    {
        out.push(v[i]);
        i += 1;
    }
    out
}

/// The certificates of a list as mathematical values.
pub open spec fn certs_view(v: Seq<CertInfo>) -> Seq<Cert> {
    Seq::new(v.len(), |i: int| v[i]@)
}

pub broadcast proof fn certs_view_push(v: Seq<CertInfo>, c: CertInfo)
    ensures
        #[trigger] certs_view(v.push(c)) == certs_view(v).push(c@),
{
    assert(certs_view(v.push(c)) =~= certs_view(v).push(c@));
}

/// The last second that timestamps reach.
pub const LAST_SECOND: u64 = 253_402_207_200;

/// A certificate's time as a timestamp; 1970 for one that timestamps don't reach.
pub open spec fn timestamp_of(second: u64) -> i64 {
    if second <= LAST_SECOND {
        second as i64
    } else {
        0
    }
}

/// The DNS names and IP addresses, as text; other names and odd addresses are left out.
pub open spec fn names_of(names: Seq<(Option<Seq<char>>, Option<Seq<u8>>)>) -> Seq<Seq<char>>
    decreases names.len(),
{
    if names.len() == 0 {
        seq![]
    } else {
        let before = names_of(names.drop_last());
        match names.last() {
            (Some(dns), _) => before.push(dns),
            (None, Some(ip)) => match addresses::ip_text(ip) {
                Some(s) => before.push(s),
                None => before,
            },
            _ => before,
        }
    }
}

/// What is read of a certificate.
pub struct CertParts {
    pub names: Result<(String, String, bool), String>,
    pub validity: Option<(u64, u64)>,
    pub ca: Option<bool>,
    pub alt_names: Vec<(Option<String>, Option<Vec<u8>>)>,
    pub key: Result<Vec<u8>, String>,
}

/// The certificate that its parts make, or why they don't.
pub open spec fn cert_of_parts(
    names: Result<(Seq<char>, Seq<char>, bool), Seq<char>>,
    validity: Option<(u64, u64)>,
    ca: Option<bool>,
    alt_names: Seq<(Option<Seq<char>>, Option<Seq<u8>>)>,
    key: Result<Seq<u8>, Seq<char>>,
    der: Seq<u8>,
) -> Result<Cert, Seq<char>> {
    match names {
        Err(e) => Err("not a certificate: "@ + e),
        Ok((subject, issuer, self_signed)) => match key {
            Err(e) => Err("unreadable public key: "@ + e),
            Ok(key) => {
                let (from, until) = match validity {
                    Some(v) => v,
                    None => (0u64, 0u64),
                };
                Ok(
                    Cert {
                        subject,
                        issuer,
                        self_signed,
                        is_ca: ca == Some(true),
                        not_before: timestamp_of(from),
                        not_after: timestamp_of(until),
                        names: names_of(alt_names),
                        sha256: outside::sha256(der),
                        spki_sha256: outside::sha256(key),
                        der,
                    },
                )
            },
        },
    }
}

/// The certificate that DER bytes hold, or why they don't.
pub open spec fn cert_of(der: Seq<u8>) -> Result<Cert, Seq<char>> {
    cert_of_parts(
        outside::certificate_names(der),
        outside::certificate_validity(der),
        outside::certificate_ca(der),
        outside::certificate_alt_names(der),
        outside::certificate_key(der),
        der,
    )
}

/// The characters of names read from a certificate.
pub open spec fn names_result(r: Result<(String, String, bool), String>) -> Result<
    (Seq<char>, Seq<char>, bool),
    Seq<char>,
> {
    match r {
        Ok((s, i, b)) => Ok((s@, i@, b)),
        Err(e) => Err(e@),
    }
}

/// The bytes of a key read from a certificate.
pub open spec fn key_result(r: Result<Vec<u8>, String>) -> Result<Seq<u8>, Seq<char>> {
    match r {
        Ok(b) => Ok(b@),
        Err(e) => Err(e@),
    }
}

/// A timestamp for a certificate's time.
fn timestamp(second: u64) -> (r: i64)
    ensures
        r == timestamp_of(second),
{
    if second <= LAST_SECOND {
        second as i64
    } else {
        0
    }
}

/// The DNS names and IP addresses as text.
fn alt_name_texts(names: &Vec<(Option<String>, Option<Vec<u8>>)>) -> (r: Vec<String>)
    ensures
        text::texts(r@) == names_of(outside::alt_names_view(names@)),
{
    let mut out: Vec<String> = Vec::new();
    let ghost all = outside::alt_names_view(names@);
    let mut i: usize = 0;
    assert(all.take(0) =~= Seq::empty());
    assert(text::texts(out@) =~= Seq::empty());
    while i < names.len()
        invariant
            i <= names@.len(),
            all == outside::alt_names_view(names@),
            text::texts(out@) == names_of(all.take(i as int)),
        decreases names@.len() - i,
    {
        broadcast use text::texts_push;

        assert(all.take(i + 1).drop_last() =~= all.take(i as int));
        match (&names[i].0, &names[i].1) {
            (Some(dns), _) => {
                out.push(dns.clone());
            },
            (None, Some(ip)) => {
                if let Some(s) = addresses::ip_to_text(ip) {
                    out.push(s);
                }
            },
            _ => {},
        }
        i += 1;
    }
    assert(all.take(i as int) =~= all);
    out
}

impl CertInfo {
    /// The certificate that its parts make, or why they don't.
    pub fn from_parts(parts: &CertParts, der: &[u8]) -> (r: Result<CertInfo, String>)
        ensures
            ({
                let wanted = cert_of_parts(
                    names_result(parts.names),
                    parts.validity,
                    parts.ca,
                    outside::alt_names_view(parts.alt_names@),
                    key_result(parts.key),
                    der@,
                );
                match r {
                    Ok(c) => wanted == Ok::<_, Seq<char>>(c@),
                    Err(e) => wanted == Err::<Cert, _>(e@),
                }
            }),
    {
        let (subject, issuer, self_signed) = match &parts.names {
            Ok((subject, issuer, equal)) => (subject.clone(), issuer.clone(), *equal),
            Err(e) => {
                return Err(cat("not a certificate: ", e.as_str()));
            },
        };
        let key: &Vec<u8> = match &parts.key {
            Ok(key) => key,
            Err(e) => {
                return Err(cat("unreadable public key: ", e.as_str()));
            },
        };
        let (from, until): (u64, u64) = match parts.validity {
            Some((from, until)) => (from, until),
            None => (0, 0),
        };
        let is_ca: bool = match parts.ca {
            Some(b) => b,
            None => false,
        };
        Ok(
            CertInfo {
                subject,
                issuer,
                self_signed,
                is_ca,
                not_before: timestamp(from),
                not_after: timestamp(until),
                names: alt_name_texts(&parts.alt_names),
                sha256: outside::sha256_digest(der),
                spki_sha256: outside::sha256_digest(key.as_slice()),
                der: vstd::slice::slice_to_vec(der),
            },
        )
    }

    pub fn parse(der: &[u8]) -> (r: Result<CertInfo, String>)
        ensures
            match r {
                Ok(c) => cert_of(der@) == Ok::<_, Seq<char>>(c@),
                Err(e) => cert_of(der@) == Err::<Cert, _>(e@),
            },
    {
        let parts: CertParts = CertParts {
            names: outside::read_certificate_names(der),
            validity: outside::read_certificate_validity(der),
            ca: outside::read_certificate_ca(der),
            alt_names: outside::read_certificate_alt_names(der),
            key: outside::read_certificate_key(der),
        };
        CertInfo::from_parts(&parts, der)
    }

    /// `5C:9A:37:…`.
    pub fn fingerprint(&self) -> (r: String)
        ensures
            r@ == colon_hex_text(self.sha256@),
    {
        colon_hex(self.sha256.as_slice())
    }

    /// `sha256:<hex>` like kubeadm prints it.
    pub fn spki_hash(&self) -> (r: String)
        ensures
            r@ == "sha256:"@ + text::hex(self.spki_sha256@),
    {
        cat("sha256:", text::hex_text(&self.spki_sha256).as_str())
    }

    /// Whether it expired before `now`.
    pub fn expired_at(&self, now: Moment) -> (r: bool)
        ensures
            r == expired(self.not_after, now),
    {
        (self.not_after as i128) * 1_000_000_000 < (now.second as i128) * 1_000_000_000 + (
        now.nanosecond as i128)
    }

    /// Whether it expired by now, whatever the clock says.
    pub fn expired(&self) -> (r: bool)
        ensures
            exists|now: Moment| r == #[trigger] expired(self.not_after, now),
    {
        self.expired_at(Moment::now())
    }

    /// Days from `now` until it expires (negative when expired).
    pub fn days_left_at(&self, now: Moment) -> (r: i64)
        ensures
            r == days_left(self.not_after, now),
    {
        let left: i128 = self.not_after as i128 - now.second as i128;
        if left >= 0 {
            (left as u128 / 86_400) as i64
        } else {
            -(((-left + 86_399) as u128 / 86_400) as i64)
        }
    }

    /// Days until it expires, whatever the clock says.
    pub fn days_left(&self) -> (r: i64)
        ensures
            exists|now: Moment| r == #[trigger] days_left(self.not_after, now),
    {
        self.days_left_at(Moment::now())
    }

    /// Whether it expires within [`EXPIRY_WARNING_DAYS`] days of `now`, and hasn't yet.
    pub fn expires_soon_at(&self, now: Moment) -> (r: bool)
        ensures
            r == expires_soon(self.not_after, now),
    {
        !self.expired_at(now) && self.days_left_at(now) < EXPIRY_WARNING_DAYS
    }

    /// Whether it expires soon, whatever the clock says.
    pub fn expires_soon(&self) -> (r: bool)
        ensures
            exists|now: Moment| r == #[trigger] expires_soon(self.not_after, now),
    {
        self.expires_soon_at(Moment::now())
    }

    /// `2026-11-02`.
    pub fn not_after_date(&self) -> (r: String)
        ensures
            r@ == outside::date_at(self.not_after),
    {
        outside::date_text(self.not_after)
    }

    /// The certificate as PEM. Read back, it is one certificate block with the same bytes.
    pub fn pem(&self) -> (r: String)
        ensures
            r@ == pem::armored("CERTIFICATE"@, pem::wrapped(outside::base64_encoded(self.der@))),
            pem::blocks(text::text_lines(r@)) == seq![("CERTIFICATE"@, self.der@)],
    {
        proof {
            reveal_strlit("CERTIFICATE");
        }
        der_to_pem("CERTIFICATE", self.der.as_slice())
    }

    /// The `CN=` of the subject, or the whole subject.
    pub fn common_name(&self) -> (r: String)
        ensures
            r@ == common_name_of(self.subject@),
    {
        common_name(self.subject.as_str())
    }
}

/// Whether a certificate that is valid until a second expired before `now`.
pub open spec fn expired(not_after: i64, now: Moment) -> bool {
    not_after * 1_000_000_000 < now.nanoseconds()
}

/// Whole days from `now` on, rounded down.
pub open spec fn days_left(not_after: i64, now: Moment) -> int {
    (not_after - now.second) / 86_400
}

pub open spec fn expires_soon(not_after: i64, now: Moment) -> bool {
    !expired(not_after, now) && days_left(not_after, now) < EXPIRY_WARNING_DAYS
}

/// What follows `CN=` in the first part that starts with it.
pub open spec fn common_name_in(parts: Seq<Seq<char>>) -> Option<Seq<char>>
    decreases parts.len(),
{
    if parts.len() == 0 {
        None
    } else if "CN="@.is_prefix_of(text::trimmed(parts[0])) {
        Some(text::trimmed(parts[0]).skip("CN="@.len() as int))
    } else {
        common_name_in(parts.drop_first())
    }
}

/// The common name in a distinguished name; the whole name without one.
pub open spec fn common_name_of(name: Seq<char>) -> Seq<char> {
    match common_name_in(text::pieces(name, ',')) {
        Some(cn) => cn,
        None => name,
    }
}

/// `CN=kubernetes,O=x` → `kubernetes`.
pub fn common_name(name: &str) -> (r: String)
    ensures
        r@ == common_name_of(name@),
{
    let parts: Vec<String> = text::split(name, ',');
    let ghost all = text::texts(parts@);
    let mut i: usize = 0;
    assert(all.skip(0) =~= all);
    while i < parts.len()
        invariant
            i <= parts@.len(),
            all == text::texts(parts@),
            all == text::pieces(name@, ','),
            common_name_in(all) == common_name_in(all.skip(i as int)),
        decreases parts@.len() - i,
    {
        let ghost rest = all.skip(i as int);
        assert(rest[0] == parts@[i as int]@);
        assert(rest.drop_first() =~= all.skip(i + 1));
        if let Some(cn) = text::strip_prefix(trim(parts[i].as_str()).as_str(), "CN=") {
            return cn;
        }
        i += 1;
    }
    name.to_string()
}

/// The bytes in upper-case hexadecimal with colons between them.
pub open spec fn colon_hex_text(bytes: Seq<u8>) -> Seq<char> {
    text::joined(Seq::new(bytes.len(), |i: int| text::hex_pair(bytes[i], 'A')), ":"@)
}

pub proof fn lemma_colon_hex_len(bytes: Seq<u8>)
    requires
        bytes.len() > 0,
    ensures
        colon_hex_text(bytes).len() > 0,
{
    let parts = Seq::new(bytes.len(), |i: int| text::hex_pair(bytes[i], 'A'));
    assert(parts.last().len() > 0);
}

pub fn colon_hex(bytes: &[u8]) -> (r: String)
    ensures
        r@ == colon_hex_text(bytes@),
{
    let mut parts: Vec<String> = Vec::new();
    let ghost all = Seq::new(bytes@.len(), |i: int| text::hex_pair(bytes@[i], 'A'));
    let mut i: usize = 0;
    assert(text::texts(parts@) =~= all.take(0));
    while i < bytes.len()
        invariant
            i <= bytes@.len(),
            all == Seq::new(bytes@.len(), |i: int| text::hex_pair(bytes@[i], 'A')),
            text::texts(parts@) == all.take(i as int),
        decreases bytes@.len() - i,
    {
        broadcast use text::texts_push;

        let mut pair: String = String::new();
        text::push_hex(&mut pair, bytes[i], 'A');
        assert(pair@ =~= all[i as int]);
        parts.push(pair);
        assert(all.take(i + 1) =~= all.take(i as int).push(all[i as int]));
        i += 1;
    }
    assert(all.take(i as int) =~= all);
    text::join(&parts, ":")
}

/// What the blocks with this label hold.
pub open spec fn labelled<T>(blocks: Seq<(Seq<char>, T)>, label: Seq<char>) -> Seq<T>
    decreases blocks.len(),
{
    if blocks.len() == 0 {
        seq![]
    } else {
        let before = labelled(blocks.drop_last(), label);
        if blocks.last().0 == label {
            before.push(blocks.last().1)
        } else {
            before
        }
    }
}

/// The certificate that a block holds, or why it isn't readable.
pub open spec fn section_cert(der: Option<Seq<u8>>) -> Result<Cert, Seq<char>> {
    match der {
        Some(der) => cert_of(der),
        None => Err("not a certificate: not valid base64"@),
    }
}

/// Every certificate, or why the first one that isn't readable isn't.
pub open spec fn all_certs(ders: Seq<Option<Seq<u8>>>) -> Result<Seq<Cert>, Seq<char>>
    decreases ders.len(),
{
    if ders.len() == 0 {
        Ok(seq![])
    } else {
        match all_certs(ders.drop_last()) {
            Err(e) => Err(e),
            Ok(before) => match section_cert(ders.last()) {
                Err(e) => Err(e),
                Ok(c) => Ok(before.push(c)),
            },
        }
    }
}

/// The certificates in PEM text. A certificate block that can't be decoded is an unreadable one.
pub open spec fn certs_in(pem: Seq<char>) -> Result<Seq<Cert>, Seq<char>> {
    let ders = labelled(pem::sections(text::text_lines(pem)), "CERTIFICATE"@);
    if ders.len() == 0 {
        Err("no certificate found (expected a PEM \"BEGIN CERTIFICATE\" block)"@)
    } else {
        all_certs(ders)
    }
}

/// The bytes of the certificate blocks of PEM text.
pub fn certificate_blocks(pem: &str) -> (r: Vec<Vec<u8>>)
    ensures
        outside::byte_lists(r@) == labelled(
            pem::blocks(text::text_lines(pem@)),
            "CERTIFICATE"@,
        ),
{
    let blocks: Vec<PemBlock> = pem_blocks(pem);
    let ghost all = blocks_view(blocks@);
    let mut out: Vec<Vec<u8>> = Vec::new();
    let mut i: usize = 0;
    assert(all.take(0) =~= Seq::empty());
    assert(outside::byte_lists(out@) =~= Seq::empty());
    while i < blocks.len()
        invariant
            i <= blocks@.len(),
            all == blocks_view(blocks@),
            outside::byte_lists(out@) == labelled(all.take(i as int), "CERTIFICATE"@),
        decreases blocks@.len() - i,
    {
        assert(all.take(i + 1).drop_last() =~= all.take(i as int));
        let ghost before = out@;
        if same(blocks[i].label.as_str(), "CERTIFICATE") {
            out.push(clone_bytes(&blocks[i].der));
            assert(outside::byte_lists(out@) =~= outside::byte_lists(before).push(
                blocks@[i as int].der@,
            ));
        }
        i += 1;
    }
    assert(all.take(i as int) =~= all);
    out
}

/// What optional byte strings hold.
pub open spec fn bytes_list(v: Seq<Option<Vec<u8>>>) -> Seq<Option<Seq<u8>>> {
    Seq::new(v.len(), |i: int| bytes_of(v[i]))
}

/// What the certificate blocks of PEM text hold, those that can't be decoded among them.
fn certificate_sections(pem: &str) -> (r: Vec<Option<Vec<u8>>>)
    ensures
        bytes_list(r@) == labelled(pem::sections(text::text_lines(pem@)), "CERTIFICATE"@),
{
    let found: Vec<(String, Option<Vec<u8>>)> = pem_sections(pem);
    let ghost all = sections_view(found@);
    let mut out: Vec<Option<Vec<u8>>> = Vec::new();
    let mut i: usize = 0;
    assert(all.take(0) =~= Seq::empty());
    assert(bytes_list(out@) =~= Seq::empty());
    while i < found.len()
        invariant
            i <= found@.len(),
            all == sections_view(found@),
            bytes_list(out@) == labelled(all.take(i as int), "CERTIFICATE"@),
        decreases found@.len() - i,
    {
        assert(all.take(i + 1).drop_last() =~= all.take(i as int));
        let ghost before = out@;
        if same(found[i].0.as_str(), "CERTIFICATE") {
            let der: Option<Vec<u8>> = match &found[i].1 {
                Some(der) => Some(clone_bytes(der)),
                None => None,
            };
            out.push(der);
            assert(bytes_list(out@) =~= bytes_list(before).push(bytes_of(found@[i as int].1)));
        }
        i += 1;
    }
    assert(all.take(i as int) =~= all);
    out
}

/// Every certificate in PEM text. Errors when there is none (or one is unreadable).
pub fn certificates(pem: &str) -> (r: Result<Vec<CertInfo>, String>)
    ensures
        match r {
            Ok(v) => certs_in(pem@) == Ok::<_, Seq<char>>(certs_view(v@)),
            Err(e) => certs_in(pem@) == Err::<Seq<Cert>, _>(e@),
        },
{
    let ders: Vec<Option<Vec<u8>>> = certificate_sections(pem);
    let ghost all = bytes_list(ders@);
    if ders.len() == 0 {
        return Err(
            "no certificate found (expected a PEM \"BEGIN CERTIFICATE\" block)".to_string(),
        );
    }
    let mut out: Vec<CertInfo> = Vec::new();
    let mut i: usize = 0;
    assert(all.take(0) =~= Seq::empty());
    assert(certs_view(out@) =~= Seq::empty());
    while i < ders.len()
        invariant
            i <= ders@.len(),
            all == bytes_list(ders@),
            all.len() > 0,
            certs_in(pem@) == all_certs(all),
            all_certs(all.take(i as int)) == Ok::<_, Seq<char>>(certs_view(out@)),
        decreases ders@.len() - i,
    {
        broadcast use certs_view_push;

        assert(all.take(i + 1).drop_last() =~= all.take(i as int));
        assert(all.take(i + 1).last() == bytes_of(ders@[i as int]));
        let read: Result<CertInfo, String> = match &ders[i] {
            Some(der) => CertInfo::parse(der.as_slice()),
            None => Err("not a certificate: not valid base64".to_string()),
        };
        match read {
            Ok(c) => {
                out.push(c);
            },
            Err(e) => {
                proof {
                    lemma_all_certs_fails(all, i + 1);
                }
                return Err(e);
            },
        }
        i += 1;
    }
    assert(all.take(i as int) =~= all);
    Ok(out)
}

/// A certificate that isn't readable among the first ones is what all fail with.
proof fn lemma_all_certs_fails(ders: Seq<Option<Seq<u8>>>, n: int)
    requires
        0 <= n <= ders.len(),
        all_certs(ders.take(n)) is Err,
    ensures
        all_certs(ders) == all_certs(ders.take(n)),
    decreases ders.len() - n,
{
    if n == ders.len() {
        assert(ders.take(n) =~= ders);
    } else {
        assert(ders.take(n + 1).drop_last() =~= ders.take(n));
        lemma_all_certs_fails(ders, n + 1);
    }
}

/// An unreadable certificate is an error, wherever it stands among others.
pub proof fn an_unreadable_certificate_is_an_error(pem: Seq<char>, i: int)
    requires
        0 <= i < pem::sections(text::text_lines(pem)).len(),
        pem::sections(text::text_lines(pem))[i].0 == "CERTIFICATE"@,
        section_cert(pem::sections(text::text_lines(pem))[i].1) is Err,
    ensures
        certs_in(pem) is Err,
{
    let all = pem::sections(text::text_lines(pem));
    lemma_labelled(all, "CERTIFICATE"@, i);
    let ders = labelled(all, "CERTIFICATE"@);
    let n = choose|n: int| 0 <= n < ders.len() && ders[n] == all[i].1;
    assert(ders.take(n + 1).last() == all[i].1);
    lemma_all_certs_fails(ders, n + 1);
}

/// A block with the label is among those with the label.
proof fn lemma_labelled<T>(blocks: Seq<(Seq<char>, T)>, label: Seq<char>, i: int)
    requires
        0 <= i < blocks.len(),
        blocks[i].0 == label,
    ensures
        labelled(blocks, label).contains(blocks[i].1),
    decreases blocks.len(),
{
    let before = labelled(blocks.drop_last(), label);
    let all = labelled(blocks, label);
    if i < blocks.len() - 1 {
        lemma_labelled(blocks.drop_last(), label, i);
        let n = choose|n: int| 0 <= n < before.len() && before[n] == blocks[i].1;
        assert(all[n] == blocks[i].1);
    } else {
        assert(all[all.len() - 1] == blocks[i].1);
    }
}

/// Whether a block holds a private key.
pub open spec fn is_key_block(block: (Seq<char>, Seq<u8>)) -> bool {
    "PRIVATE KEY"@.is_suffix_of(block.0) && block.1.len() > 0
}

/// Checks that PEM text holds a private key (never returns or logs the key).
pub fn check_private_key(pem: &str) -> (r: Result<(), String>)
    ensures
        match r {
            Ok(()) => exists|i: int|
                0 <= i < pem::blocks(text::text_lines(pem@)).len() && is_key_block(
                    #[trigger] pem::blocks(text::text_lines(pem@))[i],
                ),
            Err(e) => e@ == "no private key found (expected a PEM \"PRIVATE KEY\" block)"@ && !(
            exists|i: int|
                0 <= i < pem::blocks(text::text_lines(pem@)).len() && is_key_block(
                    #[trigger] pem::blocks(text::text_lines(pem@))[i],
                )),
        },
{
    let blocks: Vec<PemBlock> = pem_blocks(pem);
    let ghost all = pem::blocks(text::text_lines(pem@));
    let mut i: usize = 0;
    while i < blocks.len()
        invariant
            i <= blocks@.len(),
            all == blocks_view(blocks@),
            all == pem::blocks(text::text_lines(pem@)),
            forall|j: int| 0 <= j < i ==> !is_key_block(#[trigger] all[j]),
        decreases blocks@.len() - i,
    {
        assert(all[i as int] == (blocks@[i as int].label@, blocks@[i as int].der@));
        if text::ends_with(blocks[i].label.as_str(), "PRIVATE KEY") && blocks[i].der.len() > 0 {
            assert(is_key_block(all[i as int]));
            return Ok(());
        }
        i += 1;
    }
    Err("no private key found (expected a PEM \"PRIVATE KEY\" block)".to_string())
}

} // verus!
