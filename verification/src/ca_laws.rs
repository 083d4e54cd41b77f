//! Servers and the CAs that are offered for them: where a URL leads, which certificates are
//! candidates, and what an answer without credentials is worth.

use crate::certs::{self, Cert};
use crate::json::{self, Fields, Json};
use crate::outside;
use crate::pem;
use crate::text;
use crate::text_laws;
use crate::tls::{self, CaOrigin};
use vstd::prelude::*;

verus! {

// ----- Targets -----

/// A URL leads to its host, at its port or else at 443; it is secure exactly if its scheme is
/// `https`; the certificate has to be for the name that was set, or else for the host.
pub proof fn urls_lead_to_their_host(
    server: Seq<char>,
    scheme: Seq<char>,
    host: Seq<char>,
    port: Option<u16>,
    path: Seq<char>,
    name: Option<Seq<char>>,
)
    requires
        scheme == "https"@ || scheme == "http"@,
        host.len() > 0,
        host[0] != '[',
        host.last() != ']',
    ensures
        ({
            let t = tls::target_of_url(server, Ok((scheme, Some(host), port, path)), name);
            &&& t is Ok
            &&& t->Ok_0.host == host
            &&& t->Ok_0.port == match port {
                Some(p) => p,
                None => 443u16,
            }
            &&& t->Ok_0.https <==> scheme == "https"@
            &&& name is None ==> t->Ok_0.server_name == host
            &&& name is Some && text::trimmed(name->Some_0).len() > 0 ==> t->Ok_0.server_name
                == text::trimmed(name->Some_0)
            &&& name is Some && text::trimmed(name->Some_0).len() == 0 ==> t->Ok_0.server_name
                == host
        }),
{
}

/// A URL of another scheme, one without a host, and what isn't a URL lead nowhere.
pub proof fn other_urls_lead_nowhere(
    server: Seq<char>,
    parts: tls::UrlParts,
    name: Option<Seq<char>>,
)
    requires
        parts matches Ok((scheme, host, _, _)) ==> host is None || (scheme != "https"@ && scheme
            != "http"@),
    ensures
        tls::target_of_url(server, parts, name) is Err,
{
}

/// A server is shown as its host and port, with the host in brackets if it has a colon in it.
pub proof fn addresses_with_colons_are_bracketed(t: tls::Endpoint)
    ensures
        t.host.contains(':') ==> tls::authority_of(t) == "["@ + t.host + "]:"@ + text::decimal(
            t.port as nat,
        ),
        !t.host.contains(':') ==> tls::authority_of(t) == t.host + ":"@ + text::decimal(
            t.port as nat,
        ),
{
}

// ----- Candidates -----

proof fn lemma_verifying(
    found: Seq<(Cert, CaOrigin)>,
    served: Seq<Cert>,
    name: Seq<char>,
    now: u64,
    x: (Cert, CaOrigin),
)
    ensures
        tls::verifying(found, served, name, now).contains(x) <==> found.contains(x)
            && tls::verifies_chain(x.0, served, name, now),
    decreases found.len(),
{
    if found.len() > 0 {
        let before = found.drop_last();
        lemma_verifying(before, served, name, now, x);
        let some = tls::verifying(before, served, name, now);
        let all = tls::verifying(found, served, name, now);
        if all.contains(x) {
            let i = choose|i: int| 0 <= i < all.len() && all[i] == x;
            if i < some.len() {
                assert(some[i] == x);
                let j = choose|j: int| 0 <= j < before.len() && before[j] == x;
                assert(found[j] == x);
            } else {
                assert(found[found.len() - 1] == x);
            }
        }
        if found.contains(x) && tls::verifies_chain(x.0, served, name, now) {
            let i = choose|i: int| 0 <= i < found.len() && found[i] == x;
            if i < before.len() {
                assert(before[i] == x);
                let j = choose|j: int| 0 <= j < some.len() && some[j] == x;
                assert(all[j] == x);
            } else {
                assert(all[all.len() - 1] == x);
            }
        }
    }
}

proof fn lemma_with_served(found: Seq<(Cert, CaOrigin)>, served: Seq<Cert>)
    ensures
        ({
            let all = tls::with_served(found, served);
            &&& found.len() <= all.len()
            &&& forall|i: int| 0 <= i < found.len() ==> #[trigger] all[i] == found[i]
            &&& forall|i: int|
                found.len() <= i < all.len() ==> (#[trigger] all[i]).1 == CaOrigin::ServedChain
                    && all[i].0.is_ca && exists|j: int|
                    1 <= j < served.len() && #[trigger] served[j] == all[i].0
            &&& forall|j: int|
                1 <= j < served.len() && (#[trigger] served[j]).is_ca ==> tls::found_hash(
                    all,
                    served[j].sha256,
                )
        }),
    decreases served.len(),
{
    if served.len() > 1 {
        let cert = served.last();
        let next = if cert.is_ca && !tls::found_hash(found, cert.sha256) {
            found.push((cert, CaOrigin::ServedChain))
        } else {
            found
        };
        let rest = served.drop_last();
        lemma_with_served(next, rest);
        let all = tls::with_served(found, served);
        assert(all == tls::with_served(next, rest));
        assert forall|i: int| 0 <= i < found.len() implies #[trigger] all[i] == found[i] by {
            assert(next[i] == found[i]);
        }
        assert forall|i: int| found.len() <= i < all.len() implies (#[trigger] all[i]).1
            == CaOrigin::ServedChain && all[i].0.is_ca && exists|j: int|
            1 <= j < served.len() && #[trigger] served[j] == all[i].0 by {
            if i < next.len() {
                assert(all[i] == next[i]);
                assert(served[served.len() - 1] == all[i].0);
            } else {
                let j = choose|j: int| 1 <= j < rest.len() && #[trigger] rest[j] == all[i].0;
                assert(served[j] == all[i].0);
            }
        }
        assert forall|j: int| 1 <= j < served.len() && (#[trigger] served[j]).is_ca implies
            tls::found_hash(all, served[j].sha256) by {
            if j < rest.len() {
                assert(rest[j] == served[j]);
            } else {
                if tls::found_hash(found, cert.sha256) {
                    let i = choose|i: int|
                        0 <= i < found.len() && (#[trigger] found[i]).0.sha256 == cert.sha256;
                    assert(all[i] == found[i]);
                } else {
                    assert(all[found.len() as int] == next[found.len() as int]);
                }
            }
        }
    }
}

/// What is offered as a CA verifies the server's certificate for its name, and is either published
/// by the server or a CA that the server sent behind its own certificate. The server's own
/// certificate is never taken for a CA because it was sent.
pub proof fn offered_cas_are_published_or_sent(
    served: Seq<Cert>,
    published: Result<Seq<char>, Seq<char>>,
    name: Seq<char>,
    now: u64,
    x: (Cert, CaOrigin),
)
    requires
        tls::offered(served, published, name, now).contains(x),
    ensures
        tls::verifies_chain(x.0, served, name, now),
        x.1 == CaOrigin::ClusterInfo ==> published is Ok && certs::certs_in(published->Ok_0) is Ok
            && certs::certs_in(published->Ok_0)->Ok_0.contains(x.0),
        x.1 == CaOrigin::ServedChain ==> x.0.is_ca && exists|j: int|
            1 <= j < served.len() && #[trigger] served[j] == x.0,
{
    let first = tls::with_origin(tls::published(published), CaOrigin::ClusterInfo);
    let all = tls::with_served(first, served);
    lemma_verifying(all, served, name, now, x);
    lemma_with_served(first, served);
    let i = choose|i: int| 0 <= i < all.len() && all[i] == x;
    if i < first.len() {
        assert(x == first[i]);
        assert(tls::published(published)[i] == x.0);
    }
}

/// Every certificate that the server publishes is offered if it verifies the server's.
pub proof fn published_cas_are_offered(
    served: Seq<Cert>,
    s: Seq<char>,
    found: Seq<Cert>,
    name: Seq<char>,
    now: u64,
    i: int,
)
    requires
        certs::certs_in(s) == Ok::<Seq<Cert>, Seq<char>>(found),
        0 <= i < found.len(),
        tls::verifies_chain(found[i], served, name, now),
    ensures
        tls::offered(served, Ok(s), name, now).contains((found[i], CaOrigin::ClusterInfo)),
{
    let first = tls::with_origin(found, CaOrigin::ClusterInfo);
    let all = tls::with_served(first, served);
    lemma_with_served(first, served);
    let x = (found[i], CaOrigin::ClusterInfo);
    assert(first[i] == x);
    assert(all[i] == x);
    lemma_verifying(all, served, name, now, x);
}

/// A CA that the server sent is offered if it verifies the server's certificate, unless the same
/// one was found before.
pub proof fn sent_cas_are_offered(
    served: Seq<Cert>,
    name: Seq<char>,
    now: u64,
    j: int,
    why: Seq<char>,
)
    requires
        1 <= j < served.len(),
        served[j].is_ca,
        tls::verifies_chain(served[j], served, name, now),
        forall|k: int|
            1 <= k < served.len() && (#[trigger] served[k]).sha256 == served[j].sha256 ==> served[k]
                == served[j],
    ensures
        tls::offered(served, Err(why), name, now).contains((served[j], CaOrigin::ServedChain)),
{
    let first = tls::with_origin(
        tls::published(Err::<Seq<char>, Seq<char>>(why)),
        CaOrigin::ClusterInfo,
    );
    assert(first.len() == 0);
    let all = tls::with_served(first, served);
    lemma_with_served(first, served);
    assert(tls::found_hash(all, served[j].sha256));
    let i = choose|i: int|
        0 <= i < all.len() && (#[trigger] all[i]).0.sha256 == served[j].sha256;
    let k = choose|k: int| 1 <= k < served.len() && #[trigger] served[k] == all[i].0;
    assert(all[i] == (served[j], CaOrigin::ServedChain));
    lemma_verifying(all, served, name, now, (served[j], CaOrigin::ServedChain));
}

/// A CA verifies what a server sent exactly if it verifies the first certificate, for the name and
/// the moment, with the others for a chain in between; where nothing was sent, nothing does.
pub proof fn cas_verify_the_first_certificate(
    ca: Cert,
    leaf: Cert,
    between: Seq<Cert>,
    ders: Seq<Seq<u8>>,
    name: Seq<char>,
    now: u64,
)
    requires
        ders.len() == between.len(),
        forall|i: int| 0 <= i < between.len() ==> (#[trigger] between[i]).der == ders[i],
    ensures
        tls::verifies_chain(ca, seq![leaf] + between, name, now) <==> outside::verified_by(
            ca.der,
            leaf.der,
            ders,
            name,
            now,
        ),
        !tls::verifies_chain(ca, seq![], name, now),
{
    let served = seq![leaf] + between;
    let sent = Seq::new((served.len() - 1) as nat, |i: int| served[i + 1].der);
    assert forall|i: int| 0 <= i < sent.len() implies sent[i] == ders[i] by {
        assert(served[i + 1] == between[i]);
    }
    assert(sent =~= ders);
}

/// Inline data is base64 of PEM text, or that text itself; what is neither isn't read.
pub proof fn inline_data_is_base64_or_text(data: Seq<char>, bytes: Seq<u8>)
    ensures
        "-----BEGIN"@.is_prefix_of(text::trimmed(data)) ==> pem::data_text(data) == Ok::<
            Seq<char>,
            Seq<char>,
        >(text::trimmed(data)),
        !"-----BEGIN"@.is_prefix_of(text::trimmed(data)) && outside::base64_decoded(
            pem::compact(text::trimmed(data)),
        ) is None ==> pem::data_text(data) is Err,
        !"-----BEGIN"@.is_prefix_of(text::trimmed(data)) && outside::base64_decoded(
            pem::compact(text::trimmed(data)),
        ) == Some(bytes) ==> if vstd::utf8::valid_utf8(bytes) {
            pem::data_text(data) == Ok::<Seq<char>, Seq<char>>(vstd::utf8::decode_utf8(bytes))
        } else {
            pem::data_text(data) is Err
        },
{
}

/// The answer to the anonymous request counts only with the status 200.
pub proof fn only_good_answers_are_read(status: Option<nat>, body: Seq<u8>)
    ensures
        tls::answer_of(status, body) is Ok <==> status == Some(200nat),
        tls::answer_of(Some(200nat), body) == Ok::<Seq<u8>, Seq<char>>(body),
{
}

/// The CA is read from the first cluster of the published kubeconfig.
pub proof fn the_first_published_cluster_counts(
    kubeconfig: Fields,
    clusters: Seq<Json>,
    cluster: Fields,
    b: Fields,
    data: Seq<char>,
)
    requires
        json::field(kubeconfig, "clusters"@) == Some(Json::Array(clusters)),
        clusters.len() > 0,
        clusters[0] == Json::Object(cluster),
        json::field(cluster, "cluster"@) == Some(Json::Object(b)),
        json::field(b, "certificate-authority-data"@) == Some(Json::Str(data)),
    ensures
        tls::first_ca_data(Json::Object(kubeconfig)) == Some(data),
{
}

// ----- Certificates -----

/// A certificate is what its bytes say: it ends when its validity ends, it is a CA exactly if it
/// is marked as one, and its fingerprints are the SHA-256 of its bytes and of its key.
pub proof fn certificates_are_what_they_say(
    subject: Seq<char>,
    issuer: Seq<char>,
    self_signed: bool,
    from: u64,
    until: u64,
    ca: Option<bool>,
    names: Seq<(Option<Seq<char>>, Option<Seq<u8>>)>,
    key: Seq<u8>,
    der: Seq<u8>,
)
    requires
        from <= 253_402_207_200,
        until <= 253_402_207_200,
    ensures
        ({
            let c = certs::cert_of_parts(
                Ok((subject, issuer, self_signed)),
                Some((from, until)),
                ca,
                names,
                Ok(key),
                der,
            );
            &&& c is Ok
            &&& c->Ok_0.subject == subject
            &&& c->Ok_0.issuer == issuer
            &&& c->Ok_0.self_signed == self_signed
            &&& c->Ok_0.not_before == from
            &&& c->Ok_0.not_after == until
            &&& c->Ok_0.is_ca <==> ca == Some(true)
            &&& c->Ok_0.sha256 == outside::sha256(der)
            &&& c->Ok_0.spki_sha256 == outside::sha256(key)
            &&& c->Ok_0.der == der
        }),
{
}

proof fn lemma_all_certs(ders: Seq<Option<Seq<u8>>>, i: int)
    requires
        certs::all_certs(ders) is Ok,
        0 <= i < ders.len(),
    ensures
        certs::all_certs(ders)->Ok_0.len() == ders.len(),
        ders[i] is Some,
        certs::cert_of(ders[i]->Some_0) == Ok::<Cert, Seq<char>>(
            certs::all_certs(ders)->Ok_0[i],
        ),
    decreases ders.len(),
{
    let before = ders.drop_last();
    if i < before.len() {
        lemma_all_certs(before, i);
        assert(before[i] == ders[i]);
    } else if before.len() > 0 {
        lemma_all_certs(before, 0);
    }
}

/// The certificates of a text are those of its blocks that are labelled so, each as its bytes say,
/// in their order; a text without such a block has none, which is an error.
pub proof fn certificates_are_read_in_order(s: Seq<char>, i: int)
    ensures
        ({
            let blocks = certs::labelled(pem::sections(text::text_lines(s)), "CERTIFICATE"@);
            &&& blocks.len() == 0 ==> certs::certs_in(s) is Err
            &&& certs::certs_in(s) is Ok ==> certs::certs_in(s)->Ok_0.len() == blocks.len()
            &&& certs::certs_in(s) is Ok && 0 <= i < blocks.len() ==> blocks[i] is Some
                && certs::cert_of(blocks[i]->Some_0) == Ok::<Cert, Seq<char>>(
                certs::certs_in(s)->Ok_0[i],
            )
        }),
{
    let blocks = certs::labelled(pem::sections(text::text_lines(s)), "CERTIFICATE"@);
    if certs::certs_in(s) is Ok {
        lemma_all_certs(blocks, 0);
        if 0 <= i < blocks.len() {
            lemma_all_certs(blocks, i);
        }
    }
}

/// A certificate has expired at a moment exactly if its last second lies before it, and expires
/// soon exactly if it hasn't, but fewer than thirty whole days are left.
pub proof fn certificates_expire_after_their_last_second(
    not_after: i64,
    now: certs::Moment,
    later: certs::Moment,
)
    ensures
        certs::expired(not_after, now) <==> not_after * 1_000_000_000 < now.second * 1_000_000_000
            + now.nanosecond,
        certs::expires_soon(not_after, now) <==> !(not_after * 1_000_000_000 < now.second
            * 1_000_000_000 + now.nanosecond) && not_after - now.second < 30 * 86_400,
        certs::expired(not_after, now) && now.second * 1_000_000_000 + now.nanosecond
            <= later.second * 1_000_000_000 + later.nanosecond ==> certs::expired(
            not_after,
            later,
        ),
        certs::days_left(not_after, now) * 86_400 <= not_after - now.second < (certs::days_left(
            not_after,
            now,
        ) + 1) * 86_400,
{
}

// ----- What is read of a certificate -----

proof fn lemma_common_name(parts: Seq<Seq<char>>, i: int, name: Seq<char>)
    requires
        0 <= i < parts.len(),
        text::trimmed(parts[i]) == "CN="@ + name,
        forall|j: int|
            0 <= j < i ==> !"CN="@.is_prefix_of(text::trimmed(#[trigger] parts[j])),
    ensures
        certs::common_name_in(parts) == Some(name),
    decreases parts.len(),
{
    if i == 0 {
        let t = text::trimmed(parts[0]);
        assert(t.subrange(0, "CN="@.len() as int) =~= "CN="@);
        assert(t.skip("CN="@.len() as int) =~= name);
    } else {
        assert(!"CN="@.is_prefix_of(text::trimmed(parts[0])));
        let rest = parts.drop_first();
        assert(rest[i - 1] == parts[i]);
        assert forall|j: int| 0 <= j < i - 1 implies !"CN="@.is_prefix_of(
            text::trimmed(#[trigger] rest[j]),
        ) by {
            assert(rest[j] == parts[j + 1]);
        }
        lemma_common_name(rest, i - 1, name);
    }
}

/// Whom a certificate is for is told by the first common name in its subject.
pub proof fn the_first_common_name_is_told(subject: Seq<char>, i: int, name: Seq<char>)
    requires
        0 <= i < text::pieces(subject, ',').len(),
        text::trimmed(text::pieces(subject, ',')[i]) == "CN="@ + name,
        forall|j: int|
            0 <= j < i ==> !"CN="@.is_prefix_of(
                text::trimmed(#[trigger] text::pieces(subject, ',')[j]),
            ),
    ensures
        certs::common_name_of(subject) == name,
{
    lemma_common_name(text::pieces(subject, ','), i, name);
}

/// A text holds a private key exactly if one of its blocks is labelled as one and isn't empty.
pub proof fn keys_are_labelled_blocks(s: Seq<char>, i: int)
    requires
        0 <= i < pem::blocks(text::text_lines(s)).len(),
    ensures
        "PRIVATE KEY"@.is_suffix_of(pem::blocks(text::text_lines(s))[i].0) && pem::blocks(
            text::text_lines(s),
        )[i].1.len() > 0 ==> crate::issues::holds_key(s),
        crate::issues::holds_key(s) ==> exists|j: int|
            0 <= j < pem::blocks(text::text_lines(s)).len() && "PRIVATE KEY"@.is_suffix_of(
                (#[trigger] pem::blocks(text::text_lines(s))[j]).0,
            ) && pem::blocks(text::text_lines(s))[j].1.len() > 0,
{
    let blocks = pem::blocks(text::text_lines(s));
    if "PRIVATE KEY"@.is_suffix_of(blocks[i].0) && blocks[i].1.len() > 0 {
        assert(certs::is_key_block(blocks[i]));
    }
    if crate::issues::holds_key(s) {
        let j = choose|j: int| 0 <= j < blocks.len() && certs::is_key_block(#[trigger] blocks[j]);
        assert("PRIVATE KEY"@.is_suffix_of(blocks[j].0));
    }
}

/// The names of a certificate are its DNS names and its addresses, in their order.
pub proof fn names_are_dns_names_and_addresses(
    names: Seq<(Option<Seq<char>>, Option<Seq<u8>>)>,
    dns: Seq<char>,
    ip: Seq<u8>,
)
    ensures
        certs::names_of(names.push((Some(dns), None))) == certs::names_of(names).push(dns),
        ip.len() == 4 ==> certs::names_of(names.push((None, Some(ip)))) == certs::names_of(
            names,
        ).push(
            text::decimal(ip[0] as nat) + "."@ + text::decimal(ip[1] as nat) + "."@
                + text::decimal(ip[2] as nat) + "."@ + text::decimal(ip[3] as nat),
        ),
        certs::names_of(seq![]) == Seq::<Seq<char>>::empty(),
{
    assert(names.push((Some(dns), None)).drop_last() =~= names);
    assert(names.push((None, Some(ip))).drop_last() =~= names);
}

/// A CA is usable exactly if every certificate of it is; else the first that isn't is told.
pub proof fn unusable_certificates_are_told(ders: Seq<Seq<u8>>, i: int)
    requires
        0 <= i <= ders.len(),
        forall|j: int| 0 <= j < i ==> outside::anchor_error(#[trigger] ders[j]) is None,
        i < ders.len() ==> outside::anchor_error(ders[i]) is Some,
    ensures
        tls::first_unusable(ders) == if i < ders.len() {
            outside::anchor_error(ders[i])
        } else {
            None
        },
    decreases ders.len(),
{
    if i > 0 {
        assert(outside::anchor_error(ders[0]) is None);
        let rest = ders.drop_first();
        if i < ders.len() {
            assert(rest[i - 1] == ders[i]);
        }
        assert forall|j: int| 0 <= j < i - 1 implies outside::anchor_error(
            #[trigger] rest[j],
        ) is None by {
            assert(rest[j] == ders[j + 1]);
        }
        unusable_certificates_are_told(rest, i - 1);
    }
}

/// The status of an answer is the number behind the protocol in its first line.
pub proof fn the_status_stands_in_the_first_line(head: Seq<char>, n: nat)
    requires
        text::text_lines(head).len() > 0,
        text::words(text::text_lines(head)[0]).len() >= 2,
        text::words(text::text_lines(head)[0])[1] == text::decimal(n),
        n <= 65_535,
    ensures
        tls::status_in(head) == Some(n),
{
    text_laws::written_numbers_are_read_back(n);
}

} // verus!
