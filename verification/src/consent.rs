//! Ids of exec plugins: what a user's consent to run a plugin is remembered by.

use crate::document;
use crate::exec::{self, ExecSpec, Plugin};
use crate::outside;
use crate::text;
use vstd::prelude::*;

verus! {

/// A text with its length before it.
pub open spec fn framed(part: Seq<char>) -> Seq<char> {
    text::decimal(part.len()) + seq![':'] + part
}

/// Texts one after the other, each with its length.
pub open spec fn framed_all(parts: Seq<Seq<char>>) -> Seq<char>
    decreases parts.len(),
{
    if parts.len() == 0 {
        seq![]
    } else {
        framed(parts[0]) + framed_all(parts.drop_first())
    }
}

/// Names and values in turn.
pub open spec fn flat(env: Seq<(Seq<char>, Seq<char>)>) -> Seq<Seq<char>> {
    Seq::new(
        2 * env.len(),
        |i: int|
            if i % 2 == 0 {
                env[i / 2].0
            } else {
                env[i / 2].1
            },
    )
}

/// Everything consent is given for: the command, its arguments, its environment with the values,
/// and how it is run.
pub open spec fn parts(p: Plugin) -> Seq<Seq<char>> {
    seq![p.command, text::decimal(p.args.len())] + p.args + flat(p.env) + seq![
        p.api_version,
        p.interactive_mode,
        if p.provide_cluster_info {
            "true"@
        } else {
            "false"@
        },
    ]
}

/// The number that bytes write, the first one highest.
pub open spec fn big_endian(bytes: Seq<u8>) -> nat
    decreases bytes.len(),
{
    if bytes.len() == 0 {
        0
    } else {
        big_endian(bytes.drop_last()) * 256 + bytes.last() as nat
    }
}

/// The id of a plugin: the first eight bytes of the SHA-256 of its parts.
pub open spec fn id_of(p: Plugin) -> nat {
    big_endian(outside::sha256(vstd::utf8::encode_utf8(framed_all(parts(p)))).take(8))
}

fn framed_text(parts: &Vec<String>) -> (r: String)
    ensures
        r@ == framed_all(text::texts(parts@)),
{
    let ghost all = text::texts(parts@);
    let mut out: String = String::new();
    let mut i: usize = 0;
    assert(all.skip(0) =~= all);
    assert(out@ + framed_all(all) =~= framed_all(all));
    while i < parts.len()
        invariant
            i <= parts@.len(),
            all == text::texts(parts@),
            out@ + framed_all(all.skip(i as int)) == framed_all(all),
        decreases parts@.len() - i,
    {
        let ghost before = out@;
        let ghost rest = all.skip(i as int);
        let length: String = text::decimal_text(text::chars(parts[i].as_str()).len() as u128);
        out = text::cat4(out.as_str(), length.as_str(), ":", parts[i].as_str());
        proof {
            reveal_strlit(":");
            assert(":"@ =~= seq![':']);
        }
        assert(rest[0] == parts@[i as int]@);
        assert(rest.drop_first() =~= all.skip(i + 1));
        assert(out@ =~= before + framed(rest[0]));
        assert(out@ + framed_all(all.skip(i + 1)) =~= before + framed_all(rest));
        i += 1;
    }
    assert(all.skip(i as int) =~= seq![]);
    assert(out@ + framed_all(all.skip(i as int)) =~= out@);
    out
}

fn push_all(to: &mut Vec<String>, from: &Vec<String>)
    ensures
        text::texts(final(to)@) == text::texts(old(to)@) + text::texts(from@),
{
    let ghost before = text::texts(to@);
    let mut i: usize = 0;
    assert(before + text::texts(from@).take(0) =~= before);
    while i < from.len()
        invariant
            i <= from@.len(),
            text::texts(to@) == before + text::texts(from@).take(i as int),
        decreases from@.len() - i,
    {
        broadcast use text::texts_push;

        to.push(from[i].clone());
        assert(text::texts(from@).take(i + 1) =~= text::texts(from@).take(i as int).push(
            from@[i as int]@,
        ));
        i += 1;
    }
    assert(text::texts(from@).take(i as int) =~= text::texts(from@));
}

fn push_pairs(to: &mut Vec<String>, from: &Vec<(String, String)>)
    ensures
        text::texts(final(to)@) == text::texts(old(to)@) + flat(exec::pair_texts(from@)),
{
    let ghost before = text::texts(to@);
    let ghost all = flat(exec::pair_texts(from@));
    let mut i: usize = 0;
    assert(before + all.take(0) =~= before);
    while i < from.len()
        invariant
            i <= from@.len(),
            all == flat(exec::pair_texts(from@)),
            text::texts(to@) == before + all.take(2 * i as int),
        decreases from@.len() - i,
    {
        broadcast use text::texts_push;

        to.push(from[i].0.clone());
        to.push(from[i].1.clone());
        assert(all[2 * i as int] == from@[i as int].0@);
        assert(all[2 * i as int + 1] == from@[i as int].1@);
        assert(all.take(2 * (i + 1)) =~= all.take(2 * i as int).push(all[2 * i as int]).push(
            all[2 * i as int + 1],
        ));
        i += 1;
    }
    assert(all.take(2 * i as int) =~= all);
}

fn first_eight(bytes: &Vec<u8>) -> (r: u64)
    requires
        bytes@.len() >= 8,
    ensures
        r == big_endian(bytes@.take(8)),
{
    let ghost all = bytes@.take(8);
    let mut n: u64 = 0;
    let mut i: usize = 0;
    let ghost mut limit: nat = 1;
    assert(all.take(0) =~= seq![]);
    proof {
        vstd::arithmetic::power::lemma_pow0(256);
    }
    while i < 8
        invariant
            i <= 8,
            bytes@.len() >= 8,
            all == bytes@.take(8),
            n == big_endian(all.take(i as int)),
            n < limit,
            limit == vstd::arithmetic::power::pow(256, i as nat),
        decreases 8 - i,
    {
        proof {
            assert(all.take(i + 1).drop_last() =~= all.take(i as int));
            vstd::arithmetic::power::lemma_pow_adds(256, i as nat, 1);
            vstd::arithmetic::power::lemma_pow1(256);
            vstd::arithmetic::power::lemma_pow_increases(256, (i + 1) as nat, 8);
            assert(vstd::arithmetic::power::pow(256, 8) == 0x1_0000_0000_0000_0000) by {
                reveal_with_fuel(vstd::arithmetic::power::pow, 9);
            }
            limit = limit * 256;
        }
        n = n * 256 + bytes[i] as u64;
        i += 1;
    }
    assert(all.take(8) =~= all);
    n
}

impl ExecSpec {
    /// A stable id for consent (never stored; env values are part of it).
    pub fn consent_key(&self) -> (key: u64)
        ensures
            key == id_of(self@),
    {
        broadcast use text::texts_push;

        let mut all: Vec<String> = Vec::new();
        all.push(self.command.clone());
        all.push(text::decimal_text(self.args.len() as u128));
        push_all(&mut all, &self.args);
        push_pairs(&mut all, &self.env);
        all.push(self.api_version.clone());
        all.push(self.interactive_mode.clone());
        all.push(
            if self.provide_cluster_info {
                "true".to_string()
            } else {
                "false".to_string()
            },
        );
        assert(text::texts(all@) =~= parts(self@));
        let framed: String = framed_text(&all);
        let digest: Vec<u8> = outside::sha256_digest(framed.as_str().as_bytes());
        first_eight(&digest)
    }
}

// ----- Laws -----

proof fn lemma_framed(a: Seq<char>, x: Seq<char>, b: Seq<char>, y: Seq<char>)
    requires
        framed(a) + x == framed(b) + y,
    ensures
        a == b,
        x == y,
{
    let s = framed(a) + x;
    let n = text::decimal(a.len());
    let m = text::decimal(b.len());
    text::lemma_decimal_digits(a.len());
    text::lemma_decimal_digits(b.len());
    assert(s[n.len() as int] == ':');
    assert((framed(b) + y)[m.len() as int] == ':');
    assert forall|j: int| 0 <= j < n.len() implies s[j] != ':' by {
        assert(s[j] == n[j]);
        assert(text::is_digit(n[j]));
    }
    assert forall|j: int| 0 <= j < m.len() implies s[j] != ':' by {
        assert((framed(b) + y)[j] == m[j]);
        assert(text::is_digit(m[j]));
    }
    text::lemma_char_index_is(s, ':', n.len() as int);
    text::lemma_char_index_is(s, ':', m.len() as int);
    assert(s.take(n.len() as int) =~= n);
    assert((framed(b) + y).take(m.len() as int) =~= m);
    document::lemma_decimal_injective(a.len(), b.len());
    let from = n.len() as int + 1;
    assert(s.subrange(from, from + a.len()) =~= a);
    assert((framed(b) + y).subrange(from, from + b.len()) =~= b);
    assert(s.skip(from + a.len()) =~= x);
    assert((framed(b) + y).skip(from + b.len()) =~= y);
}

proof fn lemma_framed_all(a: Seq<Seq<char>>, b: Seq<Seq<char>>)
    requires
        framed_all(a) == framed_all(b),
    ensures
        a == b,
    decreases a.len(),
{
    if a.len() == 0 && b.len() == 0 {
        assert(a =~= b);
    } else if a.len() == 0 || b.len() == 0 {
        assert(framed_all(a).len() != framed_all(b).len());
    } else {
        lemma_framed(a[0], framed_all(a.drop_first()), b[0], framed_all(b.drop_first()));
        lemma_framed_all(a.drop_first(), b.drop_first());
        assert(a =~= seq![a[0]] + a.drop_first());
        assert(b =~= seq![b[0]] + b.drop_first());
    }
}

/// Two plugins of which the same is hashed are the same in every part: the command, each
/// argument, each variable with its value, and how they are run.
pub proof fn the_whole_plugin_is_hashed(p: Plugin, q: Plugin)
    requires
        framed_all(parts(p)) == framed_all(parts(q)),
    ensures
        p == q,
{
    lemma_framed_all(parts(p), parts(q));
    let a = parts(p);
    let b = parts(q);
    assert(a[1] == text::decimal(p.args.len()));
    assert(b[1] == text::decimal(q.args.len()));
    document::lemma_decimal_injective(p.args.len(), q.args.len());
    assert(a[0] == p.command && b[0] == q.command);
    let n = p.args.len() as int;
    assert(a.subrange(2, 2 + n) =~= p.args);
    assert(b.subrange(2, 2 + n) =~= q.args);
    assert(a.len() == 5 + n + 2 * p.env.len());
    assert(b.len() == 5 + n + 2 * q.env.len());
    let m = p.env.len() as int;
    assert forall|i: int| 0 <= i < m implies p.env[i] == q.env[i] by {
        assert(flat(p.env)[2 * i] == p.env[i].0 && flat(p.env)[2 * i + 1] == p.env[i].1);
        assert(flat(q.env)[2 * i] == q.env[i].0 && flat(q.env)[2 * i + 1] == q.env[i].1);
        assert(a[2 + n + 2 * i] == flat(p.env)[2 * i]);
        assert(b[2 + n + 2 * i] == flat(q.env)[2 * i]);
        assert(a[2 + n + 2 * i + 1] == flat(p.env)[2 * i + 1]);
        assert(b[2 + n + 2 * i + 1] == flat(q.env)[2 * i + 1]);
    }
    assert(p.env =~= q.env);
    let end = 2 + n + 2 * m;
    assert(a[end] == p.api_version && b[end] == q.api_version);
    assert(a[end + 1] == p.interactive_mode && b[end + 1] == q.interactive_mode);
    assert(a[end + 2] == b[end + 2]);
    reveal_strlit("true");
    reveal_strlit("false");
    assert("true"@.len() == 4 && "false"@.len() == 5);
}

} // verus!
