//! IP addresses as text.

use crate::text::{self, cat3, decimal_text, join};
use vstd::prelude::*;

verus! {

/// Dotted decimal.
pub open spec fn v4_text(b: Seq<u8>) -> Seq<char> {
    text::decimal(b[0] as nat) + "."@ + text::decimal(b[1] as nat) + "."@ + text::decimal(
        b[2] as nat,
    ) + "."@ + text::decimal(b[3] as nat)
}

/// `n` in hexadecimal.
pub open spec fn hex_number(n: nat) -> Seq<char>
    decreases n,
{
    if n < 16 {
        seq![text::hex_digit(n as int, 'a')]
    } else {
        hex_number(n / 16).push(text::hex_digit((n % 16) as int, 'a'))
    }
}

/// The sixteen-bit groups of an address.
pub open spec fn groups(b: Seq<u8>) -> Seq<nat> {
    Seq::new(b.len() / 2, |i: int| (b[2 * i] as nat) * 256 + b[2 * i + 1] as nat)
}

/// Groups in hexadecimal with colons between them.
pub open spec fn groups_text(g: Seq<nat>) -> Seq<char> {
    text::joined(Seq::new(g.len(), |i: int| hex_number(g[i])), ":"@)
}

/// How many zeros stand in a row from `i` on.
pub open spec fn zeros_from(g: Seq<nat>, i: int) -> nat
    decreases g.len() - i,
{
    if 0 <= i < g.len() && g[i] == 0 {
        1 + zeros_from(g, i + 1)
    } else {
        0
    }
}

/// `at` starts a longest row of zeros, and none as long starts before it.
pub open spec fn longest_at(g: Seq<nat>, at: int) -> bool {
    &&& 0 <= at < g.len()
    &&& forall|j: int| 0 <= j < g.len() ==> #[trigger] zeros_from(g, j) <= zeros_from(g, at)
    &&& forall|j: int| 0 <= j < at ==> #[trigger] zeros_from(g, j) < zeros_from(g, at)
}

/// Colon hexadecimal: the first longest row of at least two zeros is left out, and an IPv4
/// address in an IPv6 one is written dotted.
pub open spec fn v6_text(b: Seq<u8>) -> Seq<char> {
    let g = groups(b);
    let at = choose|at: int| longest_at(g, at);
    let n = zeros_from(g, at);
    if g.take(5) == seq![0nat, 0nat, 0nat, 0nat, 0nat] && g[5] == 0xffff {
        "::ffff:"@ + v4_text(b.skip(12))
    } else if n > 1 {
        groups_text(g.take(at)) + "::"@ + groups_text(g.skip(at + n))
    } else {
        groups_text(g)
    }
}

/// An address of four or sixteen bytes; none of another length.
pub open spec fn ip_text(b: Seq<u8>) -> Option<Seq<char>> {
    if b.len() == 4 {
        Some(v4_text(b))
    } else if b.len() == 16 {
        Some(v6_text(b))
    } else {
        None
    }
}

fn v4_to_text(b: &Vec<u8>, from: usize) -> (r: String)
    requires
        from + 4 == b@.len(),
    ensures
        r@ == v4_text(b@.skip(from as int)),
{
    let len: usize = b.len();
    assert(from + 4 == len);
    let mut out: String = decimal_text(b[from] as u128);
    out.append(".");
    out.append(decimal_text(b[from + 1] as u128).as_str());
    out.append(".");
    out.append(decimal_text(b[from + 2] as u128).as_str());
    out.append(".");
    out.append(decimal_text(b[from + 3] as u128).as_str());
    out
}

fn hex_to_text(n: u16) -> (r: String)
    ensures
        r@ == hex_number(n as nat),
    decreases n,
{
    let low: u8 = (n % 16) as u8;
    let mut out: String = if n < 16 {
        String::new()
    } else {
        hex_to_text(n / 16)
    };
    out.push(if low < 10 {
        (low + 0x30) as char
    } else {
        (low - 10 + 0x61) as char
    });
    assert(n < 16 ==> out@ =~= hex_number(n as nat));
    out
}

/// The groups from `from` to `to` as text.
fn groups_to_text(g: &Vec<u16>, from: usize, to: usize) -> (r: String)
    requires
        from <= to <= g@.len(),
    ensures
        r@ == groups_text(numbers(g@).subrange(from as int, to as int)),
{
    let mut parts: Vec<String> = Vec::new();
    let ghost part = numbers(g@).subrange(from as int, to as int);
    let ghost all = Seq::new(part.len(), |i: int| hex_number(part[i]));
    let mut i: usize = from;
    assert(text::texts(parts@) =~= all.take(0));
    while i < to
        invariant
            from <= i <= to <= g@.len(),
            part == numbers(g@).subrange(from as int, to as int),
            all == Seq::new(part.len(), |i: int| hex_number(part[i])),
            text::texts(parts@) == all.take(i - from),
        decreases to - i,
    {
        broadcast use text::texts_push;

        parts.push(hex_to_text(g[i]));
        assert(all[i - from] == hex_number(g@[i as int] as nat));
        assert(all.take(i - from + 1) =~= all.take(i - from).push(all[i - from]));
        i += 1;
    }
    assert(all.take(to - from) =~= all);
    join(&parts, ":")
}

pub open spec fn numbers(g: Seq<u16>) -> Seq<nat> {
    Seq::new(g.len(), |i: int| g[i] as nat)
}

/// There is one first longest row.
proof fn lemma_longest_is(g: Seq<nat>, at: int)
    requires
        longest_at(g, at),
    ensures
        (choose|at: int| longest_at(g, at)) == at,
{
    let other = choose|at: int| longest_at(g, at);
    assert(longest_at(g, other));
    assert(zeros_from(g, other) <= zeros_from(g, at));
    assert(zeros_from(g, at) <= zeros_from(g, other));
}

fn zeros(g: &Vec<u16>, from: usize) -> (r: usize)
    requires
        from <= g@.len(),
    ensures
        r == zeros_from(numbers(g@), from as int),
        from + r <= g@.len(),
    decreases g@.len() - from,
{
    if from < g.len() && g[from] == 0 {
        let rest: usize = zeros(g, from + 1);
        1 + rest
    } else {
        0
    }
}

fn v6_to_text(b: &Vec<u8>) -> (r: String)
    requires
        b@.len() == 16,
    ensures
        r@ == v6_text(b@),
{
    let mut g: Vec<u16> = Vec::new();
    let mut i: usize = 0;
    while i < 8
        invariant
            i <= 8,
            b@.len() == 16,
            numbers(g@) =~= groups(b@).take(i as int),
        decreases 8 - i,
    {
        let ghost before = g@;
        g.push((b[2 * i] as u16) * 256 + b[2 * i + 1] as u16);
        assert(numbers(g@) =~= numbers(before).push(groups(b@)[i as int]));
        i += 1;
    }
    let ghost all = groups(b@);
    assert(numbers(g@) =~= all);
    let mapped: bool = g[0] == 0 && g[1] == 0 && g[2] == 0 && g[3] == 0 && g[4] == 0 && g[5]
        == 0xffff;
    proof {
        assert(forall|j: int| 0 <= j < 8 ==> (#[trigger] all[j]) == g@[j] as nat);
        let first = seq![0nat, 0nat, 0nat, 0nat, 0nat];
        assert(all[0] == g@[0] && all[1] == g@[1] && all[2] == g@[2] && all[3] == g@[3]);
        assert(all[4] == g@[4] && all[5] == g@[5]);
        if mapped {
            assert(all.take(5) =~= first);
        } else if all.take(5) == first {
            assert(all.take(5)[0] == 0 && all.take(5)[1] == 0 && all.take(5)[2] == 0);
            assert(all.take(5)[3] == 0 && all.take(5)[4] == 0);
        }
    }
    if mapped {
        let dotted: String = v4_to_text(b, 12);
        return text::cat("::ffff:", dotted.as_str());
    }
    let mut best: usize = 0;
    let mut most: usize = zeros(&g, 0);
    let mut j: usize = 1;
    while j < 8
        invariant
            1 <= j <= 8,
            g@.len() == 8,
            all == numbers(g@),
            best < j,
            most == zeros_from(all, best as int),
            best + most <= 8,
            forall|k: int| 0 <= k < j ==> #[trigger] zeros_from(all, k) <= most,
            forall|k: int| 0 <= k < best ==> #[trigger] zeros_from(all, k) < most,
        decreases 8 - j,
    {
        let n: usize = zeros(&g, j);
        if n > most {
            best = j;
            most = n;
        }
        j += 1;
    }
    proof {
        assert(longest_at(all, best as int));
        lemma_longest_is(all, best as int);
        assert(all.take(best as int) =~= all.subrange(0, best as int));
        assert(all.skip(best + most) =~= all.subrange(best + most, 8));
        assert(all.subrange(0, 8) =~= all);
    }
    if most > 1 {
        cat3(
            groups_to_text(&g, 0, best).as_str(),
            "::",
            groups_to_text(&g, best + most, 8).as_str(),
        )
    } else {
        groups_to_text(&g, 0, 8)
    }
}

/// An address of four or sixteen bytes as text; none of another length.
pub fn ip_to_text(b: &Vec<u8>) -> (r: Option<String>)
    ensures
        text::text_of(r) == ip_text(b@),
{
    if b.len() == 4 {
        assert(b@.skip(0) =~= b@);
        Some(v4_to_text(b, 0))
    } else if b.len() == 16 {
        Some(v6_to_text(b))
    } else {
        None
    }
}

} // verus!
