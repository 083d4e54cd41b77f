//! Free names: a name with the first number that isn't taken.

use crate::document;
use crate::text::{self, decimal_text, same};
use vstd::prelude::*;

verus! {

/// `head-n` and what follows it.
pub open spec fn numbered(head: Seq<char>, n: nat, tail: Seq<char>) -> Seq<char> {
    head + "-"@ + text::decimal(n) + tail
}

/// `n` is the first number from `from` on whose name isn't taken.
pub open spec fn first_free(
    taken: Seq<Seq<char>>,
    head: Seq<char>,
    tail: Seq<char>,
    from: nat,
    n: nat,
) -> bool {
    &&& n >= from
    &&& !taken.contains(numbered(head, n, tail))
    &&& forall|m: nat| from <= m < n ==> taken.contains(#[trigger] numbered(head, m, tail))
}

/// The first free number.
pub open spec fn free_number(
    taken: Seq<Seq<char>>,
    head: Seq<char>,
    tail: Seq<char>,
    from: nat,
) -> nat {
    choose|n: nat| first_free(taken, head, tail, from, n)
}

proof fn lemma_numbered_injective(head: Seq<char>, tail: Seq<char>, a: nat, b: nat)
    requires
        numbered(head, a, tail) == numbered(head, b, tail),
    ensures
        a == b,
{
    let x = numbered(head, a, tail);
    let y = numbered(head, b, tail);
    let n = x.len() - tail.len();
    assert(x.take(n) =~= document::numbered(head, a));
    assert(y.take(n) =~= document::numbered(head, b));
    document::lemma_numbered_injective(head, a, b);
}

/// Where a name stands in a list that holds it.
spec fn place_of(taken: Seq<Seq<char>>, name: Seq<char>) -> int {
    choose|i: int| 0 <= i < taken.len() && taken[i] == name
}

/// Numbers whose names are all taken don't reach further than the list is long.
proof fn lemma_taken_numbers(
    taken: Seq<Seq<char>>,
    head: Seq<char>,
    tail: Seq<char>,
    from: nat,
    upto: nat,
)
    requires
        from <= upto,
        forall|m: nat| from <= m < upto ==> taken.contains(#[trigger] numbered(head, m, tail)),
    ensures
        upto <= from + taken.len(),
{
    let count = (upto - from) as nat;
    let at = Seq::new(count, |i: int| place_of(taken, numbered(head, (from + i) as nat, tail)));
    assert forall|i: int| 0 <= i < count implies 0 <= #[trigger] at[i] < taken.len()
        && taken[at[i]] == numbered(head, (from + i) as nat, tail) by {
        assert(taken.contains(numbered(head, (from + i) as nat, tail)));
    }
    assert forall|i: int, j: int| 0 <= i < count && 0 <= j < count && i != j implies at[i]
        != at[j] by {
        if at[i] == at[j] {
            lemma_numbered_injective(head, tail, (from + i) as nat, (from + j) as nat);
        }
    }
    assert(at.no_duplicates());
    at.unique_seq_to_set();
    let all = vstd::set_lib::set_int_range(0, taken.len() as int);
    vstd::set_lib::lemma_int_range(0, taken.len() as int);
    assert forall|x: int| at.to_set().contains(x) implies all.contains(x) by {
        let i = choose|i: int| 0 <= i < at.len() && at[i] == x;
        assert(0 <= at[i] < taken.len());
    }
    vstd::set_lib::lemma_len_subset(at.to_set(), all);
}

proof fn lemma_first_free_is(
    taken: Seq<Seq<char>>,
    head: Seq<char>,
    tail: Seq<char>,
    from: nat,
    n: nat,
)
    requires
        first_free(taken, head, tail, from, n),
    ensures
        free_number(taken, head, tail, from) == n,
{
    let other = free_number(taken, head, tail, from);
    assert(first_free(taken, head, tail, from, other));
    if other < n {
        assert(taken.contains(numbered(head, other, tail)));
    }
    if n < other {
        assert(taken.contains(numbered(head, n, tail)));
    }
}

/// Some number is free, from any number on.
pub proof fn a_number_is_free(taken: Seq<Seq<char>>, head: Seq<char>, tail: Seq<char>, from: nat)
    ensures
        first_free(taken, head, tail, from, free_number(taken, head, tail, from)),
{
    lemma_free_from(taken, head, tail, from, from);
}

proof fn lemma_free_from(
    taken: Seq<Seq<char>>,
    head: Seq<char>,
    tail: Seq<char>,
    from: nat,
    n: nat,
)
    requires
        from <= n,
        forall|m: nat| from <= m < n ==> taken.contains(#[trigger] numbered(head, m, tail)),
    ensures
        exists|k: nat| first_free(taken, head, tail, from, k),
    decreases from + taken.len() - n,
{
    lemma_taken_numbers(taken, head, tail, from, n);
    if taken.contains(numbered(head, n, tail)) {
        lemma_taken_numbers(taken, head, tail, from, n + 1);
        lemma_free_from(taken, head, tail, from, n + 1);
    } else {
        assert(first_free(taken, head, tail, from, n));
    }
}

/// Whether a list holds a text.
pub fn holds(list: &Vec<String>, s: &str) -> (r: bool)
    ensures
        r == text::texts(list@).contains(s@),
{
    let ghost all = text::texts(list@);
    let mut i: usize = 0;
    while i < list.len()
        invariant
            i <= list@.len(),
            all == text::texts(list@),
            forall|j: int| 0 <= j < i ==> #[trigger] all[j] != s@,
        decreases list@.len() - i,
    {
        assert(all[i as int] == list@[i as int]@);
        if same(list[i].as_str(), s) {
            return true;
        }
        i += 1;
    }
    false
}

/// The name with the first free number from `from` on.
pub fn free_name(taken: &Vec<String>, head: &str, tail: &str, from: u64) -> (r: String)
    ensures
        r@ == numbered(
            head@,
            free_number(text::texts(taken@), head@, tail@, from as nat),
            tail@,
        ),
        !text::texts(taken@).contains(r@),
{
    let len: usize = taken.len();
    let ghost all = text::texts(taken@);
    let mut n: u128 = from as u128;
    loop
        invariant
            all == text::texts(taken@),
            all.len() == len,
            from <= n <= from + len,
            forall|m: nat|
                from <= m < n ==> all.contains(#[trigger] numbered(head@, m, tail@)),
        ensures
            first_free(all, head@, tail@, from as nat, n as nat),
        decreases from + len - n,
    {
        let name: String = text::cat4(head, "-", decimal_text(n).as_str(), tail);
        if !holds(taken, name.as_str()) {
            break;
        }
        proof {
            lemma_taken_numbers(all, head@, tail@, from as nat, (n + 1) as nat);
        }
        n += 1;
    }
    proof {
        lemma_first_free_is(all, head@, tail@, from as nat, n as nat);
    }
    text::cat4(head, "-", decimal_text(n).as_str(), tail)
}

} // verus!
