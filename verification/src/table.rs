//! A table by document and context: at most one value under each key.

use crate::text::same;
use vstd::prelude::*;

verus! {

/// Which test: a document (its path, or `draft:<n>` / `wizard:<n>`) and a context.
#[derive(Debug, PartialEq, Eq, Hash)]
pub struct TestKey {
    pub doc: String,
    pub context: String,
}

impl View for TestKey {
    type V = (Seq<char>, Seq<char>);

    open spec fn view(&self) -> (Seq<char>, Seq<char>) {
        (self.doc@, self.context@)
    }
}

impl TestKey {
    pub fn new(doc: &str, context: &str) -> (r: TestKey)
        ensures
            r@ == (doc@, context@),
    {
        TestKey { doc: doc.to_string(), context: context.to_string() }
    }

    fn is(&self, other: &TestKey) -> (r: bool)
        ensures
            r == (self@ == other@),
    {
        same(self.doc.as_str(), other.doc.as_str()) && same(
            self.context.as_str(),
            other.context.as_str(),
        )
    }
}

impl Clone for TestKey {
    fn clone(&self) -> (r: TestKey)
        ensures
            r@ == self@,
    {
        TestKey { doc: self.doc.clone(), context: self.context.clone() }
    }
}

/// A table by document and context.
#[derive(Debug)]
pub struct Table<T> {
    entries: Vec<(TestKey, T)>,
}

/// No two entries have the same key.
spec fn distinct<T>(entries: Seq<(TestKey, T)>) -> bool {
    forall|i: int, j: int|
        0 <= i < j < entries.len() ==> (#[trigger] entries[i]).0@ != (#[trigger] entries[j]).0@
}

/// Where the entry with a key stands.
spec fn place<T>(entries: Seq<(TestKey, T)>, key: (Seq<char>, Seq<char>)) -> int {
    choose|i: int| 0 <= i < entries.len() && (#[trigger] entries[i]).0@ == key
}

spec fn holds<T>(entries: Seq<(TestKey, T)>, key: (Seq<char>, Seq<char>)) -> bool {
    exists|i: int| 0 <= i < entries.len() && (#[trigger] entries[i]).0@ == key
}

/// What a table maps its keys to.
spec fn mapping<T>(entries: Seq<(TestKey, T)>) -> Map<(Seq<char>, Seq<char>), T> {
    Map::new(
        |key: (Seq<char>, Seq<char>)| holds(entries, key),
        |key: (Seq<char>, Seq<char>)| entries[place(entries, key)].1,
    )
}

proof fn lemma_place<T>(entries: Seq<(TestKey, T)>, i: int)
    requires
        distinct(entries),
        0 <= i < entries.len(),
    ensures
        holds(entries, entries[i].0@),
        place(entries, entries[i].0@) == i,
        mapping(entries).contains_key(entries[i].0@),
        mapping(entries)[entries[i].0@] == entries[i].1,
{
    let key = entries[i].0@;
    assert(holds(entries, key));
    let p = place(entries, key);
    assert(entries[p].0@ == key);
    if p < i {
        assert(entries[p].0@ != entries[i].0@);
    }
    if i < p {
        assert(entries[i].0@ != entries[p].0@);
    }
}

impl<T> View for Table<T> {
    type V = Map<(Seq<char>, Seq<char>), T>;

    closed spec fn view(&self) -> Map<(Seq<char>, Seq<char>), T> {
        mapping(self.entries@)
    }
}

impl<T> Table<T> {
    pub closed spec fn well_formed(&self) -> bool {
        distinct(self.entries@)
    }

    pub fn new() -> (r: Table<T>)
        ensures
            r.well_formed(),
            r@ == Map::<(Seq<char>, Seq<char>), T>::empty(),
    {
        let r = Table { entries: Vec::new() };
        assert(r@ =~= Map::empty());
        r
    }

    fn position(&self, key: &TestKey) -> (r: Option<usize>)
        requires
            self.well_formed(),
        ensures
            match r {
                Some(i) => i < self.entries@.len() && self.entries@[i as int].0@ == key@,
                None => !self@.contains_key(key@),
            },
    {
        let mut i: usize = 0;
        while i < self.entries.len()
            invariant
                i <= self.entries@.len(),
                forall|j: int| 0 <= j < i ==> (#[trigger] self.entries@[j]).0@ != key@,
            decreases self.entries@.len() - i,
        {
            if self.entries[i].0.is(key) {
                return Some(i);
            }
            i += 1;
        }
        None
    }

    pub fn get(&self, key: &TestKey) -> (r: Option<&T>)
        requires
            self.well_formed(),
        ensures
            match r {
                Some(v) => self@.contains_key(key@) && self@[key@] == *v,
                None => !self@.contains_key(key@),
            },
    {
        match self.position(key) {
            Some(i) => {
                proof {
                    lemma_place(self.entries@, i as int);
                }
                Some(&self.entries[i].1)
            },
            None => None,
        }
    }

    /// Puts a value under a key, in place of the one that was there.
    pub fn set(&mut self, key: TestKey, value: T)
        requires
            old(self).well_formed(),
        ensures
            final(self).well_formed(),
            final(self)@ == old(self)@.insert(key@, value),
    {
        let ghost before = self.entries@;
        let ghost k = key@;
        match self.position(&key) {
            Some(i) => {
                self.entries.set(i, (key, value));
                proof {
                    let now = self.entries@;
                    assert(now == before.update(i as int, (key, value)));
                    assert(distinct(now));
                    assert forall|x: (Seq<char>, Seq<char>)| mapping(now).contains_key(x)
                        <==> mapping(before).insert(k, value).contains_key(x) by {
                        if holds(now, x) {
                            let p = place(now, x);
                            assert(before[p].0@ == now[p].0@);
                        }
                        if holds(before, x) {
                            let p = place(before, x);
                            assert(now[p].0@ == before[p].0@);
                        }
                        assert(now[i as int].0@ == k);
                    }
                    assert forall|x: (Seq<char>, Seq<char>)| mapping(now).contains_key(x) implies mapping(
                        now,
                    )[x] == mapping(before).insert(k, value)[x] by {
                        let p = place(now, x);
                        lemma_place(now, p);
                        if x != k {
                            assert(before[p] == now[p]);
                            lemma_place(before, p);
                        } else {
                            lemma_place(now, i as int);
                        }
                    }
                    assert(mapping(now) =~= mapping(before).insert(k, value));
                }
            },
            None => {
                self.entries.push((key, value));
                proof {
                    let now = self.entries@;
                    let last = now.len() - 1;
                    assert(now[last].0@ == k);
                    assert forall|i: int| 0 <= i < before.len() implies (
                    #[trigger] before[i]).0@ != k by {
                        if before[i].0@ == k {
                            assert(holds(before, k));
                        }
                    }
                    assert forall|i: int, j: int| 0 <= i < j < now.len() implies (
                    #[trigger] now[i]).0@ != (#[trigger] now[j]).0@ by {
                        assert(now[i] == before[i]);
                        if j < last {
                            assert(now[j] == before[j]);
                        }
                    }
                    assert(distinct(now));
                    assert forall|x: (Seq<char>, Seq<char>)| mapping(now).contains_key(x)
                        <==> mapping(before).insert(k, value).contains_key(x) by {
                        if holds(now, x) {
                            let p = place(now, x);
                            if p < last {
                                assert(before[p] == now[p]);
                            }
                        }
                        if holds(before, x) {
                            let p = place(before, x);
                            assert(now[p] == before[p]);
                        }
                    }
                    assert forall|x: (Seq<char>, Seq<char>)| mapping(now).contains_key(x) implies mapping(
                        now,
                    )[x] == mapping(before).insert(k, value)[x] by {
                        let p = place(now, x);
                        lemma_place(now, p);
                        if p < last {
                            assert(before[p] == now[p]);
                            lemma_place(before, p);
                        }
                    }
                    assert(mapping(now) =~= mapping(before).insert(k, value));
                }
            },
        }
    }

    /// Takes out the value under a key.
    pub fn take(&mut self, key: &TestKey) -> (r: Option<T>)
        requires
            old(self).well_formed(),
        ensures
            final(self).well_formed(),
            final(self)@ == old(self)@.remove(key@),
            match r {
                Some(v) => old(self)@.contains_key(key@) && old(self)@[key@] == v,
                None => !old(self)@.contains_key(key@),
            },
    {
        let ghost before = self.entries@;
        match self.position(key) {
            Some(i) => {
                proof {
                    lemma_place(before, i as int);
                }
                let (_, value) = self.entries.remove(i);
                proof {
                    let now = self.entries@;
                    assert(now == before.remove(i as int));
                    lemma_removed(before, i as int);
                }
                Some(value)
            },
            None => {
                assert(self@.remove(key@) =~= self@);
                None
            },
        }
    }

    /// Takes out everything of a document.
    pub fn forget(&mut self, doc: &str)
        requires
            old(self).well_formed(),
        ensures
            final(self).well_formed(),
            final(self)@ == old(self)@.restrict(
                Set::new(|key: (Seq<char>, Seq<char>)| key.0 != doc@),
            ),
    {
        let ghost kept = Set::new(|key: (Seq<char>, Seq<char>)| key.0 != doc@);
        let ghost start = self@;
        let mut i: usize = 0;
        while i < self.entries.len()
            invariant
                i <= self.entries@.len(),
                self.well_formed(),
                kept == Set::new(|key: (Seq<char>, Seq<char>)| key.0 != doc@),
                self@.restrict(kept) =~= start.restrict(kept),
                forall|j: int| 0 <= j < i ==> (#[trigger] self.entries@[j]).0@.0 != doc@,
            decreases self.entries@.len() - i,
        {
            let ghost before = self.entries@;
            if same(self.entries[i].0.doc.as_str(), doc) {
                proof {
                    lemma_place(before, i as int);
                    lemma_removed(before, i as int);
                }
                self.entries.remove(i);
                proof {
                    let key = before[i as int].0@;
                    assert(!kept.contains(key));
                    assert(mapping(before).remove(key).restrict(kept) =~= mapping(before).restrict(
                        kept,
                    ));
                }
            } else {
                i += 1;
            }
        }
        proof {
            let now = self.entries@;
            assert forall|x: (Seq<char>, Seq<char>)| mapping(now).contains_key(x) implies kept.contains(
                x,
            ) by {
                let p = place(now, x);
                assert(now[p].0@ == x);
            }
            assert(self@.restrict(kept) =~= self@);
        }
    }

    /// Everything of a document, with its context: each entry once, in no particular order.
    pub fn of_doc(&self, doc: &str) -> (r: Vec<(&str, &T)>)
        requires
            self.well_formed(),
        ensures
            forall|i: int|
                0 <= i < r@.len() ==> self@.contains_key((doc@, (#[trigger] r@[i]).0@))
                    && self@[(doc@, r@[i].0@)] == *r@[i].1,
            forall|context: Seq<char>|
                #[trigger] self@.contains_key((doc@, context)) ==> exists|i: int|
                    0 <= i < r@.len() && (#[trigger] r@[i]).0@ == context,
            forall|i: int, j: int|
                0 <= i < j < r@.len() ==> (#[trigger] r@[i]).0@ != (#[trigger] r@[j]).0@,
    {
        let mut out: Vec<(&str, &T)> = Vec::new();
        let ghost mut from: Seq<int> = Seq::empty();
        let mut i: usize = 0;
        while i < self.entries.len()
            invariant
                i <= self.entries@.len(),
                self.well_formed(),
                from.len() == out@.len(),
                forall|j: int|
                    0 <= j < from.len() ==> 0 <= #[trigger] from[j] < i && self.entries@[from[j]].0@
                        == (doc@, out@[j].0@) && self.entries@[from[j]].1 == *out@[j].1,
                forall|j: int, k: int|
                    0 <= j < k < from.len() ==> #[trigger] from[j] < #[trigger] from[k],
                forall|k: int|
                    0 <= k < i && (#[trigger] self.entries@[k]).0@.0 == doc@ ==> exists|j: int|
                        0 <= j < from.len() && #[trigger] from[j] == k,
            decreases self.entries@.len() - i,
        {
            let ghost had = from;
            if same(self.entries[i].0.doc.as_str(), doc) {
                out.push((self.entries[i].0.context.as_str(), &self.entries[i].1));
                proof {
                    from = from.push(i as int);
                    assert(from[had.len() as int] == i);
                }
            }
            proof {
                assert forall|k: int|
                    0 <= k < i + 1 && (#[trigger] self.entries@[k]).0@.0
                        == doc@ implies exists|j: int|
                    0 <= j < from.len() && #[trigger] from[j] == k by {
                    if k < i {
                        let j = choose|j: int| 0 <= j < had.len() && #[trigger] had[j] == k;
                        assert(from[j] == k);
                    }
                }
            }
            i += 1;
        }
        proof {
            assert forall|j: int| 0 <= j < out@.len() implies self@.contains_key(
                (doc@, (#[trigger] out@[j]).0@),
            ) && self@[(doc@, out@[j].0@)] == *out@[j].1 by {
                assert(from[j] == from[j]);
                lemma_place(self.entries@, from[j]);
            }
            assert forall|context: Seq<char>| #[trigger] self@.contains_key(
                (doc@, context),
            ) implies exists|j: int| 0 <= j < out@.len() && (#[trigger] out@[j]).0@ == context by {
                let p = place(self.entries@, (doc@, context));
                assert(self.entries@[p].0@ == (doc@, context));
                let j = choose|j: int| 0 <= j < from.len() && #[trigger] from[j] == p;
                assert(out@[j].0@ == context);
            }
            assert forall|j: int, k: int| 0 <= j < k < out@.len() implies (#[trigger] out@[j]).0@
                != (#[trigger] out@[k]).0@ by {
                assert(from[j] < from[k]);
                assert(self.entries@[from[j]].0@ != self.entries@[from[k]].0@);
            }
        }
        out
    }
}

proof fn lemma_removed<T>(entries: Seq<(TestKey, T)>, i: int)
    requires
        distinct(entries),
        0 <= i < entries.len(),
    ensures
        distinct(entries.remove(i)),
        mapping(entries.remove(i)) == mapping(entries).remove(entries[i].0@),
{
    let now = entries.remove(i);
    let key = entries[i].0@;
    assert forall|a: int, b: int| 0 <= a < b < now.len() implies (#[trigger] now[a]).0@ != (
    #[trigger] now[b]).0@ by {
        let x = if a < i {
            a
        } else {
            a + 1
        };
        let y = if b < i {
            b
        } else {
            b + 1
        };
        assert(now[a] == entries[x] && now[b] == entries[y]);
    }
    assert forall|x: (Seq<char>, Seq<char>)| mapping(now).contains_key(x) <==> mapping(
        entries,
    ).remove(key).contains_key(x) by {
        if holds(now, x) {
            let p = place(now, x);
            let q = if p < i {
                p
            } else {
                p + 1
            };
            assert(entries[q] == now[p]);
            lemma_place(entries, q);
            lemma_place(entries, i);
        }
        if holds(entries, x) && x != key {
            let p = place(entries, x);
            assert(p != i);
            let q = if p < i {
                p
            } else {
                p - 1
            };
            assert(now[q] == entries[p]);
        }
    }
    assert forall|x: (Seq<char>, Seq<char>)| mapping(now).contains_key(x) implies mapping(now)[x]
        == mapping(entries).remove(key)[x] by {
        let p = place(now, x);
        let q = if p < i {
            p
        } else {
            p + 1
        };
        assert(entries[q] == now[p]);
        lemma_place(now, p);
        lemma_place(entries, q);
    }
    assert(mapping(now) =~= mapping(entries).remove(key));
}

} // verus!
