//! Background watches every connected cluster runs: namespaces and CRDs. Each takes the watch's
//! events and says what to report.

use crate::text::{self, same};
use vstd::prelude::*;

verus! {

/// What the namespace watch reports.
#[derive(Debug, PartialEq, Eq)]
pub enum NamespaceUpdate {
    /// The full, sorted list.
    Names(Vec<String>),
    /// Listing namespaces is forbidden; use fallbacks.
    Forbidden,
}

/// What a watch sends: an object with a name (and a generation, for CRDs).
#[derive(Debug)]
pub enum WatchEvent {
    /// A new list starts.
    Init,
    /// An object of the new list.
    InitApply { name: String, generation: i64 },
    /// The new list is complete.
    InitDone,
    Apply { name: String, generation: i64 },
    Delete { name: String },
}

/// Whether a watch error means that listing is forbidden (its status code, if it has one).
pub fn is_forbidden(code: Option<u16>) -> (r: bool)
    ensures
        r == (code == Some(403u16)),
{
    match code {
        Some(c) => c == 403,
        None => false,
    }
}

// ----- Namespaces -----

/// The texts in a list, as a set.
pub open spec fn members(v: Seq<String>) -> Set<Seq<char>> {
    text::texts(v).to_set()
}

/// The namespaces that a watch has seen.
#[derive(Debug)]
pub struct NamespaceWatch {
    pub names: Vec<String>,
    pub initializing: Vec<String>,
}

/// The namespaces after an event: those of the list so far, and of the list that is coming in.
pub open spec fn names_after(
    names: Set<Seq<char>>,
    initializing: Set<Seq<char>>,
    event: WatchEvent,
) -> (Set<Seq<char>>, Set<Seq<char>>) {
    match event {
        WatchEvent::Init => (names, Set::empty()),
        WatchEvent::InitApply { name, generation } => (names, initializing.insert(name@)),
        WatchEvent::InitDone => (initializing, Set::empty()),
        WatchEvent::Apply { name, generation } => (names.insert(name@), initializing),
        WatchEvent::Delete { name } => (names.remove(name@), initializing),
    }
}

/// Whether an event is reported: a complete list, or a change of it.
pub open spec fn reported(names: Set<Seq<char>>, event: WatchEvent) -> bool {
    match event {
        WatchEvent::Init => false,
        WatchEvent::InitApply { .. } => false,
        WatchEvent::InitDone => true,
        WatchEvent::Apply { name, generation } => !names.contains(name@),
        WatchEvent::Delete { name } => names.contains(name@),
    }
}

/// Where a text stands in a list.
fn position(v: &Vec<String>, s: &str) -> (r: Option<usize>)
    ensures
        match r {
            Some(i) => i < v@.len() && v@[i as int]@ == s@ && members(v@).contains(s@),
            None => !members(v@).contains(s@),
        },
{
    let ghost all = text::texts(v@);
    let mut i: usize = 0;
    while i < v.len()
        invariant
            i <= v@.len(),
            all == text::texts(v@),
            forall|j: int| 0 <= j < i ==> #[trigger] all[j] != s@,
        decreases v@.len() - i,
    {
        assert(all[i as int] == v@[i as int]@);
        if same(v[i].as_str(), s) {
            assert(all.contains(s@));
            return Some(i);
        }
        i += 1;
    }
    None
}

fn insert(v: &mut Vec<String>, s: &str)
    requires
        text::ascending(text::texts(old(v)@)),
    ensures
        text::ascending(text::texts(final(v)@)),
        members(final(v)@) == members(old(v)@).insert(s@),
{
    let ghost before = text::texts(v@);
    text::insert_sorted(v, s);
    proof {
        let after = text::texts(v@);
        assert forall|x: Seq<char>| after.to_set().contains(x) <==> before.to_set().insert(
            s@,
        ).contains(x) by {
            assert(after.contains(x) <==> before.contains(x) || x == s@);
        }
        assert(after.to_set() =~= before.to_set().insert(s@));
    }
}

/// Takes a text out of an ascending list. Whether it was there.
fn remove(v: &mut Vec<String>, s: &str) -> (r: bool)
    requires
        text::ascending(text::texts(old(v)@)),
    ensures
        text::ascending(text::texts(final(v)@)),
        members(final(v)@) == members(old(v)@).remove(s@),
        r == members(old(v)@).contains(s@),
{
    let ghost before = text::texts(v@);
    match position(v, s) {
        Some(i) => {
            v.remove(i);
            proof {
                let after = text::texts(v@);
                assert(after =~= before.remove(i as int));
                assert(before[i as int] == s@);
                assert forall|a: int, b: int| 0 <= a < b < after.len() implies text::precedes(
                    #[trigger] after[a],
                    #[trigger] after[b],
                ) by {
                    let x = if a < i {
                        a
                    } else {
                        a + 1
                    };
                    let y = if b < i {
                        b
                    } else {
                        b + 1
                    };
                    assert(after[a] == before[x] && after[b] == before[y]);
                }
                assert forall|x: Seq<char>| after.to_set().contains(x)
                    <==> before.to_set().remove(s@).contains(x) by {
                    if after.contains(x) {
                        let a = choose|a: int| 0 <= a < after.len() && after[a] == x;
                        let p = if a < i {
                            a
                        } else {
                            a + 1
                        };
                        assert(before[p] == x);
                        if p < i {
                            assert(text::precedes(before[p], before[i as int]));
                        } else {
                            assert(text::precedes(before[i as int], before[p]));
                        }
                        text::lemma_precedes_total(before[i as int], before[p]);
                        text::lemma_precedes_total(before[p], before[i as int]);
                    }
                    if before.contains(x) && x != s@ {
                        let p = choose|p: int| 0 <= p < before.len() && before[p] == x;
                        let a = if p < i {
                            p
                        } else {
                            p - 1
                        };
                        assert(after[a] == x);
                    }
                }
                assert(after.to_set() =~= before.to_set().remove(s@));
            }
            true
        },
        None => {
            assert(members(v@).remove(s@) =~= members(v@));
            false
        },
    }
}

impl NamespaceWatch {
    /// Both lists are sorted, without duplicates.
    pub open spec fn well_formed(&self) -> bool {
        text::ascending(text::texts(self.names@)) && text::ascending(
            text::texts(self.initializing@),
        )
    }

    pub fn new() -> (r: NamespaceWatch)
        ensures
            r.well_formed(),
            members(r.names@) == Set::<Seq<char>>::empty(),
            members(r.initializing@) == Set::<Seq<char>>::empty(),
    {
        let r = NamespaceWatch { names: Vec::new(), initializing: Vec::new() };
        assert(members(r.names@) =~= Set::empty());
        assert(members(r.initializing@) =~= Set::empty());
        r
    }

    /// Takes an event and says what to report.
    pub fn event(&mut self, event: WatchEvent) -> (r: Option<NamespaceUpdate>)
        requires
            old(self).well_formed(),
        ensures
            final(self).well_formed(),
            (members(final(self).names@), members(final(self).initializing@)) == names_after(
                members(old(self).names@),
                members(old(self).initializing@),
                event,
            ),
            match r {
                Some(NamespaceUpdate::Names(names)) => reported(
                    members(old(self).names@),
                    event,
                ) && text::texts(names@) == text::texts(final(self).names@),
                Some(NamespaceUpdate::Forbidden) => false,
                None => !reported(members(old(self).names@), event),
            },
    {
        let changed: bool = match event {
            WatchEvent::Init => {
                self.initializing = Vec::new();
                assert(members(self.initializing@) =~= Set::empty());
                false
            },
            WatchEvent::InitApply { name, generation: _ } => {
                insert(&mut self.initializing, name.as_str());
                false
            },
            WatchEvent::InitDone => {
                let mut done: Vec<String> = Vec::new();
                assert(members(done@) =~= Set::empty());
                std::mem::swap(&mut done, &mut self.initializing);
                self.names = done;
                true
            },
            WatchEvent::Apply { name, generation: _ } => {
                if position(&self.names, name.as_str()).is_some() {
                    assert(members(self.names@).insert(name@) =~= members(self.names@));
                    false
                } else {
                    insert(&mut self.names, name.as_str());
                    true
                }
            },
            WatchEvent::Delete { name } => remove(&mut self.names, name.as_str()),
        };
        if changed {
            Some(NamespaceUpdate::Names(text::clone_texts(&self.names)))
        } else {
            None
        }
    }
}

// ----- CRDs -----

/// Names with generations, as a set.
pub open spec fn crds_view(v: Seq<(String, i64)>) -> Seq<(Seq<char>, i64)> {
    Seq::new(v.len(), |i: int| (v[i].0@, v[i].1))
}

pub open spec fn crds(v: Seq<(String, i64)>) -> Set<(Seq<char>, i64)> {
    crds_view(v).to_set()
}

/// The CRDs that a watch has seen, with their generations. Status-only updates don't bump the
/// generation, so they don't re-run discovery.
#[derive(Debug)]
pub struct CrdWatch {
    pub known: Vec<(String, i64)>,
    pub initializing: Vec<(String, i64)>,
    /// The first list is complete.
    pub ready: bool,
}

/// The CRDs without those of a name.
pub open spec fn without_name(v: Set<(Seq<char>, i64)>, name: Seq<char>) -> Set<(Seq<char>, i64)> {
    v.filter(|crd: (Seq<char>, i64)| crd.0 != name)
}

/// The CRDs after an event: the known ones, and those of the list that is coming in.
pub open spec fn crds_after(
    known: Set<(Seq<char>, i64)>,
    initializing: Set<(Seq<char>, i64)>,
    event: WatchEvent,
) -> (Set<(Seq<char>, i64)>, Set<(Seq<char>, i64)>) {
    match event {
        WatchEvent::Init => (known, Set::empty()),
        WatchEvent::InitApply { name, generation } => (
            known,
            initializing.insert((name@, generation)),
        ),
        WatchEvent::InitDone => (initializing, Set::empty()),
        WatchEvent::Apply { name, generation } => (
            without_name(known, name@).insert((name@, generation)),
            initializing,
        ),
        WatchEvent::Delete { name } => (without_name(known, name@), initializing),
    }
}

/// Whether the number of CRDs is reported: for the first list, and whenever a CRD is added,
/// removed or its spec changes.
pub open spec fn crds_reported(
    known: Set<(Seq<char>, i64)>,
    initializing: Set<(Seq<char>, i64)>,
    ready: bool,
    event: WatchEvent,
) -> bool {
    match event {
        WatchEvent::Init => false,
        WatchEvent::InitApply { .. } => false,
        WatchEvent::InitDone => !ready || initializing != known,
        WatchEvent::Apply { name, generation } => !known.contains((name@, generation)),
        WatchEvent::Delete { .. } => true,
    }
}

fn has_crd(v: &Vec<(String, i64)>, name: &str, generation: i64) -> (r: bool)
    ensures
        r == crds(v@).contains((name@, generation)),
{
    let ghost all = crds_view(v@);
    let mut i: usize = 0;
    while i < v.len()
        invariant
            i <= v@.len(),
            all == crds_view(v@),
            forall|j: int| 0 <= j < i ==> #[trigger] all[j] != (name@, generation),
        decreases v@.len() - i,
    {
        assert(all[i as int] == (v@[i as int].0@, v@[i as int].1));
        if v[i].1 == generation && same(v[i].0.as_str(), name) {
            assert(all.contains((name@, generation)));
            return true;
        }
        i += 1;
    }
    false
}

fn insert_crd(v: &mut Vec<(String, i64)>, name: String, generation: i64)
    requires
        crds_view(old(v)@).no_duplicates(),
    ensures
        crds_view(final(v)@).no_duplicates(),
        crds(final(v)@) == crds(old(v)@).insert((name@, generation)),
{
    let ghost before = crds_view(v@);
    let ghost key = (name@, generation);
    if has_crd(v, name.as_str(), generation) {
        assert(crds(v@).insert(key) =~= crds(v@));
        return;
    }
    v.push((name, generation));
    proof {
        let after = crds_view(v@);
        assert(after =~= before.push(key));
        assert(!before.contains(key));
        assert(after.to_set() =~= before.to_set().insert(key)) by {
            assert forall|x: (Seq<char>, i64)| after.to_set().contains(x)
                <==> before.to_set().insert(key).contains(x) by {
                if after.contains(x) {
                    let i = choose|i: int| 0 <= i < after.len() && after[i] == x;
                    if i < before.len() {
                        assert(before[i] == x);
                    }
                }
                if before.contains(x) {
                    let i = choose|i: int| 0 <= i < before.len() && before[i] == x;
                    assert(after[i] == x);
                }
                assert(after[before.len() as int] == key);
            }
        }
    }
}

fn remove_crds(v: &mut Vec<(String, i64)>, name: &str)
    requires
        crds_view(old(v)@).no_duplicates(),
    ensures
        crds_view(final(v)@).no_duplicates(),
        crds(final(v)@) == without_name(crds(old(v)@), name@),
{
    let ghost start = crds(v@);
    let mut i: usize = 0;
    while i < v.len()
        invariant
            i <= v@.len(),
            crds_view(v@).no_duplicates(),
            without_name(crds(v@), name@) == without_name(start, name@),
            forall|j: int| 0 <= j < i ==> (#[trigger] v@[j]).0@ != name@,
        decreases v@.len() - i,
    {
        let ghost before = crds_view(v@);
        assert(before[i as int] == (v@[i as int].0@, v@[i as int].1));
        if same(v[i].0.as_str(), name) {
            v.remove(i);
            proof {
                let after = crds_view(v@);
                assert(after =~= before.remove(i as int));
                assert forall|a: int, b: int|
                    0 <= a < after.len() && 0 <= b < after.len() && a != b implies after[a]
                    != after[b] by {
                    let x = if a < i {
                        a
                    } else {
                        a + 1
                    };
                    let y = if b < i {
                        b
                    } else {
                        b + 1
                    };
                    assert(after[a] == before[x] && after[b] == before[y]);
                }
                assert forall|x: (Seq<char>, i64)| without_name(after.to_set(), name@).contains(x)
                    <==> without_name(before.to_set(), name@).contains(x) by {
                    if after.contains(x) {
                        let a = choose|a: int| 0 <= a < after.len() && after[a] == x;
                        let p = if a < i {
                            a
                        } else {
                            a + 1
                        };
                        assert(before[p] == x);
                    }
                    if before.contains(x) && x.0 != name@ {
                        let p = choose|p: int| 0 <= p < before.len() && before[p] == x;
                        let a = if p < i {
                            p
                        } else {
                            p - 1
                        };
                        assert(after[a] == x);
                    }
                }
                assert(without_name(after.to_set(), name@) =~= without_name(
                    before.to_set(),
                    name@,
                ));
            }
        } else {
            i += 1;
        }
    }
    proof {
        let now = crds_view(v@);
        assert forall|x: (Seq<char>, i64)| crds(v@).contains(x) implies x.0 != name@ by {
            let a = choose|a: int| 0 <= a < now.len() && now[a] == x;
            assert(v@[a].0@ == x.0);
        }
        assert(without_name(crds(v@), name@) =~= crds(v@));
    }
}

/// Whether two lists of CRDs hold the same.
fn same_crds(a: &Vec<(String, i64)>, b: &Vec<(String, i64)>) -> (r: bool)
    requires
        crds_view(a@).no_duplicates(),
        crds_view(b@).no_duplicates(),
    ensures
        r == (crds(a@) == crds(b@)),
{
    let ghost x = crds_view(a@);
    let ghost y = crds_view(b@);
    proof {
        x.unique_seq_to_set();
        y.unique_seq_to_set();
    }
    if a.len() != b.len() {
        return false;
    }
    let mut i: usize = 0;
    while i < a.len()
        invariant
            i <= a@.len(),
            x == crds_view(a@),
            forall|j: int| 0 <= j < i ==> crds(b@).contains(#[trigger] x[j]),
        decreases a@.len() - i,
    {
        assert(x[i as int] == (a@[i as int].0@, a@[i as int].1));
        if !has_crd(b, a[i].0.as_str(), a[i].1) {
            assert(crds(a@).contains(x[i as int]));
            return false;
        }
        i += 1;
    }
    proof {
        assert(crds(a@).subset_of(crds(b@))) by {
            assert forall|c: (Seq<char>, i64)| crds(a@).contains(c) implies crds(b@).contains(c) by {
                let j = choose|j: int| 0 <= j < x.len() && x[j] == c;
                assert(crds(b@).contains(x[j]));
            }
        }
        vstd::set_lib::lemma_subset_equality(crds(a@), crds(b@));
    }
    true
}

impl CrdWatch {
    /// Neither list has duplicates.
    pub open spec fn well_formed(&self) -> bool {
        crds_view(self.known@).no_duplicates() && crds_view(self.initializing@).no_duplicates()
    }

    pub fn new() -> (r: CrdWatch)
        ensures
            r.well_formed(),
            crds(r.known@) == Set::<(Seq<char>, i64)>::empty(),
            crds(r.initializing@) == Set::<(Seq<char>, i64)>::empty(),
            !r.ready,
    {
        let r = CrdWatch { known: Vec::new(), initializing: Vec::new(), ready: false };
        assert(crds(r.known@) =~= Set::empty());
        assert(crds(r.initializing@) =~= Set::empty());
        r
    }

    /// Takes an event and says how many CRDs to report, if that is to be reported. Every report
    /// after the first means "re-run discovery".
    pub fn event(&mut self, event: WatchEvent) -> (r: Option<usize>)
        requires
            old(self).well_formed(),
        ensures
            final(self).well_formed(),
            (crds(final(self).known@), crds(final(self).initializing@)) == crds_after(
                crds(old(self).known@),
                crds(old(self).initializing@),
                event,
            ),
            final(self).ready == (old(self).ready || event is InitDone),
            match r {
                Some(n) => crds_reported(
                    crds(old(self).known@),
                    crds(old(self).initializing@),
                    old(self).ready,
                    event,
                ) && n == crds(final(self).known@).len(),
                None => !crds_reported(
                    crds(old(self).known@),
                    crds(old(self).initializing@),
                    old(self).ready,
                    event,
                ),
            },
    {
        let changed: bool = match event {
            WatchEvent::Init => {
                self.initializing = Vec::new();
                assert(crds(self.initializing@) =~= Set::empty());
                false
            },
            WatchEvent::InitApply { name, generation } => {
                insert_crd(&mut self.initializing, name, generation);
                false
            },
            WatchEvent::InitDone => {
                let changed: bool = !self.ready || !same_crds(&self.initializing, &self.known);
                let mut done: Vec<(String, i64)> = Vec::new();
                assert(crds(done@) =~= Set::empty());
                std::mem::swap(&mut done, &mut self.initializing);
                self.known = done;
                self.ready = true;
                changed
            },
            WatchEvent::Apply { name, generation } => {
                let changed: bool = !has_crd(&self.known, name.as_str(), generation);
                remove_crds(&mut self.known, name.as_str());
                insert_crd(&mut self.known, name, generation);
                changed
            },
            WatchEvent::Delete { name } => {
                remove_crds(&mut self.known, name.as_str());
                true
            },
        };
        if changed {
            proof {
                crds_view(self.known@).unique_seq_to_set();
            }
            Some(self.known.len())
        } else {
            None
        }
    }
}

// ----- Laws -----

/// A complete list replaces what was known: after it the namespaces are those of the list.
pub proof fn a_complete_list_replaces_the_names(
    names: Set<Seq<char>>,
    initializing: Set<Seq<char>>,
)
    ensures
        names_after(names, initializing, WatchEvent::InitDone) == (
            initializing,
            Set::<Seq<char>>::empty(),
        ),
        reported(names, WatchEvent::InitDone),
{
}

/// An event that isn't reported leaves the namespaces as they are.
pub proof fn unreported_events_change_no_names(
    names: Set<Seq<char>>,
    initializing: Set<Seq<char>>,
    event: WatchEvent,
)
    requires
        !reported(names, event),
    ensures
        names_after(names, initializing, event).0 == names,
{
    match event {
        WatchEvent::Apply { name, generation } => {
            assert(names.insert(name@) =~= names);
        },
        WatchEvent::Delete { name } => {
            assert(names.remove(name@) =~= names);
        },
        _ => {},
    }
}

/// A status-only update of a CRD (the same generation) isn't reported.
pub proof fn status_updates_are_not_reported(
    known: Set<(Seq<char>, i64)>,
    initializing: Set<(Seq<char>, i64)>,
    ready: bool,
    name: String,
    generation: i64,
)
    requires
        known.contains((name@, generation)),
    ensures
        !crds_reported(known, initializing, ready, (WatchEvent::Apply { name, generation })),
{
}

} // verus!
