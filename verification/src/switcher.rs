//! The cluster switcher: contexts grouped by kubeconfig source, with a filter. ↑/↓ to move, ↵ to
//! switch.

use crate::moves::SourceKind;
use crate::outside;
use crate::text::{self, cat, same};
use vstd::prelude::*;

verus! {

/// A context to switch to.
#[derive(Debug)]
pub struct SwitchItem {
    pub id: String,
    /// Its display name.
    pub name: String,
    pub server: Option<String>,
    pub kind: SourceKind,
    /// Its file, as it is shown.
    pub file: String,
}

/// Where a context comes from, as the groups are named.
pub open spec fn source_of(item: SwitchItem) -> Seq<char> {
    if item.kind == SourceKind::Env {
        "$KUBECONFIG · "@ + item.file@
    } else {
        item.file@
    }
}

/// Where a context comes from, as the groups are named.
pub fn source_text(item: &SwitchItem) -> (r: String)
    ensures
        r@ == source_of(*item),
{
    if item.kind == SourceKind::Env {
        cat("$KUBECONFIG · ", item.file.as_str())
    } else {
        item.file.clone()
    }
}

/// Whether a context is shown under a filter: its name or server has it, in whatever case.
pub open spec fn passes(item: SwitchItem, filter: Seq<char>) -> bool {
    let wanted = outside::lowercase(filter);
    ||| wanted.len() == 0
    ||| text::contains_text(outside::lowercase(item.name@), wanted)
    ||| text::contains_text(
        outside::lowercase(
            match item.server {
                Some(s) => s@,
                None => ""@,
            },
        ),
        wanted,
    )
}

/// The places of the contexts that a filter leaves.
pub open spec fn places(items: Seq<SwitchItem>, filter: Seq<char>) -> Seq<int>
    decreases items.len(),
{
    if items.len() == 0 {
        seq![]
    } else {
        let before = places(items.drop_last(), filter);
        if passes(items.last(), filter) {
            before.push(items.len() - 1)
        } else {
            before
        }
    }
}

pub open spec fn places_view(v: Seq<usize>) -> Seq<int> {
    Seq::new(v.len(), |i: int| v[i] as int)
}

/// The places of the contexts that a filter leaves.
pub fn filtered(items: &Vec<SwitchItem>, filter: &str) -> (r: Vec<usize>)
    ensures
        places_view(r@) == places(items@, filter@),
        forall|i: int| 0 <= i < r@.len() ==> (#[trigger] r@[i]) < items@.len(),
{
    let wanted: String = outside::to_lowercase(filter);
    let all: bool = wanted.as_str().is_empty();
    let mut out: Vec<usize> = Vec::new();
    let mut i: usize = 0;
    assert(items@.take(0) =~= seq![]);
    assert(places_view(out@) =~= seq![]);
    while i < items.len()
        invariant
            i <= items@.len(),
            wanted@ == outside::lowercase(filter@),
            all == (wanted@.len() == 0),
            places_view(out@) == places(items@.take(i as int), filter@),
            forall|k: int| 0 <= k < out@.len() ==> (#[trigger] out@[k]) < items@.len(),
        decreases items@.len() - i,
    {
        let ghost before = out@;
        assert(items@.take(i + 1).drop_last() =~= items@.take(i as int));
        let item: &SwitchItem = &items[i];
        let server: &str = match &item.server {
            Some(s) => s.as_str(),
            None => "",
        };
        if all || text::contains(
            outside::to_lowercase(item.name.as_str()).as_str(),
            wanted.as_str(),
        ) || text::contains(outside::to_lowercase(server).as_str(), wanted.as_str()) {
            out.push(i);
            assert(places_view(out@) =~= places_view(before).push(i as int));
        }
        i += 1;
    }
    assert(items@.take(i as int) =~= items@);
    out
}

/// The first context with an id, if there is one.
pub open spec fn place_of(items: Seq<SwitchItem>, id: Seq<char>) -> Option<int>
    decreases items.len(),
{
    if items.len() == 0 {
        None
    } else {
        match place_of(items.drop_last(), id) {
            Some(i) => Some(i),
            None => if items.last().id@ == id {
                Some(items.len() - 1)
            } else {
                None
            },
        }
    }
}

/// What is selected when the switcher opens: the active context, else the first.
pub fn first_selection(items: &Vec<SwitchItem>, active: Option<&str>) -> (r: usize)
    ensures
        r == match active {
            Some(id) => match place_of(items@, id@) {
                Some(i) => i,
                None => 0,
            },
            None => 0,
        },
{
    if let Some(id) = active {
        let mut i: usize = 0;
        assert(items@.take(0) =~= seq![]);
        while i < items.len()
            invariant
                i <= items@.len(),
                active == Some(id),
                place_of(items@.take(i as int), id@) is None,
            decreases items@.len() - i,
        {
            assert(items@.take(i + 1).drop_last() =~= items@.take(i as int));
            if same(items[i].id.as_str(), id) {
                proof {
                    lemma_place(items@, id@, i + 1);
                }
                return i;
            }
            i += 1;
        }
        assert(items@.take(i as int) =~= items@);
    }
    0
}

proof fn lemma_place(items: Seq<SwitchItem>, id: Seq<char>, n: int)
    requires
        0 <= n <= items.len(),
        place_of(items.take(n), id) is Some,
    ensures
        place_of(items, id) == place_of(items.take(n), id),
    decreases items.len() - n,
{
    if n < items.len() {
        assert(items.take(n + 1).drop_last() =~= items.take(n));
        lemma_place(items, id, n + 1);
    } else {
        assert(items.take(n) =~= items);
    }
}

/// The selection after ↓ or ↑: it goes round.
pub fn move_selection(selected: usize, down: bool, count: usize) -> (r: usize)
    requires
        count <= isize::MAX,
        selected < isize::MAX,
    ensures
        r == if count == 0 {
            selected as int
        } else if down {
            (selected + 1) % count as int
        } else {
            (selected - 1) % count as int
        },
        count > 0 ==> r < count,
{
    if count == 0 {
        return selected;
    }
    if down {
        (selected + 1) % count
    } else if selected == 0 {
        proof {
            let n = count as int;
            assert((-1int) % n == n - 1) by (nonlinear_arith)
                requires
                    n > 0,
            ;
        }
        count - 1
    } else {
        (selected - 1) % count
    }
}

/// The selection on a list that got shorter: at most the last one.
pub fn clamp_selection(selected: usize, count: usize) -> (r: usize)
    ensures
        r == if count == 0 {
            0
        } else if selected >= count {
            count - 1
        } else {
            selected as int
        },
{
    if count == 0 {
        0
    } else if selected >= count {
        count - 1
    } else {
        selected
    }
}

/// Whether a context starts a group: its source isn't that of the one before it.
pub open spec fn starts_group(items: Seq<SwitchItem>, i: int) -> bool {
    i == 0 || source_of(items[i]) != source_of(items[i - 1])
}

/// The heading above each context, where it starts a group.
pub fn headings(items: &Vec<SwitchItem>) -> (r: Vec<Option<String>>)
    ensures
        r@.len() == items@.len(),
        forall|i: int|
            0 <= i < r@.len() ==> text::text_of(#[trigger] r@[i]) == if starts_group(items@, i) {
                Some(source_of(items@[i]))
            } else {
                None
            },
{
    let mut out: Vec<Option<String>> = Vec::new();
    let mut last: Option<String> = None;
    let mut i: usize = 0;
    while i < items.len()
        invariant
            i <= items@.len(),
            out@.len() == i,
            text::text_of(last) == if i == 0 {
                None
            } else {
                Some(source_of(items@[i - 1]))
            },
            forall|k: int|
                0 <= k < out@.len() ==> text::text_of(#[trigger] out@[k]) == if starts_group(
                    items@,
                    k,
                ) {
                    Some(source_of(items@[k]))
                } else {
                    None
                },
        decreases items@.len() - i,
    {
        let source: String = source_text(&items[i]);
        let starts: bool = match &last {
            Some(l) => !same(l.as_str(), source.as_str()),
            None => true,
        };
        if starts {
            out.push(Some(source.clone()));
        } else {
            out.push(None);
        }
        last = Some(source);
        i += 1;
    }
    out
}

// ----- Laws -----

/// ↑ takes back what ↓ did, and the other way round.
pub proof fn up_takes_back_down(selected: int, count: int)
    requires
        0 <= selected < count,
    ensures
        ((selected + 1) % count - 1) % count == selected,
        ((selected - 1) % count + 1) % count == selected,
{
    if selected + 1 == count {
        vstd::arithmetic::div_mod::lemma_mod_self_0(count);
        assert((-1int) % count == count - 1) by (nonlinear_arith)
            requires
                count > 0,
        ;
    } else {
        vstd::arithmetic::div_mod::lemma_small_mod((selected + 1) as nat, count as nat);
        vstd::arithmetic::div_mod::lemma_small_mod(selected as nat, count as nat);
    }
    if selected == 0 {
        assert((-1int) % count == count - 1) by (nonlinear_arith)
            requires
                count > 0,
        ;
        vstd::arithmetic::div_mod::lemma_mod_self_0(count);
    } else {
        vstd::arithmetic::div_mod::lemma_small_mod((selected - 1) as nat, count as nat);
        vstd::arithmetic::div_mod::lemma_small_mod(selected as nat, count as nat);
    }
}

} // verus!
