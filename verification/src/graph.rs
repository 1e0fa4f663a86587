//! Reachability among symbols.

use vstd::prelude::*;

use crate::table::Table;
use crate::ty::SymbolId;

verus! {

/// The successors of a symbol.
pub open spec fn next_of(edges: Map<SymbolId, Seq<SymbolId>>, t: SymbolId) -> Seq<SymbolId> {
    if edges.contains_key(t) {
        edges[t]
    } else {
        seq![]
    }
}

/// A table of symbol lists as a map.
pub open spec fn syms_map(m: Map<SymbolId, Vec<SymbolId>>) -> Map<SymbolId, Seq<SymbolId>> {
    m.map_values(|v: Vec<SymbolId>| v@)
}

/// A list with the first `k` of some others added that are not in it yet.
pub open spec fn with_new(order: Seq<SymbolId>, more: Seq<SymbolId>, k: nat) -> Seq<SymbolId>
    decreases k,
{
    if k == 0 || k > more.len() {
        order
    } else {
        let before = with_new(order, more, (k - 1) as nat);
        if before.contains(more[k - 1]) {
            before
        } else {
            before.push(more[k - 1])
        }
    }
}

/// The symbols reached breadth first from `order`, whose first `i` are done.
pub open spec fn reached(edges: Map<SymbolId, Seq<SymbolId>>, order: Seq<SymbolId>, i: nat) -> Seq<SymbolId>
    decreases 0x1_0000_0000 - i,
{
    if i >= order.len() || i >= 0x1_0000_0000 {
        order
    } else {
        let more = next_of(edges, order[i as int]);
        reached(edges, with_new(order, more, more.len()), i + 1)
    }
}

/// A list of distinct symbols is no longer than there are symbol numbers.
pub proof fn distinct_syms_fit(s: Seq<SymbolId>)
    requires
        s.no_duplicates(),
    ensures
        s.len() <= 0x1_0000_0000,
{
    let ids = Seq::new(s.len(), |i: int| s[i].0 as int);
    assert(ids.no_duplicates()) by {
        assert forall|i: int, j: int| 0 <= i < ids.len() && 0 <= j < ids.len() && i != j implies ids[i] != ids[j] by {
            assert(s[i] != s[j]);
        }
    }
    ids.unique_seq_to_set();
    vstd::set_lib::lemma_int_range(0, 0x1_0000_0000);
    assert(ids.to_set().subset_of(vstd::set_lib::set_int_range(0, 0x1_0000_0000)));
    vstd::set_lib::lemma_len_subset(ids.to_set(), vstd::set_lib::set_int_range(0, 0x1_0000_0000));
}

pub fn contains_sym(syms: &Vec<SymbolId>, s: SymbolId) -> (r: bool)
    ensures
        r == syms@.contains(s),
{
    let mut i: usize = 0;
    while i < syms.len()
        invariant
            i <= syms.len(),
            forall|j: int| 0 <= j < i ==> syms[j] != s,
        decreases syms.len() - i,
    {
        if syms[i].0 == s.0 {
            assert(syms@[i as int] == s);
            return true;
        }
        i += 1;
    }
    false
}

/// Adds the symbols of a list that are not there yet.
pub fn add_new(order: &mut Vec<SymbolId>, more: &Vec<SymbolId>)
    requires
        old(order)@.no_duplicates(),
    ensures
        final(order)@ == with_new(old(order)@, more@, more@.len()),
        final(order)@.no_duplicates(),
        final(order)@.len() >= old(order)@.len(),
{
    let ghost start = order@;
    let mut j: usize = 0;
    while j < more.len()
        invariant
            j <= more.len(),
            order@.no_duplicates(),
            start == old(order)@,
            start.len() <= order@.len(),
            order@ == with_new(start, more@, j as nat),
        decreases more.len() - j,
    {
        if !contains_sym(order, more[j]) {
            order.push(more[j]);
        }
        j += 1;
    }
}

/// Everything reached breadth first from a list of distinct symbols.
pub fn reach(edges: &Table<SymbolId, Vec<SymbolId>>, from: Vec<SymbolId>) -> (r: Vec<SymbolId>)
    requires
        from@.no_duplicates(),
    ensures
        r@ == reached(syms_map(edges@), from@, 0),
        r@.no_duplicates(),
{
    let mut order = from;
    let ghost goal = reached(syms_map(edges@), order@, 0);
    proof {
        distinct_syms_fit(order@);
    }
    let mut i: usize = 0;
    while i < order.len()
        invariant
            i <= order.len(),
            order@.no_duplicates(),
            order.len() <= 0x1_0000_0000,
            reached(syms_map(edges@), order@, i as nat) == goal,
        decreases 0x1_0000_0000 - i,
    {
        let ghost start = order@;
        let ghost more = next_of(syms_map(edges@), order@[i as int]);
        let t = order[i];
        if let Some(list) = edges.get(&t) {
            add_new(&mut order, list);
        }
        assert(order@ == with_new(start, more, more.len()));
        proof {
            distinct_syms_fit(order@);
        }
        i += 1;
    }
    order
}

// ---- laws ----

/// Whether `to` can be reached from `from` along `n` edges.
pub open spec fn connected(edges: Map<SymbolId, Seq<SymbolId>>, from: SymbolId, to: SymbolId, n: nat) -> bool
    decreases n,
{
    if n == 0 {
        from == to
    } else {
        exists|j: int|
            0 <= j < next_of(edges, from).len() && connected(
                edges,
                #[trigger] next_of(edges, from)[j],
                to,
                (n - 1) as nat,
            )
    }
}

/// Whether a symbol can be reached from one of some others.
pub open spec fn linked(edges: Map<SymbolId, Seq<SymbolId>>, from: Seq<SymbolId>, s: SymbolId) -> bool {
    exists|f: int, n: nat| 0 <= f < from.len() && #[trigger] connected(edges, from[f], s, n)
}

proof fn with_new_holds(order: Seq<SymbolId>, more: Seq<SymbolId>, k: nat)
    requires
        k <= more.len(),
    ensures
        order.len() <= with_new(order, more, k).len(),
        forall|i: int| 0 <= i < order.len() ==> with_new(order, more, k)[i] == order[i],
        forall|j: int| 0 <= j < k ==> with_new(order, more, k).contains(#[trigger] more[j]),
        forall|i: int|
            order.len() <= i < with_new(order, more, k).len() ==> more.contains(#[trigger] with_new(order, more, k)[i]),
    decreases k,
{
    if k > 0 {
        with_new_holds(order, more, (k - 1) as nat);
        let before = with_new(order, more, (k - 1) as nat);
        let after = with_new(order, more, k);
        assert forall|j: int| 0 <= j < k implies after.contains(#[trigger] more[j]) by {
            if before.contains(more[j]) {
                let i = choose|i: int| 0 <= i < before.len() && before[i] == more[j];
                assert(after[i] == more[j]);
            } else {
                assert(after[before.len() as int] == more[j]);
            }
        }
        assert forall|i: int| order.len() <= i < after.len() implies more.contains(#[trigger] after[i]) by {
            if i < before.len() {
                assert(after[i] == before[i]);
            } else {
                assert(after[i] == more[k - 1]);
            }
        }
    }
}

/// Every symbol listed is connected to one of the starting symbols, and the
/// list is closed under successors: it holds exactly what can be reached.
proof fn reached_is_closed(edges: Map<SymbolId, Seq<SymbolId>>, order: Seq<SymbolId>, i: nat, from: Seq<SymbolId>)
    requires
        i <= order.len(),
        order.no_duplicates(),
        forall|s: SymbolId| from.contains(s) ==> order.contains(s),
        forall|x: int| 0 <= x < order.len() ==> linked(edges, from, #[trigger] order[x]),
        forall|x: int, j: int|
            #![trigger next_of(edges, order[x])[j]]
            0 <= x < i && 0 <= j < next_of(edges, order[x]).len() ==> order.contains(next_of(edges, order[x])[j]),
    ensures
        forall|s: SymbolId| from.contains(s) ==> reached(edges, order, i).contains(s),
        forall|x: int|
            0 <= x < reached(edges, order, i).len() ==> linked(edges, from, #[trigger] reached(edges, order, i)[x]),
        forall|x: int, j: int|
            #![trigger next_of(edges, reached(edges, order, i)[x])[j]]
            0 <= x < reached(edges, order, i).len() && 0 <= j < next_of(edges, reached(edges, order, i)[x]).len()
                ==> reached(edges, order, i).contains(next_of(edges, reached(edges, order, i)[x])[j]),
    decreases 0x1_0000_0000 - i,
{
    distinct_syms_fit(order);
    if i < order.len() {
        let more = next_of(edges, order[i as int]);
        let after = with_new(order, more, more.len());
        with_new_holds(order, more, more.len());
        with_new_distinct(order, more, more.len());
        distinct_syms_fit(after);
        assert forall|s: SymbolId| order.contains(s) implies after.contains(s) by {
            let x = choose|x: int| 0 <= x < order.len() && order[x] == s;
            assert(after[x] == s);
        }
        assert forall|x: int| 0 <= x < after.len() implies linked(edges, from, #[trigger] after[x]) by {
            if x < order.len() {
                assert(after[x] == order[x]);
            } else {
                assert(more.contains(after[x]));
                let j = choose|j: int| 0 <= j < more.len() && more[j] == after[x];
                assert(linked(edges, from, order[i as int]));
                let (f, n) = choose|f: int, n: nat|
                    0 <= f < from.len() && #[trigger] connected(edges, from[f], order[i as int], n);
                connected_extends(edges, from[f], order[i as int], j, n);
                assert(connected(edges, from[f], after[x], n + 1));
            }
        }
        assert forall|x: int, j: int|
            #![trigger next_of(edges, after[x])[j]]
            0 <= x < i + 1 && 0 <= j < next_of(edges, after[x]).len() implies after.contains(
            next_of(edges, after[x])[j],
        ) by {
            assert(after[x] == order[x]);
            if x < i {
                assert(order.contains(next_of(edges, order[x])[j]));
            } else {
                assert(after.contains(more[j]));
            }
        }
        reached_is_closed(edges, after, i + 1, from);
        assert(reached(edges, order, i) == reached(edges, after, i + 1));
    } else {
        assert(reached(edges, order, i) == order);
    }
}

proof fn with_new_distinct(order: Seq<SymbolId>, more: Seq<SymbolId>, k: nat)
    requires
        order.no_duplicates(),
    ensures
        with_new(order, more, k).no_duplicates(),
    decreases k,
{
    if k > 0 && k <= more.len() {
        with_new_distinct(order, more, (k - 1) as nat);
    }
}

proof fn connected_extends(edges: Map<SymbolId, Seq<SymbolId>>, from: SymbolId, mid: SymbolId, j: int, n: nat)
    requires
        connected(edges, from, mid, n),
        0 <= j < next_of(edges, mid).len(),
    ensures
        connected(edges, from, next_of(edges, mid)[j], n + 1),
    decreases n,
{
    let to = next_of(edges, mid)[j];
    if n == 0 {
        assert(connected(edges, next_of(edges, from)[j], to, 0));
    } else {
        let k = choose|k: int|
            0 <= k < next_of(edges, from).len() && connected(
                edges,
                #[trigger] next_of(edges, from)[k],
                mid,
                (n - 1) as nat,
            );
        connected_extends(edges, next_of(edges, from)[k], mid, j, (n - 1) as nat);
        assert(connected(edges, next_of(edges, from)[k], to, n));
    }
}

proof fn closed_covers_paths(
    edges: Map<SymbolId, Seq<SymbolId>>,
    all: Seq<SymbolId>,
    from: SymbolId,
    to: SymbolId,
    n: nat,
)
    requires
        all.contains(from),
        connected(edges, from, to, n),
        forall|x: int, j: int|
            #![trigger next_of(edges, all[x])[j]]
            0 <= x < all.len() && 0 <= j < next_of(edges, all[x]).len() ==> all.contains(next_of(edges, all[x])[j]),
    ensures
        all.contains(to),
    decreases n,
{
    if n > 0 {
        let k = choose|k: int|
            0 <= k < next_of(edges, from).len() && connected(
                edges,
                #[trigger] next_of(edges, from)[k],
                to,
                (n - 1) as nat,
            );
        let x = choose|x: int| 0 <= x < all.len() && all[x] == from;
        assert(all.contains(next_of(edges, all[x])[k]));
        closed_covers_paths(edges, all, next_of(edges, from)[k], to, (n - 1) as nat);
    }
}

/// The breadth-first list from some distinct symbols holds exactly the
/// symbols that can be reached from one of them.
pub proof fn reached_means_connected(edges: Map<SymbolId, Seq<SymbolId>>, from: Seq<SymbolId>, s: SymbolId)
    requires
        from.no_duplicates(),
    ensures
        reached(edges, from, 0).contains(s) <==> linked(edges, from, s),
{
    assert forall|x: int| 0 <= x < from.len() implies linked(edges, from, #[trigger] from[x]) by {
        assert(connected(edges, from[x], from[x], 0));
    }
    reached_is_closed(edges, from, 0, from);
    let all = reached(edges, from, 0);
    if all.contains(s) {
        let x = choose|x: int| 0 <= x < all.len() && all[x] == s;
        assert(linked(edges, from, all[x]));
    }
    if linked(edges, from, s) {
        let (f, n) = choose|f: int, n: nat| 0 <= f < from.len() && #[trigger] connected(edges, from[f], s, n);
        assert(from.contains(from[f]));
        closed_covers_paths(edges, all, from[f], s, n);
    }
}

// ---- depth first ----

/// The order in which symbols are visited, taking the last of those waiting
/// each time; `seen` were visited before.
pub open spec fn visited(edges: Map<SymbolId, Seq<SymbolId>>, waiting: Seq<SymbolId>, seen: Seq<SymbolId>) -> Seq<
    SymbolId,
>
    decreases 0x1_0000_0000 - seen.len(), waiting.len(),
{
    if waiting.len() == 0 {
        seen
    } else if seen.contains(waiting.last()) {
        visited(edges, waiting.drop_last(), seen)
    } else if seen.len() >= 0x1_0000_0000 {
        seen
    } else {
        visited(edges, waiting.drop_last() + next_of(edges, waiting.last()), seen.push(waiting.last()))
    }
}

/// Visits everything reachable, depth first.
pub fn visit(edges: &Table<SymbolId, Vec<SymbolId>>, from: Vec<SymbolId>) -> (r: Vec<SymbolId>)
    ensures
        r@ == visited(syms_map(edges@), from@, seq![]),
        r@.no_duplicates(),
{
    let ghost es = syms_map(edges@);
    let ghost goal = visited(es, from@, seq![]);
    let mut waiting = from;
    let mut seen: Vec<SymbolId> = Vec::new();
    assert(seen@ =~= seq![]);
    while waiting.len() > 0
        invariant
            es == syms_map(edges@),
            seen@.no_duplicates(),
            visited(es, waiting@, seen@) == goal,
        decreases 0x1_0000_0000 - seen@.len(), waiting@.len(),
    {
        let ghost before = waiting@;
        let n = waiting.len();
        let t = waiting[n - 1];
        let _ = waiting.pop();
        assert(waiting@ =~= before.drop_last());
        if !contains_sym(&seen, t) {
            proof {
                distinct_syms_fit(seen@.push(t));
            }
            seen.push(t);
            match edges.get(&t) {
                Some(more) => {
                    let mut i: usize = 0;
                    while i < more.len()
                        invariant
                            i <= more.len(),
                            waiting@ == before.drop_last() + more@.take(i as int),
                        decreases more.len() - i,
                    {
                        waiting.push(more[i]);
                        assert(more@.take(i + 1) =~= more@.take(i as int).push(more@[i as int]));
                        assert(waiting@ =~= before.drop_last() + more@.take(i + 1));
                        i += 1;
                    }
                    assert(more@.take(more@.len() as int) =~= more@);
                    assert(next_of(es, t) == more@);
                },
                None => {
                    assert(next_of(es, t) =~= seq![]);
                    assert(waiting@ =~= before.drop_last() + next_of(es, t));
                },
            }
        }
    }
    seen
}

} // verus!
