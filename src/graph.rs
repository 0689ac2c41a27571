//! Dependency declarations between module types, and the facts about
//! dependency paths that planning a build relies on.
use vstd::prelude::*;
use vstd::set_lib::{lemma_int_range, lemma_len_subset, set_int_range};

use crate::registry::ModuleId;

verus! {

/// Every declared dependency names a module of the catalog.
pub open spec fn deps_well_formed(deps: Seq<Seq<ModuleId>>) -> bool {
    forall|i: int, j: int|
        0 <= i < deps.len() && 0 <= j < deps[i].len() ==> (#[trigger] deps[i][j] as int) < deps.len()
}

/// `p` follows declared edges: each element is a dependency of the one before it.
pub open spec fn is_dep_path(deps: Seq<Seq<ModuleId>>, p: Seq<ModuleId>) -> bool {
    &&& p.len() > 0
    &&& forall|i: int| 0 <= i < p.len() ==> (#[trigger] p[i] as int) < deps.len()
    &&& forall|i: int| 0 <= i < p.len() - 1 ==> #[trigger] deps[p[i] as int].contains(p[i + 1])
}

/// `p` is a dependency path starting at `from` that only visits modules outside `built`.
pub open spec fn is_pending_path(
    deps: Seq<Seq<ModuleId>>,
    built: Set<ModuleId>,
    from: ModuleId,
    p: Seq<ModuleId>,
) -> bool {
    &&& is_dep_path(deps, p)
    &&& p[0] == from
    &&& forall|i: int| 0 <= i < p.len() ==> !built.contains(#[trigger] p[i])
}

/// `to` must be built before `from` can be: a path of unbuilt modules leads there.
pub open spec fn pending_reach(
    deps: Seq<Seq<ModuleId>>,
    built: Set<ModuleId>,
    from: ModuleId,
    to: ModuleId,
) -> bool {
    exists|p: Seq<ModuleId>| #[trigger] is_pending_path(deps, built, from, p) && p.last() == to
}

/// Building `from` would run into a dependency cycle among unbuilt modules.
pub open spec fn pending_cycle(deps: Seq<Seq<ModuleId>>, built: Set<ModuleId>, from: ModuleId) -> bool {
    exists|p: Seq<ModuleId>| #[trigger] is_pending_path(deps, built, from, p) && !p.no_duplicates()
}

/// No dependency path in the catalog ever returns to a module it passed.
pub open spec fn acyclic(deps: Seq<Seq<ModuleId>>) -> bool {
    forall|p: Seq<ModuleId>| #[trigger] is_dep_path(deps, p) ==> p.no_duplicates()
}

/// Every dependency of `order[i]` is built already or comes earlier in `order`.
pub open spec fn deps_ready(
    deps: Seq<Seq<ModuleId>>,
    built: Set<ModuleId>,
    order: Seq<ModuleId>,
    i: int,
) -> bool {
    forall|j: int|
        0 <= j < deps[order[i] as int].len() ==> {
            let d = #[trigger] deps[order[i] as int][j];
            built.contains(d) || order.subrange(0, i).contains(d)
        }
}

/// `order` builds, each once and dependencies first, exactly the unbuilt
/// modules that `target` needs (itself included).
pub open spec fn is_build_plan(
    deps: Seq<Seq<ModuleId>>,
    built: Set<ModuleId>,
    target: ModuleId,
    order: Seq<ModuleId>,
) -> bool {
    &&& order.no_duplicates()
    &&& forall|x: ModuleId| order.contains(x) <==> pending_reach(deps, built, target, x)
    &&& forall|i: int| 0 <= i < order.len() ==> deps_ready(deps, built, order, i)
}

/// A duplicate-free sequence of ids below `n` has at most `n` elements.
pub proof fn lemma_unique_bounded_len(s: Seq<ModuleId>, n: nat)
    requires
        s.no_duplicates(),
        forall|i: int| 0 <= i < s.len() ==> (#[trigger] s[i] as int) < n,
    ensures
        s.len() <= n,
{
    let t = s.map_values(|x: ModuleId| x as int);
    assert(t.no_duplicates()) by {
        assert forall|i: int, j: int| 0 <= i < t.len() && 0 <= j < t.len() && i != j implies t[i] != t[j] by {
            assert(s[i] != s[j]);
        }
    }
    t.unique_seq_to_set();
    lemma_int_range(0, n as int);
    assert(t.to_set().subset_of(set_int_range(0, n as int))) by {
        assert forall|x: int| t.to_set().contains(x) implies set_int_range(0, n as int).contains(x) by {
            let k = choose|k: int| 0 <= k < t.len() && t[k] == x;
            assert(s[k] < n);
        }
    }
    lemma_len_subset(t.to_set(), set_int_range(0, n as int));
}

/// Along a pending path, positions in a dependencies-first order strictly
/// fall, so a plan that holds every pending module leaves no room for a cycle.
pub proof fn lemma_plan_excludes_cycle(
    deps: Seq<Seq<ModuleId>>,
    built: Set<ModuleId>,
    target: ModuleId,
    order: Seq<ModuleId>,
    p: Seq<ModuleId>,
)
    requires
        order.no_duplicates(),
        forall|i: int| 0 <= i < order.len() ==> deps_ready(deps, built, order, i),
        is_pending_path(deps, built, target, p),
        order.contains(target),
    ensures
        p.no_duplicates(),
{
    let pos = |x: ModuleId| order.index_of(x);
    // every element of p lies in order, at a position below that of the one before it
    assert forall|k: int| 0 <= k < p.len() implies order.contains(#[trigger] p[k]) && (k > 0 ==> order.index_of(p[k]) < order.index_of(p[k - 1])) by {
        lemma_path_in_plan(deps, built, target, order, p, k);
    }
    assert forall|i: int, j: int| 0 <= i < j < p.len() implies p[i] != p[j] by {
        lemma_positions_fall(order, p, i, j);
    }
}

pub proof fn lemma_path_in_plan(
    deps: Seq<Seq<ModuleId>>,
    built: Set<ModuleId>,
    target: ModuleId,
    order: Seq<ModuleId>,
    p: Seq<ModuleId>,
    k: int,
)
    requires
        order.no_duplicates(),
        forall|i: int| 0 <= i < order.len() ==> deps_ready(deps, built, order, i),
        is_pending_path(deps, built, target, p),
        order.contains(target),
        0 <= k < p.len(),
    ensures
        order.contains(p[k]),
        k > 0 ==> order.index_of(p[k]) < order.index_of(p[k - 1]),
    decreases k,
{
    if k > 0 {
        lemma_path_in_plan(deps, built, target, order, p, k - 1);
        let prev = p[k - 1];
        let i = order.index_of(prev);
        assert(order[i] == prev);
        assert(deps[p[k - 1] as int].contains(p[(k - 1) + 1]));
        let j = choose|j: int| 0 <= j < deps[prev as int].len() && deps[prev as int][j] == p[k];
        assert(deps_ready(deps, built, order, i));
        assert(!built.contains(p[k]));
        assert(order.subrange(0, i).contains(p[k]));
        let m = choose|m: int| 0 <= m < i && order.subrange(0, i)[m] == p[k];
        assert(order[m] == p[k]);
        assert(order.index_of(p[k]) == m) by {
            order.index_of_first(p[k]);
        }
    }
}

proof fn lemma_positions_fall(order: Seq<ModuleId>, p: Seq<ModuleId>, i: int, j: int)
    requires
        0 <= i < j < p.len(),
        forall|k: int| 0 <= k < p.len() ==> order.contains(#[trigger] p[k]) && (k > 0 ==> order.index_of(p[k]) < order.index_of(p[k - 1])),
    ensures
        order.index_of(p[j]) < order.index_of(p[i]),
        p[i] != p[j],
    decreases j - i,
{
    assert(order.contains(p[j]));
    if j > i + 1 {
        lemma_positions_fall(order, p, i, j - 1);
    }
}

} // verus!
