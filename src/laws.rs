use vstd::prelude::*;

use crate::graph::{
    deep, extra, fold, lemma_unvisited_mono, lemma_visited_grows, parts, storage, Field, Node,
    Shape,
};

verus! {

/// Two indirections to one allocation charge it once between them, in
/// either order: the first pays the allocation's full deep size, the second
/// nothing.
pub proof fn lemma_shared_allocation_counted_once(g: Seq<Node>, p: nat, q: nat, v: Set<usize>)
    requires
        p < g.len(),
        q < g.len(),
        g[p as int].shape is Indirection,
        g[q as int].shape is Indirection,
        g[p as int].shape->Indirection_target == g[q as int].shape->Indirection_target,
        g[p as int].shape->Indirection_target < g.len(),
        !v.contains(g[p as int].shape->Indirection_target),
    ensures
        ({
            let t = g[p as int].shape->Indirection_target;
            &&& extra(g, p, v) == extra(g, q, v)
            &&& extra(g, p, v).1 == deep(g, t as nat, v.insert(t)).1
            &&& extra(g, q, extra(g, p, v).0) == (extra(g, p, v).0, 0nat)
            &&& extra(g, p, extra(g, q, v).0) == (extra(g, q, v).0, 0nat)
        }),
{
    let t = g[p as int].shape->Indirection_target;
    lemma_visited_grows(g, t as nat, v.insert(t));
    assert(extra(g, p, v).0.contains(t));
}

/// An indirection to an allocation that is already counted, such as a
/// back-edge of a cycle reached while its target is being counted, adds
/// nothing and records nothing.
pub proof fn lemma_counted_allocation_adds_nothing(g: Seq<Node>, p: nat, v: Set<usize>)
    requires
        p < g.len(),
        g[p as int].shape is Indirection,
        v.contains(g[p as int].shape->Indirection_target),
    ensures
        extra(g, p, v) == (v, 0nat),
{
}

/// An allocation is recorded before its contents are counted: whatever its
/// contents reach sees it as counted already.
pub proof fn lemma_allocation_recorded_first(g: Seq<Node>, p: nat, v: Set<usize>)
    requires
        p < g.len(),
        g[p as int].shape is Indirection,
        g[p as int].shape->Indirection_target < g.len(),
        !v.contains(g[p as int].shape->Indirection_target),
    ensures
        ({
            let t = g[p as int].shape->Indirection_target;
            let inner = extra(g, t as nat, v.insert(t));
            &&& extra(g, p, v) == (inner.0, (g[t as int].size + inner.1) as nat)
            &&& inner.0.contains(t)
        }),
{
    let t = g[p as int].shape->Indirection_target;
    lemma_visited_grows(g, t as nat, v.insert(t));
}

proof fn lemma_fold_shift(g: Seq<Node>, b: nat, ps: Seq<Field>, k: nat, j: nat, v: Set<usize>)
    requires
        k < ps.len(),
        k <= j,
    ensures
        fold(g, b, ps, j + 1, v) == fold(g, b, ps.remove(k as int), j, v),
    decreases crate::graph::unvisited(g.len(), v), ps.len() - j,
{
    let rm = ps.remove(k as int);
    if j + 1 < ps.len() {
        assert(rm[j as int] == ps[(j + 1) as int]);
        let f = ps[(j + 1) as int];
        if f.excluded || f.node >= b {
            lemma_fold_shift(g, b, ps, k, j + 1, v);
        } else {
            let r = extra(g, f.node as nat, v);
            lemma_unvisited_mono(g.len(), v, v.union(r.0));
            lemma_fold_shift(g, b, ps, k, j + 1, v.union(r.0));
        }
    }
}

proof fn lemma_fold_remove(g: Seq<Node>, b: nat, ps: Seq<Field>, k: nat, i: nat, v: Set<usize>)
    requires
        k < ps.len(),
        ps[k as int].excluded,
        i <= k,
    ensures
        fold(g, b, ps, i, v) == fold(g, b, ps.remove(k as int), i, v),
    decreases crate::graph::unvisited(g.len(), v), k - i,
{
    let rm = ps.remove(k as int);
    if i == k {
        lemma_fold_shift(g, b, ps, k, k, v);
    } else {
        assert(rm[i as int] == ps[i as int]);
        let f = ps[i as int];
        if f.excluded || f.node >= b {
            lemma_fold_remove(g, b, ps, k, i + 1, v);
        } else {
            let r = extra(g, f.node as nat, v);
            lemma_unvisited_mono(g.len(), v, v.union(r.0));
            lemma_fold_remove(g, b, ps, k, i + 1, v.union(r.0));
        }
    }
}

/// An excluded part adds nothing: the parts of a record add up to the same
/// bytes, and record the same allocations, with that part taken out. The
/// record's own shallow size is not among the parts, so it is unaffected.
pub proof fn lemma_excluded_part_adds_nothing(
    g: Seq<Node>,
    b: nat,
    ps: Seq<Field>,
    k: nat,
    v: Set<usize>,
)
    requires
        k < ps.len(),
        ps[k as int].excluded,
    ensures
        fold(g, b, ps, 0, v) == fold(g, b, ps.remove(k as int), 0, v),
{
    lemma_fold_remove(g, b, ps, k, 0, v);
}

/// Parts that own nothing add nothing.
proof fn lemma_fold_flat(g: Seq<Node>, b: nat, ps: Seq<Field>, i: nat, v: Set<usize>)
    requires
        forall|j: int|
            0 <= j < ps.len() && ps[j].node < g.len() ==> {
                ||| g[ps[j].node as int].shape is Primitive
                ||| g[ps[j].node as int].shape is Borrow
            },
    ensures
        fold(g, b, ps, i, v) == (v, 0nat),
    decreases ps.len() - i,
{
    if i < ps.len() {
        let f = ps[i as int];
        if !(f.excluded || f.node >= b) {
            if f.node < g.len() {
                assert(parts(g[f.node as int]) =~= Seq::<Field>::empty());
                assert(fold(g, f.node as nat, Seq::<Field>::empty(), 0, v) == (v, 0nat));
                assert(storage(g[f.node as int]) == 0);
            }
            assert(extra(g, f.node as nat, v) == (v, 0nat));
            assert(v.union(v) =~= v);
        }
        lemma_fold_flat(g, b, ps, i + 1, v);
    }
}

/// A record or tagged union whose parts are all fixed-width values has a
/// deep size equal to its own shallow size, padding included, whatever those
/// parts hold and whichever variant is active.
pub proof fn lemma_flat_record_is_its_shallow_size(g: Seq<Node>, n: nat, v: Set<usize>)
    requires
        n < g.len(),
        g[n as int].shape is Aggregate || g[n as int].shape is Union,
        forall|j: int|
            0 <= j < parts(g[n as int]).len() && parts(g[n as int])[j].node < g.len() ==> {
                ||| g[parts(g[n as int])[j].node as int].shape is Primitive
                ||| g[parts(g[n as int])[j].node as int].shape is Borrow
            },
    ensures
        deep(g, n, v) == (v, g[n as int].size as nat),
{
    lemma_fold_flat(g, n, parts(g[n as int]), 0, v);
    assert(storage(g[n as int]) == 0);
}

} // verus!
