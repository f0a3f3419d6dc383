use vstd::prelude::*;

use crate::tracker::MemoryUsageTracker;

verus! {

/// One embedded part of a record: the node that holds its value in place,
/// and whether it is left out of the accounting.
#[derive(Clone, Copy)]
pub struct Field {
    pub node: usize,
    pub excluded: bool,
}

/// How a value is laid out, and what it reaches beyond its own record.
pub enum Shape {
    /// A fixed-width value that owns nothing else.
    Primitive,
    /// A record whose fields are embedded by value.
    Aggregate { fields: Vec<Field> },
    /// A tagged union, given by its active variant.
    Union { variant_excluded: bool, fields: Vec<Field> },
    /// A header whose elements live in one out-of-line block of
    /// `capacity` slots of `element_size` bytes each.
    Container { capacity: usize, element_size: usize, elements: Vec<usize> },
    /// An owning or shared pointer to the allocation `target`.
    Indirection { target: usize },
    /// A reference that owns nothing.
    Borrow,
}

/// A value: its in-place (shallow) size and its shape.
pub struct Node {
    pub size: usize,
    pub shape: Shape,
}

/// Why a deep size could not be given.
#[derive(PartialEq, Eq, Structural, Clone, Copy, Debug)]
pub enum SizeError {
    /// The root names no node of the graph.
    UnknownNode,
    /// Some indirection points at no node of the graph.
    DanglingIndirection,
    /// The size does not fit in `usize`.
    Overflow,
}

/// A value graph. Each node is either embedded in a later node or is an
/// allocation that indirections point at. An embedded part always names an
/// earlier node, so embedding has no cycles; indirections may point anywhere,
/// cycles and sharing included.
pub struct ValueGraph {
    nodes: Vec<Node>,
}

/// The embedded parts of a node, in accounting order.
pub open spec fn parts(node: Node) -> Seq<Field> {
    match node.shape {
        Shape::Aggregate { fields } => fields@,
        Shape::Union { variant_excluded, fields } => if variant_excluded {
            Seq::empty()
        } else {
            fields@
        },
        Shape::Container { elements, .. } => elements@.map_values(
            |e: usize| Field { node: e, excluded: false },
        ),
        _ => Seq::empty(),
    }
}

/// The out-of-line block that a node owns without indirection.
pub open spec fn storage(node: Node) -> nat {
    match node.shape {
        Shape::Container { capacity, element_size, .. } => (capacity * element_size) as nat,
        _ => 0,
    }
}

/// Every embedded part names an earlier node.
pub open spec fn embedding_ordered(g: Seq<Node>) -> bool {
    forall|k: int, j: int|
        0 <= k < g.len() && 0 <= j < parts(g[k]).len() ==> #[trigger] parts(g[k])[j].node < k
}

/// Every indirection names a node of the graph.
pub open spec fn indirections_closed(g: Seq<Node>) -> bool {
    forall|k: int|
        0 <= k < g.len() ==> match #[trigger] g[k].shape {
            Shape::Indirection { target } => target < g.len(),
            _ => true,
        }
}

/// How many of the first `n` identities are not yet in `v`.
pub open spec fn unvisited(n: nat, v: Set<usize>) -> nat
    decreases n,
{
    if n == 0 {
        0
    } else {
        unvisited((n - 1) as nat, v) + if n - 1 <= usize::MAX && !v.contains((n - 1) as usize) {
            1nat
        } else {
            0nat
        }
    }
}

/// Recording more identities never leaves more of them unvisited.
pub proof fn lemma_unvisited_mono(n: nat, v: Set<usize>, w: Set<usize>)
    requires
        v.subset_of(w),
    ensures
        unvisited(n, w) <= unvisited(n, v),
    decreases n,
{
    if n > 0 {
        lemma_unvisited_mono((n - 1) as nat, v, w);
    }
}

/// Recording a new identity of the graph leaves fewer unvisited.
pub proof fn lemma_unvisited_insert(n: nat, v: Set<usize>, t: usize)
    requires
        t < n,
        !v.contains(t),
    ensures
        unvisited(n, v.insert(t)) < unvisited(n, v),
    decreases n,
{
    if t == n - 1 {
        lemma_unvisited_mono((n - 1) as nat, v, v.insert(t));
    } else {
        lemma_unvisited_insert((n - 1) as nat, v, t);
    }
}

/// The bytes that node `n` owns beyond its own record, given the identities
/// `v` already counted, and the identities counted afterwards.
pub open spec fn extra(g: Seq<Node>, n: nat, v: Set<usize>) -> (Set<usize>, nat)
    decreases unvisited(g.len(), v), n, 1nat, 0nat,
{
    if n >= g.len() {
        (v, 0)
    } else {
        match g[n as int].shape {
            Shape::Indirection { target } => {
                if target < g.len() && !v.contains(target) {
                    proof {
                        lemma_unvisited_insert(g.len(), v, target);
                    }
                    let r = extra(g, target as nat, v.insert(target));
                    (r.0, (g[target as int].size + r.1) as nat)
                } else {
                    (v, 0)
                }
            },
            _ => {
                let r = fold(g, n, parts(g[n as int]), 0, v);
                (r.0, storage(g[n as int]) + r.1)
            },
        }
    }
}

/// What the parts `ps[i..]` of a record at position `b` add, in order:
/// each counted part adds its deep size minus its shallow size.
pub open spec fn fold(g: Seq<Node>, b: nat, ps: Seq<Field>, i: nat, v: Set<usize>) -> (
    Set<usize>,
    nat,
)
    decreases unvisited(g.len(), v), b, 0nat, ps.len() - i,
{
    if i >= ps.len() {
        (v, 0)
    } else if ps[i as int].excluded || ps[i as int].node >= b {
        fold(g, b, ps, i + 1, v)
    } else {
        let r = extra(g, ps[i as int].node as nat, v);
        proof {
            lemma_unvisited_mono(g.len(), v, v.union(r.0));
        }
        let rest = fold(g, b, ps, i + 1, v.union(r.0));
        (rest.0, r.1 + rest.1)
    }
}

/// The deep size of node `n`, and the identities counted afterwards.
pub open spec fn deep(g: Seq<Node>, n: nat, v: Set<usize>) -> (Set<usize>, nat) {
    let r = extra(g, n, v);
    (r.0, (g[n as int].size + r.1) as nat)
}


/// Counting never forgets: the identities known after a node's accounting
/// include those known before.
pub proof fn lemma_visited_grows(g: Seq<Node>, n: nat, v: Set<usize>)
    ensures
        v.subset_of(extra(g, n, v).0),
    decreases unvisited(g.len(), v), n, 1nat, 0nat,
{
    if n < g.len() {
        match g[n as int].shape {
            Shape::Indirection { target } => {
                if target < g.len() && !v.contains(target) {
                    lemma_unvisited_insert(g.len(), v, target);
                    lemma_visited_grows(g, target as nat, v.insert(target));
                }
            },
            _ => {
                lemma_fold_visited_grows(g, n, parts(g[n as int]), 0, v);
            },
        }
    }
}

/// The same for the parts of a record.
pub proof fn lemma_fold_visited_grows(g: Seq<Node>, b: nat, ps: Seq<Field>, i: nat, v: Set<usize>)
    ensures
        v.subset_of(fold(g, b, ps, i, v).0),
    decreases unvisited(g.len(), v), b, 0nat, ps.len() - i,
{
    if i < ps.len() {
        if ps[i as int].excluded || ps[i as int].node >= b {
            lemma_fold_visited_grows(g, b, ps, i + 1, v);
        } else {
            let r = extra(g, ps[i as int].node as nat, v);
            lemma_unvisited_mono(g.len(), v, v.union(r.0));
            lemma_fold_visited_grows(g, b, ps, i + 1, v.union(r.0));
        }
    }
}

impl View for ValueGraph {
    type V = Seq<Node>;

    closed spec fn view(&self) -> Seq<Node> {
        self.nodes@
    }
}

impl ValueGraph {
    /// Embedded parts name earlier nodes; every builder keeps this.
    pub open spec fn well_formed(&self) -> bool {
        embedding_ordered(self@)
    }

    pub(crate) fn part_count(&self, n: usize) -> (r: usize)
        requires
            n < self@.len(),
        ensures
            r == parts(self@[n as int]).len(),
    {
        match &self.nodes[n].shape {
            Shape::Aggregate { fields } => fields.len(),
            Shape::Union { variant_excluded, fields } => if *variant_excluded {
                0
            } else {
                fields.len()
            },
            Shape::Container { elements, .. } => elements.len(),
            _ => 0,
        }
    }

    pub(crate) fn part(&self, n: usize, i: usize) -> (r: Field)
        requires
            n < self@.len(),
            i < parts(self@[n as int]).len(),
        ensures
            r == parts(self@[n as int])[i as int],
    {
        match &self.nodes[n].shape {
            Shape::Aggregate { fields } => fields[i],
            Shape::Union { fields, .. } => fields[i],
            Shape::Container { elements, .. } => Field { node: elements[i], excluded: false },
            _ => Field { node: 0, excluded: true },
        }
    }

    /// Counts the bytes node `n` owns beyond its record, recording the
    /// allocations it counts.
    fn extra_of(&self, n: usize, tracker: &mut MemoryUsageTracker) -> (r: Option<usize>)
        requires
            self.well_formed(),
            indirections_closed(self@),
            n < self@.len(),
        ensures
            r is Some <==> extra(self@, n as nat, old(tracker)@).1 <= usize::MAX,
            r is Some ==> r->0 == extra(self@, n as nat, old(tracker)@).1 && final(tracker)@
                == extra(self@, n as nat, old(tracker)@).0,
        decreases unvisited(self@.len(), old(tracker)@), n, 1nat, 0nat,
    {
        let ghost g = self@;
        match &self.nodes[n].shape {
            Shape::Indirection { target } => {
                let t = *target;
                proof {
                    assert(match g[n as int].shape {
                        Shape::Indirection { target } => target < g.len(),
                        _ => true,
                    });
                }
                let ghost v0 = tracker@;
                if tracker.insert(t) {
                    proof {
                        lemma_unvisited_insert(g.len(), v0, t);
                    }
                    match self.extra_of(t, tracker) {
                        None => None,
                        Some(e) => {
                            let s = self.nodes[t].size;
                            if e > usize::MAX - s {
                                None
                            } else {
                                Some(s + e)
                            }
                        },
                    }
                } else {
                    Some(0)
                }
            },
            _ => self.fold_of(n, tracker),
        }
    }

    /// `extra_of` for a node that is not an indirection: its out-of-line
    /// block plus what each counted part adds.
    fn fold_of(&self, n: usize, tracker: &mut MemoryUsageTracker) -> (r: Option<usize>)
        requires
            self.well_formed(),
            indirections_closed(self@),
            n < self@.len(),
            !(self@[n as int].shape is Indirection),
        ensures
            r is Some <==> extra(self@, n as nat, old(tracker)@).1 <= usize::MAX,
            r is Some ==> r->0 == extra(self@, n as nat, old(tracker)@).1 && final(tracker)@
                == extra(self@, n as nat, old(tracker)@).0,
        decreases unvisited(self@.len(), old(tracker)@), n, 0nat, 0nat,
    {
        let ghost g = self@;
        let ghost v0 = tracker@;
        let ghost ps = parts(g[n as int]);
        let base: usize = match &self.nodes[n].shape {
            Shape::Container { capacity, element_size, .. } => match capacity.checked_mul(
                *element_size,
            ) {
                None => {
                    return None;
                },
                Some(s) => s,
            },
            _ => 0,
        };
        let count = self.part_count(n);
        let mut acc: usize = base;
        let mut i: usize = 0;
        while i < count
            invariant
                g == self@,
                self.well_formed(),
                indirections_closed(g),
                n < g.len(),
                !(g[n as int].shape is Indirection),
                ps == parts(g[n as int]),
                count == ps.len(),
                i <= count,
                v0 == old(tracker)@,
                v0.subset_of(tracker@),
                extra(g, n as nat, v0).1 == acc + fold(g, n as nat, ps, i as nat, tracker@).1,
                extra(g, n as nat, v0).0 == fold(g, n as nat, ps, i as nat, tracker@).0,
            decreases count - i,
        {
            let f = self.part(n, i);
            if !f.excluded {
                proof {
                    assert(parts(g[n as int])[i as int].node < n);
                    lemma_unvisited_mono(g.len(), v0, tracker@);
                }
                let ghost vi = tracker@;
                proof {
                    let r = extra(g, f.node as nat, vi);
                    assert(fold(g, n as nat, ps, i as nat, vi).1 == r.1 + fold(
                        g,
                        n as nat,
                        ps,
                        (i + 1) as nat,
                        vi.union(r.0),
                    ).1);
                }
                match self.extra_of(f.node, tracker) {
                    None => {
                        return None;
                    },
                    Some(e) => {
                        proof {
                            lemma_visited_grows(g, f.node as nat, vi);
                            assert(vi.union(tracker@) =~= tracker@);
                            assert(v0.subset_of(tracker@));
                        }
                        if e > usize::MAX - acc {
                            return None;
                        }
                        acc = acc + e;
                    },
                }
            }
            i = i + 1;
        }
        Some(acc)
    }

    /// Node `k`.
    pub fn node(&self, k: usize) -> (r: &Node)
        requires
            k < self@.len(),
        ensures
            *r == self@[k as int],
    {
        &self.nodes[k]
    }

    /// An empty graph.
    pub fn new() -> (r: ValueGraph)
        ensures
            r@ == Seq::<Node>::empty(),
            r.well_formed(),
    {
        ValueGraph { nodes: Vec::new() }
    }

    /// The number of nodes.
    pub fn len(&self) -> (r: usize)
        ensures
            r == self@.len(),
    {
        self.nodes.len()
    }

    fn push(&mut self, node: Node) -> (r: usize)
        requires
            old(self).well_formed(),
            forall|j: int|
                0 <= j < parts(node).len() ==> #[trigger] parts(node)[j].node < old(self)@.len(),
        ensures
            r == old(self)@.len(),
            final(self)@ == old(self)@.push(node),
            final(self).well_formed(),
    {
        let r = self.nodes.len();
        self.nodes.push(node);
        proof {
            let g = self@;
            assert forall|k: int, j: int|
                0 <= k < g.len() && 0 <= j < parts(g[k]).len() implies #[trigger] parts(
                g[k],
            )[j].node < k by {
                if k < r {
                    assert(g[k] == old(self)@[k]);
                }
            }
        }
        r
    }

    fn fields_precede(fields: &Vec<Field>, bound: usize) -> (r: bool)
        ensures
            r == forall|j: int| 0 <= j < fields@.len() ==> #[trigger] fields@[j].node < bound,
    {
        let mut i: usize = 0;
        while i < fields.len()
            invariant
                i <= fields@.len(),
                forall|j: int| 0 <= j < i ==> #[trigger] fields@[j].node < bound,
            decreases fields@.len() - i,
        {
            if fields[i].node >= bound {
                return false;
            }
            i = i + 1;
        }
        true
    }

    /// Adds a fixed-width value of `size` bytes; returns its node.
    pub fn add_primitive(&mut self, size: usize) -> (r: usize)
        requires
            old(self).well_formed(),
        ensures
            r == old(self)@.len(),
            final(self)@ == old(self)@.push(Node { size, shape: Shape::Primitive }),
            final(self).well_formed(),
    {
        self.push(Node { size, shape: Shape::Primitive })
    }

    /// Adds a reference of `size` bytes that owns nothing; returns its node.
    pub fn add_borrow(&mut self, size: usize) -> (r: usize)
        requires
            old(self).well_formed(),
        ensures
            r == old(self)@.len(),
            final(self)@ == old(self)@.push(Node { size, shape: Shape::Borrow }),
            final(self).well_formed(),
    {
        self.push(Node { size, shape: Shape::Borrow })
    }

    /// Adds a pointer of `size` bytes to the allocation `target`, which may
    /// be added later; returns its node.
    pub fn add_indirection(&mut self, size: usize, target: usize) -> (r: usize)
        requires
            old(self).well_formed(),
        ensures
            r == old(self)@.len(),
            final(self)@ == old(self)@.push(Node { size, shape: Shape::Indirection { target } }),
            final(self).well_formed(),
    {
        self.push(Node { size, shape: Shape::Indirection { target } })
    }

    /// Adds a record of `size` bytes embedding `fields`; `None`, and no
    /// change, when a field names no existing node.
    pub fn add_aggregate(&mut self, size: usize, fields: Vec<Field>) -> (r: Option<usize>)
        requires
            old(self).well_formed(),
        ensures
            final(self).well_formed(),
            r is Some <==> forall|j: int|
                0 <= j < fields@.len() ==> #[trigger] fields@[j].node < old(self)@.len(),
            r is Some ==> r->0 == old(self)@.len() && final(self)@ == old(self)@.push(
                Node { size, shape: Shape::Aggregate { fields } },
            ),
            r is None ==> final(self)@ == old(self)@,
    {
        if !Self::fields_precede(&fields, self.nodes.len()) {
            return None;
        }
        Some(self.push(Node { size, shape: Shape::Aggregate { fields } }))
    }

    /// Adds a tagged union of `size` bytes whose active variant embeds
    /// `fields`, or is excluded from the accounting; `None`, and no change,
    /// when a field names no existing node.
    pub fn add_union(&mut self, size: usize, variant_excluded: bool, fields: Vec<Field>) -> (r:
        Option<usize>)
        requires
            old(self).well_formed(),
        ensures
            final(self).well_formed(),
            r is Some <==> forall|j: int|
                0 <= j < fields@.len() ==> #[trigger] fields@[j].node < old(self)@.len(),
            r is Some ==> r->0 == old(self)@.len() && final(self)@ == old(self)@.push(
                Node { size, shape: Shape::Union { variant_excluded, fields } },
            ),
            r is None ==> final(self)@ == old(self)@,
    {
        if !Self::fields_precede(&fields, self.nodes.len()) {
            return None;
        }
        Some(self.push(Node { size, shape: Shape::Union { variant_excluded, fields } }))
    }

    /// Adds a container whose header takes `size` bytes and whose backing
    /// block has `capacity` slots of `element_size` bytes, the first of them
    /// holding `elements`; `None`, and no change, when an element names no
    /// existing node or there are more elements than slots.
    pub fn add_container(
        &mut self,
        size: usize,
        capacity: usize,
        element_size: usize,
        elements: Vec<usize>,
    ) -> (r: Option<usize>)
        requires
            old(self).well_formed(),
        ensures
            final(self).well_formed(),
            r is Some <==> elements@.len() <= capacity && forall|j: int|
                0 <= j < elements@.len() ==> #[trigger] elements@[j] < old(self)@.len(),
            r is Some ==> r->0 == old(self)@.len() && final(self)@ == old(self)@.push(
                Node { size, shape: Shape::Container { capacity, element_size, elements } },
            ),
            r is None ==> final(self)@ == old(self)@,
    {
        if elements.len() > capacity {
            return None;
        }
        let bound = self.nodes.len();
        let mut i: usize = 0;
        while i < elements.len()
            invariant
                i <= elements@.len(),
                bound == old(self)@.len(),
                self@ == old(self)@,
                self.well_formed(),
                forall|j: int| 0 <= j < i ==> #[trigger] elements@[j] < bound,
            decreases elements@.len() - i,
        {
            if elements[i] >= bound {
                return None;
            }
            i = i + 1;
        }
        self.push(Node { size, shape: Shape::Container { capacity, element_size, elements } });
        Some(bound)
    }

    /// Whether every indirection of the graph points at one of its nodes.
    pub fn is_closed(&self) -> (r: bool)
        ensures
            r == indirections_closed(self@),
    {
        let mut k: usize = 0;
        while k < self.nodes.len()
            invariant
                k <= self@.len(),
                forall|m: int|
                    0 <= m < k ==> match #[trigger] self@[m].shape {
                        Shape::Indirection { target } => target < self@.len(),
                        _ => true,
                    },
            decreases self@.len() - k,
        {
            match &self.nodes[k].shape {
                Shape::Indirection { target } => {
                    if *target >= self.nodes.len() {
                        return false;
                    }
                },
                _ => {},
            }
            k = k + 1;
        }
        true
    }

    /// The deep size of `root`: its own record plus everything it reaches
    /// that `tracker` has not counted yet. The allocations counted are
    /// added to `tracker`, so that several roots can share one.
    pub fn deep_size(&self, root: usize, tracker: &mut MemoryUsageTracker) -> (r: Result<
        usize,
        SizeError,
    >)
        requires
            self.well_formed(),
        ensures
            root >= self@.len() ==> r == Err::<usize, SizeError>(SizeError::UnknownNode)
                && final(tracker)@ == old(tracker)@,
            root < self@.len() && !indirections_closed(self@) ==> r == Err::<usize, SizeError>(
                SizeError::DanglingIndirection,
            ) && final(tracker)@ == old(tracker)@,
            root < self@.len() && indirections_closed(self@) ==> {
                let d = deep(self@, root as nat, old(tracker)@);
                &&& (r == Err::<usize, SizeError>(SizeError::Overflow) <==> d.1 > usize::MAX)
                &&& (d.1 <= usize::MAX ==> r == Ok::<usize, SizeError>(d.1 as usize)
                    && final(tracker)@ == d.0)
            },
    {
        if root >= self.nodes.len() {
            return Err(SizeError::UnknownNode);
        }
        if !self.is_closed() {
            return Err(SizeError::DanglingIndirection);
        }
        match self.extra_of(root, tracker) {
            None => Err(SizeError::Overflow),
            Some(e) => {
                let s = self.nodes[root].size;
                if e > usize::MAX - s {
                    Err(SizeError::Overflow)
                } else {
                    Ok(s + e)
                }
            },
        }
    }

    /// The deep size of `root` in a computation of its own.
    pub fn size_of_val(&self, root: usize) -> (r: Result<usize, SizeError>)
        requires
            self.well_formed(),
        ensures
            root >= self@.len() ==> r == Err::<usize, SizeError>(SizeError::UnknownNode),
            root < self@.len() && !indirections_closed(self@) ==> r == Err::<usize, SizeError>(
                SizeError::DanglingIndirection,
            ),
            root < self@.len() && indirections_closed(self@) ==> {
                let d = deep(self@, root as nat, Set::empty());
                &&& (r == Err::<usize, SizeError>(SizeError::Overflow) <==> d.1 > usize::MAX)
                &&& (d.1 <= usize::MAX ==> r == Ok::<usize, SizeError>(d.1 as usize))
            },
    {
        let mut tracker = MemoryUsageTracker::new();
        self.deep_size(root, &mut tracker)
    }
}

} // verus!
