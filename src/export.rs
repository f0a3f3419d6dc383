use vstd::prelude::*;
use vstd::string::StringExecFns;

use crate::derive::{decimal, decimal_text, join, join_fold, texts};
use crate::graph::{parts, Field, Node, Shape, ValueGraph};

verus! {

/// What kind of value a node is.
pub open spec fn kind_name(node: Node) -> Seq<char> {
    match node.shape {
        Shape::Primitive => "primitive"@,
        Shape::Aggregate { .. } => "aggregate"@,
        Shape::Union { .. } => "union"@,
        Shape::Container { .. } => "container"@,
        Shape::Indirection { .. } => "indirection"@,
        Shape::Borrow => "borrow"@,
    }
}

/// The name of node `k` in the exported text.
pub open spec fn node_name(k: nat) -> Seq<char> {
    "n"@ + decimal(k)
}

/// The positions of the counted parts among the first `n`.
pub open spec fn part_labels(ps: Seq<Field>, n: nat) -> Seq<Seq<char>>
    decreases n,
{
    if n == 0 || n > ps.len() {
        Seq::empty()
    } else {
        part_labels(ps, (n - 1) as nat) + if ps[n - 1].excluded {
            Seq::empty()
        } else {
            seq![decimal((n - 1) as nat)]
        }
    }
}

/// One line per counted part among the first `n` of node `k`, from the
/// part's position to the node that holds it.
pub open spec fn part_edges(k: nat, ps: Seq<Field>, n: nat) -> Seq<char>
    decreases n,
{
    if n == 0 || n > ps.len() {
        Seq::empty()
    } else {
        part_edges(k, ps, (n - 1) as nat) + if ps[n - 1].excluded {
            Seq::empty()
        } else {
            node_name(k) + ":"@ + decimal((n - 1) as nat) + " -> "@ + node_name(
                ps[n - 1].node as nat,
            ) + "\n"@
        }
    }
}

/// The description of node `k`: a block naming its kind and its counted
/// parts, then its edges; an indirection has one edge, to its target.
pub open spec fn node_text(g: Seq<Node>, k: nat) -> Seq<char> {
    let ps = parts(g[k as int]);
    let edges = match g[k as int].shape {
        Shape::Indirection { target } => node_name(k) + " -> "@ + node_name(target as nat)
            + "\n"@,
        _ => part_edges(k, ps, ps.len()),
    };
    node_name(k) + " "@ + kind_name(g[k as int]) + " { "@ + join(
        part_labels(ps, ps.len()),
        " | "@,
        ""@,
    ) + " }\n"@ + edges
}

/// The description of the first `n` nodes.
pub open spec fn graph_text(g: Seq<Node>, n: nat) -> Seq<char>
    decreases n,
{
    if n == 0 || n > g.len() {
        Seq::empty()
    } else {
        graph_text(g, (n - 1) as nat) + node_text(g, (n - 1) as nat)
    }
}

fn node_name_text(k: usize) -> (r: String)
    ensures
        r@ == node_name(k as nat),
{
    let mut r = "n".to_owned();
    let digits = decimal_text(k);
    r.append(digits.as_str());
    r
}

fn kind_text(node: &Node) -> (r: String)
    ensures
        r@ == kind_name(*node),
{
    match &node.shape {
        Shape::Primitive => "primitive".to_owned(),
        Shape::Aggregate { .. } => "aggregate".to_owned(),
        Shape::Union { .. } => "union".to_owned(),
        Shape::Container { .. } => "container".to_owned(),
        Shape::Indirection { .. } => "indirection".to_owned(),
        Shape::Borrow => "borrow".to_owned(),
    }
}

fn node_export(g: &ValueGraph, k: usize) -> (r: String)
    requires
        k < g@.len(),
    ensures
        r@ == node_text(g@, k as nat),
{
    let ghost ps = parts(g@[k as int]);
    let name = node_name_text(k);
    let count = g.part_count(k);
    let mut labels: Vec<String> = Vec::new();
    let mut edges = String::new();
    let mut j: usize = 0;
    while j < count
        invariant
            k < g@.len(),
            ps == parts(g@[k as int]),
            count == ps.len(),
            j <= count,
            name@ == node_name(k as nat),
            texts(labels@) =~= part_labels(ps, j as nat),
            edges@ == part_edges(k as nat, ps, j as nat),
        decreases count - j,
    {
        let f = g.part(k, j);
        if !f.excluded {
            let label = decimal_text(j);
            let ghost before = labels@;
            edges.append(name.as_str());
            edges.append(":");
            edges.append(label.as_str());
            edges.append(" -> ");
            let child = node_name_text(f.node);
            edges.append(child.as_str());
            edges.append("\n");
            labels.push(label);
            proof {
                assert(texts(labels@) =~= texts(before).push(decimal(j as nat)));
            }
        }
        j = j + 1;
    }
    let node = g.node(k);
    match &node.shape {
        Shape::Indirection { target } => {
            edges = name.clone();
            edges.append(" -> ");
            let t = node_name_text(*target);
            edges.append(t.as_str());
            edges.append("\n");
        },
        _ => {},
    }
    let mut r = name;
    r.append(" ");
    let kind = kind_text(node);
    r.append(kind.as_str());
    r.append(" { ");
    let listed = join_fold(&labels, " | ", "");
    r.append(listed.as_str());
    r.append(" }\n");
    r.append(edges.as_str());
    r
}

/// A description of the graph for inspection: for each node, in order, a
/// block naming its kind and its counted parts by position, then one line
/// per ownership edge. Cycles show as edges back to an earlier line.
pub fn export_structure(g: &ValueGraph) -> (r: String)
    ensures
        r@ == graph_text(g@, g@.len()),
{
    let mut r = String::new();
    let mut k: usize = 0;
    while k < g.len()
        invariant
            k <= g@.len(),
            r@ == graph_text(g@, k as nat),
        decreases g@.len() - k,
    {
        let t = node_export(g, k);
        r.append(t.as_str());
        k = k + 1;
    }
    r
}

} // verus!
