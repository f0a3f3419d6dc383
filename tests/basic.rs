use loupe_derive::graph::{Field, SizeError, ValueGraph};
use loupe_derive::tracker::MemoryUsageTracker;
use std::mem::size_of;

#[allow(dead_code)]
struct Point {
    x: i32,
    y: i32,
}

#[allow(dead_code)]
struct Tuple(i32, i32);

#[allow(dead_code)]
struct Generic<T> {
    x: T,
    y: T,
}

struct Empty;

#[allow(dead_code)]
struct Padding {
    x: i8,
    y: i32,
    z: i8,
}

const THINGS_SHELL: usize = 32;

fn counted(node: usize) -> Field {
    Field { node, excluded: false }
}

fn excluded(node: usize) -> Field {
    Field { node, excluded: true }
}

fn record_of_primitives(g: &mut ValueGraph, size: usize, widths: &[usize]) -> usize {
    let mut fields = Vec::new();
    for w in widths {
        fields.push(counted(g.add_primitive(*w)));
    }
    g.add_aggregate(size, fields).unwrap()
}

fn point(g: &mut ValueGraph) -> usize {
    record_of_primitives(g, size_of::<Point>(), &[4, 4])
}

fn points_vec(g: &mut ValueGraph) -> usize {
    let a = point(g);
    let b = point(g);
    g.add_container(size_of::<Vec<Point>>(), 2, size_of::<Point>(), vec![a, b]).unwrap()
}

#[test]
fn test_struct_flat() {
    let mut g = ValueGraph::new();
    let p = point(&mut g);
    assert_eq!(Ok(8), g.size_of_val(p));
}

#[test]
fn test_tuple() {
    let mut g = ValueGraph::new();
    let t = record_of_primitives(&mut g, size_of::<Tuple>(), &[4, 4]);
    assert_eq!(Ok(8), g.size_of_val(t));
}

#[test]
fn test_struct_generic() {
    let mut g = ValueGraph::new();
    let r = record_of_primitives(&mut g, size_of::<Generic<i64>>(), &[8, 8]);
    assert_eq!(Ok(16), g.size_of_val(r));
}

#[test]
fn test_struct_empty() {
    let mut g = ValueGraph::new();
    let e = g.add_aggregate(size_of::<Empty>(), vec![]).unwrap();
    assert_eq!(Ok(0), g.size_of_val(e));
}

#[test]
fn test_struct_padding() {
    let mut g = ValueGraph::new();
    let r = record_of_primitives(&mut g, size_of::<Padding>(), &[1, 4, 1]);
    assert_eq!(Ok(8), g.size_of_val(r));
}

#[test]
fn test_enum() {
    let mut g = ValueGraph::new();
    // A shell laid out with a separate tag word: a 24-byte `Vec` payload
    // plus 8 bytes of tag and padding. Newer compilers may fold the tag into
    // the `Vec`, so the shell size is given here rather than measured.
    let size = THINGS_SHELL;
    let a = g.add_union(size, false, vec![]).unwrap();
    let b = g.add_union(size, false, vec![]).unwrap();
    let c0 = g.add_primitive(4);
    let c = g.add_union(size, false, vec![counted(c0)]).unwrap();
    let d0 = g.add_primitive(4);
    let d = g.add_union(size, false, vec![counted(d0)]).unwrap();
    let e0 = g.add_primitive(4);
    let e1 = g.add_primitive(4);
    let e = g.add_union(size, false, vec![counted(e0), counted(e1)]).unwrap();
    let f0 = g.add_primitive(4);
    let f1 = g.add_primitive(4);
    let f = g.add_union(size, false, vec![counted(f0), counted(f1)]).unwrap();
    assert_eq!(Ok(32), g.size_of_val(a));
    assert_eq!(Ok(32), g.size_of_val(b));
    assert_eq!(Ok(32), g.size_of_val(c));
    assert_eq!(Ok(32), g.size_of_val(d));
    assert_eq!(Ok(32), g.size_of_val(e));
    assert_eq!(Ok(32), g.size_of_val(f));

    let p = point(&mut g);
    assert_eq!(Ok(8), g.size_of_val(p));
    let v = points_vec(&mut g);
    assert_eq!(Ok(40), g.size_of_val(v));
    let w = points_vec(&mut g);
    let u = g.add_union(size, false, vec![counted(w)]).unwrap();
    assert_eq!(Ok(48), g.size_of_val(u));
}

#[test]
fn excluded_variant_adds_nothing() {
    let mut g = ValueGraph::new();
    let w = points_vec(&mut g);
    let u = g.add_union(32, true, vec![counted(w)]).unwrap();
    assert_eq!(Ok(32), g.size_of_val(u));
}

#[test]
fn container_counts_capacity_not_length() {
    let mut g = ValueGraph::new();
    let a = point(&mut g);
    let v = g.add_container(24, 10, 8, vec![a]).unwrap();
    assert_eq!(Ok(24 + 80), g.size_of_val(v));
}

#[test]
fn container_of_boxes_counts_each_pointee() {
    let mut g = ValueGraph::new();
    let a = point(&mut g);
    let b = point(&mut g);
    let pa = g.add_indirection(8, a);
    let pb = g.add_indirection(8, b);
    let v = g.add_container(24, 2, 8, vec![pa, pb]).unwrap();
    assert_eq!(Ok(24 + 16 + 8 + 8), g.size_of_val(v));
}

#[test]
fn shared_allocation_is_counted_once() {
    let mut g = ValueGraph::new();
    let shared = record_of_primitives(&mut g, 16, &[8, 8]);
    let p = g.add_indirection(8, shared);
    let q = g.add_indirection(8, shared);
    let pq = g.add_aggregate(16, vec![counted(p), counted(q)]).unwrap();
    let qp = g.add_aggregate(16, vec![counted(q), counted(p)]).unwrap();
    assert_eq!(Ok(32), g.size_of_val(pq));
    assert_eq!(Ok(32), g.size_of_val(qp));
}

#[test]
fn cycle_terminates_and_counts_once() {
    let mut g = ValueGraph::new();
    // The node after the back pointer is the record it points at.
    let back = g.add_indirection(8, 2);
    let value = g.add_primitive(8);
    let record = g.add_aggregate(16, vec![counted(back), counted(value)]).unwrap();
    assert_eq!(2, record);
    let root = g.add_indirection(8, record);
    assert_eq!(Ok(8 + 16), g.size_of_val(root));
}

#[test]
fn shared_tracker_spans_roots() {
    let mut g = ValueGraph::new();
    let shared = record_of_primitives(&mut g, 16, &[8, 8]);
    let p = g.add_indirection(8, shared);
    let q = g.add_indirection(8, shared);
    let mut tracker = MemoryUsageTracker::new();
    assert_eq!(Ok(24), g.deep_size(p, &mut tracker));
    assert!(tracker.contains(shared));
    assert_eq!(Ok(8), g.deep_size(q, &mut tracker));
}

#[test]
fn borrow_owns_nothing() {
    let mut g = ValueGraph::new();
    let b = g.add_borrow(8);
    let r = g.add_aggregate(8, vec![counted(b)]).unwrap();
    assert_eq!(Ok(8), g.size_of_val(r));
}

#[test]
fn excluded_field_adds_nothing() {
    let mut g = ValueGraph::new();
    let v = points_vec(&mut g);
    let n = g.add_primitive(8);
    let r = g.add_aggregate(32, vec![excluded(v), counted(n)]).unwrap();
    assert_eq!(Ok(32), g.size_of_val(r));
    let s = g.add_aggregate(32, vec![counted(v), counted(n)]).unwrap();
    assert_eq!(Ok(48), g.size_of_val(s));
}

#[test]
fn unknown_root_is_refused() {
    let g = ValueGraph::new();
    assert_eq!(Err(SizeError::UnknownNode), g.size_of_val(0));
}

#[test]
fn dangling_indirection_is_refused() {
    let mut g = ValueGraph::new();
    let p = g.add_indirection(8, 5);
    assert_eq!(Err(SizeError::DanglingIndirection), g.size_of_val(p));
}

#[test]
fn overflow_is_reported() {
    let mut g = ValueGraph::new();
    let v = g.add_container(24, usize::MAX, 2, vec![]).unwrap();
    assert_eq!(Err(SizeError::Overflow), g.size_of_val(v));
    let w = g.add_container(usize::MAX, 1, 1, vec![]).unwrap();
    assert_eq!(Err(SizeError::Overflow), g.size_of_val(w));
}

#[test]
fn builders_refuse_later_parts() {
    let mut g = ValueGraph::new();
    assert_eq!(None, g.add_aggregate(8, vec![counted(0)]));
    assert_eq!(None, g.add_union(8, false, vec![counted(3)]));
    assert_eq!(None, g.add_container(24, 4, 8, vec![0]));
    let a = g.add_primitive(8);
    assert_eq!(None, g.add_container(24, 0, 8, vec![a]));
    assert_eq!(1, g.len());
}

#[test]
fn tracker_insert_reports_novelty() {
    let mut t = MemoryUsageTracker::new();
    assert!(!t.contains(7));
    assert!(t.insert(7));
    assert!(!t.insert(7));
    assert!(t.contains(7));
}
