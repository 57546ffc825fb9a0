//! The mesh: nodes, edges, geometric elements and refinable elems, with the
//! one-time topology build from raw connectivity.

use crate::elem::Elem;
use crate::elem::ElemUninit;
use crate::refinement::HLevels;
use crate::refinement::HRef;
use crate::refinement::HRefError;
use crate::refinement::PolyOrders;
use crate::refinement::PRefError;
use crate::element::Element;
use crate::element::Materials;
use crate::space::ParaDir;
use crate::space::ParaRange;
use crate::space::Point;
use vstd::prelude::*;

verus! {

/// A mesh vertex: its location and whether it lies on the domain boundary
/// (true exactly when fewer than four elements share it). Immutable after
/// the mesh is built; refinement appends new nodes.
#[derive(Clone, Copy, Debug, PartialEq, Eq, Structural)]
pub struct Node {
    pub id: usize,
    pub coords: Point,
    pub boundary: bool,
}

/// A mesh edge: its two endpoint nodes in ascending parametric order, its
/// orientation axis, the elements adjacent on its two sides, and whether it
/// lies on the domain boundary (true exactly when one side is empty).
#[derive(Clone, Copy, Debug, PartialEq, Eq)]
pub struct Edge {
    pub id: usize,
    pub nodes: [usize; 2],
    pub dir: ParaDir,
    pub adjacent_elems: [Option<usize>; 2],
    pub boundary: bool,
}

/// One element of the raw connectivity a mesh is built from: four node ids
/// in corner order and the four material components.
#[derive(Clone, Copy, Debug, PartialEq, Eq)]
pub struct RawElement {
    pub node_ids: [usize; 4],
    pub materials: [u64; 4],
}

/// Fatal mesh-construction failures: assembly cannot proceed on a mesh that
/// breaks any of these.
#[derive(Clone, Copy, Debug, PartialEq, Eq, Structural)]
pub enum MeshError {
    /// An element names a node id at or past the number of nodes.
    NodeIdOutOfRange(usize),
    /// An element's four node ids are not unique.
    ElementNodeRepeated(usize),
    /// Two nodes share one location.
    DuplicateNodeLocations,
    /// A node is referenced by more than four elements.
    NodeSharedByTooManyElements(usize),
    /// A node is referenced by no element.
    UnreferencedNode(usize),
    /// An element's four edges cannot be assigned consistently.
    InvalidEdgeConnectivity(usize),
}

/// Whether any two positions of `values` hold the same id.
pub fn has_duplicates(values: &[usize]) -> (r: bool)
    ensures
        r == exists|i: int, j: int| 0 <= i < j < values@.len() && values@[i] == values@[j],
{
    let n = values.len();
    let mut i: usize = 0;
    while i < n
        invariant
            n == values@.len(),
            0 <= i <= n,
            forall|p: int, q: int| 0 <= p < q < n && p < i ==> values@[p] != values@[q],
        decreases n - i,
    {
        let mut j = i + 1;
        while j < n
            invariant
                n == values@.len(),
                0 <= i < j <= n,
                forall|q: int| i < q < j ==> values@[i as int] != values@[q],
            decreases n - j,
        {
            if values[i] == values[j] {
                return true;
            }
            j += 1;
        }
        i += 1;
    }
    false
}

/// All four node ids of `el` name existing nodes.
pub open spec fn element_ids_in_range(el: RawElement, n_points: int) -> bool {
    forall|s: int| 0 <= s < 4 ==> (#[trigger] el.node_ids[s]) < n_points
}

/// The four node ids of `el` are pairwise distinct.
pub open spec fn element_ids_unique(el: RawElement) -> bool {
    forall|s: int, t: int| 0 <= s < t < 4 ==> el.node_ids[s] != el.node_ids[t]
}

/// Two positions of `points` hold the same location.
pub open spec fn has_duplicate_points(points: Seq<Point>) -> bool {
    exists|i: int, j: int| 0 <= i < j < points.len() && points[i] == points[j]
}

/// How many of the first `upto` corner slots of one raw element reference
/// node `n`.
pub open spec fn node_refs_in_slots(el: RawElement, upto: int, n: int) -> int
    decreases upto,
{
    if upto <= 0 {
        0
    } else {
        node_refs_in_slots(el, upto - 1, n) + if el.node_ids[upto - 1] == n {
            1int
        } else {
            0int
        }
    }
}

/// How many corner slots of the first `upto` raw elements reference node `n`.
pub open spec fn node_refs(raw: Seq<RawElement>, upto: int, n: int) -> int
    decreases upto,
{
    if upto <= 0 {
        0
    } else {
        node_refs(raw, upto - 1, n) + node_refs_in_slots(raw[upto - 1], 4, n)
    }
}

/// The ids of a refined elem's children are valid indices past its own.
pub open spec fn child_ids_ok(el: Elem, n_elems: int, k: int) -> bool {
    forall|c: int|
        0 <= c < (el.children->0).0@.len() ==> k < #[trigger] ((el.children->0).0@[c]) && (
        el.children->0).0@[c] < n_elems
}

/// The elem stored at `cid` is exactly the `c`-th child that a
/// `refinement` of `parent` describes: fresh leaf, parent linkage and
/// location, advanced depths, inherited orders, and the matching
/// parametric sub-rectangle.
pub open spec fn child_matches(
    m_elems: Seq<Elem>,
    parent: Elem,
    refinement: HRef,
    c: int,
    cid: int,
) -> bool {
    &&& 0 <= cid < m_elems.len()
    &&& {
        let child = m_elems[cid];
        &&& child.id == cid
        &&& child.element_id == parent.element_id
        &&& child.children is None
        &&& child.parent == Some(
            crate::elem::ParentLink { id: parent.id, loc: refinement.spec_location(c) },
        )
        &&& child.h_levels == parent.h_levels.spec_refined(refinement)
        &&& child.poly_orders == parent.poly_orders
        &&& child.range == crate::refinement::spec_child_range(parent.range, refinement, c)
    }
}

/// `d` lies strictly inside `anc`'s domain through refinement: following
/// parent links upward from `d` reaches `anc`.
pub open spec fn is_descendant_of(elems: Seq<Elem>, d: int, anc: int) -> bool
    decreases d,
{
    if 0 <= d < elems.len() && elems[d].parent is Some {
        let p = elems[d].parent->0.id as int;
        if 0 <= p < d {
            p == anc || is_descendant_of(elems, p, anc)
        } else {
            false
        }
    } else {
        false
    }
}

/// Being a descendant is transitive through any intermediate ancestor.
pub proof fn lemma_descendant_trans(elems: Seq<Elem>, x: int, mid: int, anc: int)
    requires
        is_descendant_of(elems, x, mid),
        is_descendant_of(elems, mid, anc),
    ensures
        is_descendant_of(elems, x, anc),
    decreases x,
{
    let p = elems[x].parent->0.id as int;
    if p == mid {
    } else {
        lemma_descendant_trans(elems, p, mid, anc);
    }
}

/// Parent links run strictly backwards, and every listed child points back
/// to the elem that lists it.
pub open spec fn elems_linked(elems: Seq<Elem>) -> bool {
    &&& forall|k: int|
        0 <= k < elems.len() && (#[trigger] elems[k]).parent is Some ==> (
        elems[k].parent->0.id as int) < k
    &&& forall|k: int, c: int|
        0 <= k < elems.len() && (#[trigger] elems[k]).children is Some && 0 <= c < (
        elems[k].children->0).0@.len() ==> {
            let cid = (#[trigger] ((elems[k].children->0).0@[c])) as int;
            &&& 0 <= cid < elems.len()
            &&& elems[cid].parent is Some
            &&& elems[cid].parent->0.id == k
        }
    &&& forall|k: int|
        0 <= k < elems.len() && (#[trigger] elems[k]).parent is Some ==> {
            let p = elems[k].parent->0.id as int;
            &&& elems[p].children is Some
            &&& (elems[p].children->0).0@.contains(k as usize)
        }
}

/// Linkage only reads parent and children fields, so any update leaving
/// them untouched preserves it.
pub proof fn lemma_linked_frame(pre: Seq<Elem>, post: Seq<Elem>)
    requires
        pre.len() == post.len(),
        forall|k: int|
            0 <= k < pre.len() ==> (#[trigger] post[k]).parent == pre[k].parent && post[k].children
                == pre[k].children,
        elems_linked(pre),
    ensures
        elems_linked(post),
{
    assert forall|k: int|
        0 <= k < post.len() && (#[trigger] post[k]).parent is Some implies (
    post[k].parent->0.id as int) < k by {
        assert(post[k].parent == pre[k].parent);
    }
    assert forall|k: int, c: int|
        0 <= k < post.len() && (#[trigger] post[k]).children is Some && 0 <= c < (
        post[k].children->0).0@.len() implies {
        let cid = (#[trigger] ((post[k].children->0).0@[c])) as int;
        &&& 0 <= cid < post.len()
        &&& post[cid].parent is Some
        &&& post[cid].parent->0.id == k
    } by {
        assert(post[k].children == pre[k].children);
        let cid = ((pre[k].children->0).0@[c]) as int;
        assert(0 <= cid < pre.len());
        assert(pre[cid].parent is Some && pre[cid].parent->0.id == k);
        assert(post[cid].parent == pre[cid].parent);
    }
    assert forall|k: int|
        0 <= k < post.len() && (#[trigger] post[k]).parent is Some implies {
        let p = post[k].parent->0.id as int;
        &&& post[p].children is Some
        &&& (post[p].children->0).0@.contains(k as usize)
    } by {
        assert(post[k].parent == pre[k].parent);
        let p = pre[k].parent->0.id as int;
        assert(pre[p].children is Some && (pre[p].children->0).0@.contains(k as usize));
        assert(post[p].children == pre[p].children);
    }
}

/// A descendant of `anc` is one of `anc`'s listed children or a descendant
/// of one of them.
pub proof fn lemma_descendant_step(elems: Seq<Elem>, d: int, anc: int)
    requires
        elems_linked(elems),
        is_descendant_of(elems, d, anc),
        0 <= anc < elems.len(),
        elems.len() <= usize::MAX,
    ensures
        elems[anc].children is Some,
        exists|c: int|
            0 <= c < (elems[anc].children->0).0@.len() && {
                let cid = (#[trigger] ((elems[anc].children->0).0@[c])) as int;
                d == cid || is_descendant_of(elems, d, cid)
            },
    decreases d,
{
    let p = elems[d].parent->0.id as int;
    if p == anc {
        assert((elems[anc].children->0).0@.contains(d as usize));
        let lst = (elems[anc].children->0).0@;
        let c = choose|c: int| 0 <= c < lst.len() && lst[c] == (d as usize);
        assert((lst[c]) as int == d);
    } else {
        lemma_descendant_step(elems, p, anc);
        let c = choose|c: int|
            0 <= c < (elems[anc].children->0).0@.len() && {
                let cid = (#[trigger] ((elems[anc].children->0).0@[c])) as int;
                p == cid || is_descendant_of(elems, p, cid)
            };
        let cid = ((elems[anc].children->0).0@[c]) as int;
        assert(is_descendant_of(elems, d, cid));
    }
}

/// Geometric structure and refinement state of a discretized domain.
pub struct Mesh {
    /// Immutable rectangular element geometry, indexed by elem `element_id`.
    pub elements: Vec<Element>,
    /// Refinement-tree nodes; roots correspond one to one with `elements`.
    pub elems: Vec<Elem>,
    pub nodes: Vec<Node>,
    pub edges: Vec<Edge>,
    /// For each edge, the node splitting it once a refinement has created
    /// one, so that neighboring refinements share it.
    pub edge_mids: Vec<Option<usize>>,
}

impl Mesh {
    /// Every id is its index, every cross-reference is in range, and every
    /// child list points strictly forward.
    pub open spec fn wf(self) -> bool {
        &&& forall|k: int| 0 <= k < self.elems@.len() ==> (#[trigger] self.elems@[k]).id == k
        &&& forall|k: int|
            0 <= k < self.elems@.len() ==> (#[trigger] self.elems@[k]).element_id
                < self.elements@.len()
        &&& forall|k: int, s: int|
            0 <= k < self.elems@.len() && 0 <= s < 4 ==> (#[trigger] self.elems@[k].nodes[s])
                < self.nodes@.len() && self.elems@[k].edges[s] < self.edges@.len()
        &&& forall|k: int|
            0 <= k < self.elems@.len() && (#[trigger] self.elems@[k]).children is Some
                ==> child_ids_ok(self.elems@[k], self.elems@.len() as int, k)
        &&& forall|n: int| 0 <= n < self.nodes@.len() ==> (#[trigger] self.nodes@[n]).id == n
        &&& forall|e: int| 0 <= e < self.edges@.len() ==> (#[trigger] self.edges@[e]).id == e
        &&& forall|e: int, s: int|
            0 <= e < self.edges@.len() && 0 <= s < 2 ==> (#[trigger] self.edges@[e].nodes[s])
                < self.nodes@.len()
        &&& self.edge_mids@.len() == self.edges@.len()
        &&& forall|e: int|
            0 <= e < self.edge_mids@.len() && (#[trigger] self.edge_mids@[e]) is Some
                ==> self.edge_mids@[e]->0 < self.nodes@.len()
    }

    /// Parent links run strictly backwards, and every listed child points
    /// back to the elem that lists it.
    pub open spec fn children_linked(self) -> bool {
        elems_linked(self.elems@)
    }

    /// An empty mesh.
    pub fn blank() -> (r: Self)
        ensures
            r.wf(),
            r.children_linked(),
            r.elements@.len() == 0,
            r.elems@.len() == 0,
            r.nodes@.len() == 0,
            r.edges@.len() == 0,
    {
        Self {
            elements: Vec::new(),
            elems: Vec::new(),
            nodes: Vec::new(),
            edges: Vec::new(),
            edge_mids: Vec::new(),
        }
    }
}

/// A slot-count prefix is between zero and its length.
proof fn lemma_refs_slots_bounds(el: RawElement, u: int, n: int)
    requires
        0 <= u,
    ensures
        0 <= node_refs_in_slots(el, u, n) <= u,
    decreases u,
{
    if u > 0 {
        lemma_refs_slots_bounds(el, u - 1, n);
    }
}

/// Slot counts only grow as more slots are considered.
proof fn lemma_refs_slots_mono(el: RawElement, a: int, b: int, n: int)
    requires
        0 <= a <= b,
    ensures
        node_refs_in_slots(el, a, n) <= node_refs_in_slots(el, b, n),
    decreases b - a,
{
    if a < b {
        lemma_refs_slots_mono(el, a, b - 1, n);
    }
}

/// Reference counts only grow as more elements are considered.
proof fn lemma_node_refs_mono(raw: Seq<RawElement>, a: int, b: int, n: int)
    requires
        0 <= a <= b <= raw.len(),
    ensures
        node_refs(raw, a, n) <= node_refs(raw, b, n),
    decreases b - a,
{
    if a < b {
        lemma_node_refs_mono(raw, a, b - 1, n);
        lemma_refs_slots_bounds(raw[b - 1], 4, n);
    }
}

/// How many sides of an edge have an adjacent element.
pub open spec fn edge_adj_count(e: Edge) -> int {
    (if e.adjacent_elems[0] is Some {
        1int
    } else {
        0int
    }) + (if e.adjacent_elems[1] is Some {
        1int
    } else {
        0int
    })
}

/// The scan rank of an axis: u-directed pairs sort before v-directed ones.
fn dir_rank(dir: ParaDir) -> (r: usize)
    ensures
        dir == ParaDir::U ==> r == 0,
        dir == ParaDir::V ==> r == 1,
{
    match dir {
        ParaDir::U => 0,
        ParaDir::V => 1,
    }
}

/// One slot of a two-slot option array replaced.
fn set_slot2(arr: [Option<usize>; 2], idx: usize, v: usize) -> (r: [Option<usize>; 2])
    requires
        idx < 2,
    ensures
        r[idx as int] == Some(v),
        forall|k: int| 0 <= k < 2 && k != idx ==> r[k] == arr[k],
{
    if idx == 0 {
        [Some(v), arr[1]]
    } else {
        [arr[0], Some(v)]
    }
}

/// One slot of a four-slot option array replaced.
fn set_slot4(arr: [Option<usize>; 4], idx: usize, v: usize) -> (r: [Option<usize>; 4])
    requires
        idx < 4,
    ensures
        r[idx as int] == Some(v),
        forall|k: int| 0 <= k < 4 && k != idx ==> r[k] == arr[k],
{
    if idx == 0 {
        [Some(v), arr[1], arr[2], arr[3]]
    } else if idx == 1 {
        [arr[0], Some(v), arr[2], arr[3]]
    } else if idx == 2 {
        [arr[0], arr[1], Some(v), arr[3]]
    } else {
        [arr[0], arr[1], arr[2], Some(v)]
    }
}

/// The edge at one of an element's four slots carries exactly that side's
/// corner pair and axis: slot zero the bottom pair, slot one the top pair
/// (both u-directed), slot two the left pair and slot three the right pair
/// (both v-directed).
pub open spec fn edge_fits_side(eg: Edge, el: RawElement, s: int) -> bool {
    if s == 0 {
        eg.nodes[0] == el.node_ids[0] && eg.nodes[1] == el.node_ids[1] && eg.dir == ParaDir::U
    } else if s == 1 {
        eg.nodes[0] == el.node_ids[2] && eg.nodes[1] == el.node_ids[3] && eg.dir == ParaDir::U
    } else if s == 2 {
        eg.nodes[0] == el.node_ids[0] && eg.nodes[1] == el.node_ids[2] && eg.dir == ParaDir::V
    } else {
        eg.nodes[0] == el.node_ids[1] && eg.nodes[1] == el.node_ids[3] && eg.dir == ParaDir::V
    }
}

/// A pending edge's node pair, axis and adjacency slot name one of the four
/// edge definitions of the element adjacent there.
pub open spec fn rec_matches_def(n0: usize, n1: usize, dir: ParaDir, s: int, el: RawElement) -> bool {
    ||| (s == 1 && dir == ParaDir::U && n0 == el.node_ids[0] && n1 == el.node_ids[1])
    ||| (s == 0 && dir == ParaDir::U && n0 == el.node_ids[2] && n1 == el.node_ids[3])
    ||| (s == 1 && dir == ParaDir::V && n0 == el.node_ids[0] && n1 == el.node_ids[2])
    ||| (s == 0 && dir == ParaDir::V && n0 == el.node_ids[1] && n1 == el.node_ids[3])
}

/// A pending edge while the topology is derived: its key node pair, its
/// axis, and the element adjacent on each side.
#[derive(Clone, Copy, Debug)]
struct EdgeRec {
    n0: usize,
    n1: usize,
    dir: ParaDir,
    adj: [Option<usize>; 2],
}

impl Mesh {
    /// Build the mesh topology from raw node locations and element
    /// connectivity: validate the connectivity, mark boundary nodes, derive
    /// the edges with their adjacency and boundary flags, and assign each
    /// element its four ordered edges.
    ///
    /// On success, every node is shared by at most four elements and is a
    /// boundary node exactly when shared by fewer than four; every edge has
    /// one or two adjacent elements and is a boundary edge exactly when it
    /// has one.
    pub fn from_raw(points: Vec<Point>, raw_elems: Vec<RawElement>) -> (r: Result<
        Mesh,
        MeshError,
    >)
        requires
            raw_elems@.len() * 4 <= usize::MAX,
        ensures
            match r {
                Err(MeshError::NodeIdOutOfRange(e)) => {
                    &&& 0 <= e < raw_elems@.len()
                    &&& !element_ids_in_range(raw_elems@[e as int], points@.len() as int)
                    &&& forall|p: int|
                        0 <= p < e ==> element_ids_in_range(
                            #[trigger] raw_elems@[p],
                            points@.len() as int,
                        ) && element_ids_unique(raw_elems@[p])
                },
                Err(MeshError::ElementNodeRepeated(e)) => {
                    &&& 0 <= e < raw_elems@.len()
                    &&& element_ids_in_range(raw_elems@[e as int], points@.len() as int)
                    &&& !element_ids_unique(raw_elems@[e as int])
                    &&& forall|p: int|
                        0 <= p < e ==> element_ids_in_range(
                            #[trigger] raw_elems@[p],
                            points@.len() as int,
                        ) && element_ids_unique(raw_elems@[p])
                },
                Err(MeshError::DuplicateNodeLocations) => {
                    &&& forall|p: int|
                        0 <= p < raw_elems@.len() ==> element_ids_in_range(
                            #[trigger] raw_elems@[p],
                            points@.len() as int,
                        ) && element_ids_unique(raw_elems@[p])
                    &&& has_duplicate_points(points@)
                },
                Err(MeshError::NodeSharedByTooManyElements(n)) => {
                    &&& forall|p: int|
                        0 <= p < raw_elems@.len() ==> element_ids_in_range(
                            #[trigger] raw_elems@[p],
                            points@.len() as int,
                        ) && element_ids_unique(raw_elems@[p])
                    &&& !has_duplicate_points(points@)
                    &&& node_refs(raw_elems@, raw_elems@.len() as int, n as int) > 4
                },
                Err(MeshError::UnreferencedNode(n)) => {
                    &&& forall|p: int|
                        0 <= p < raw_elems@.len() ==> element_ids_in_range(
                            #[trigger] raw_elems@[p],
                            points@.len() as int,
                        ) && element_ids_unique(raw_elems@[p])
                    &&& !has_duplicate_points(points@)
                    &&& 0 <= n < points@.len()
                    &&& node_refs(raw_elems@, raw_elems@.len() as int, n as int) == 0
                    &&& forall|m: int|
                        0 <= m < n ==> node_refs(raw_elems@, raw_elems@.len() as int, #[trigger] (
                        m + 0)) >= 1
                },
                Err(MeshError::InvalidEdgeConnectivity(e)) => {
                    &&& forall|p: int|
                        0 <= p < raw_elems@.len() ==> element_ids_in_range(
                            #[trigger] raw_elems@[p],
                            points@.len() as int,
                        ) && element_ids_unique(raw_elems@[p])
                    &&& !has_duplicate_points(points@)
                    &&& 0 <= e < raw_elems@.len()
                },
                Ok(m) => {
                    &&& m.wf()
                    &&& m.children_linked()
                    &&& forall|p: int|
                        0 <= p < raw_elems@.len() ==> element_ids_in_range(
                            #[trigger] raw_elems@[p],
                            points@.len() as int,
                        ) && element_ids_unique(raw_elems@[p])
                    &&& !has_duplicate_points(points@)
                    &&& m.nodes@.len() == points@.len()
                    &&& m.elements@.len() == raw_elems@.len()
                    &&& m.elems@.len() == raw_elems@.len()
                    &&& forall|k: int|
                        0 <= k < raw_elems@.len() ==> {
                            let el = #[trigger] m.elems@[k];
                            &&& el.id == k
                            &&& el.element_id == k
                            &&& el.nodes == raw_elems@[k].node_ids
                            &&& el.children is None
                            &&& el.parent is None
                        }
                    &&& forall|k: int|
                        0 <= k < raw_elems@.len() ==> {
                            let ge = #[trigger] m.elements@[k];
                            &&& ge.id == k
                            &&& ge.materials.eps_rel[0] == raw_elems@[k].materials[0]
                            &&& ge.materials.eps_rel[1] == raw_elems@[k].materials[1]
                            &&& ge.materials.mu_rel[0] == raw_elems@[k].materials[2]
                            &&& ge.materials.mu_rel[1] == raw_elems@[k].materials[3]
                            &&& forall|c: int|
                                0 <= c < 4 ==> #[trigger] ge.points[c] == points@[raw_elems@[k].node_ids[c] as int]
                        }
                    &&& forall|n: int|
                        0 <= n < m.nodes@.len() ==> {
                            let nd = #[trigger] m.nodes@[n];
                            &&& nd.coords == points@[n]
                            &&& 1 <= node_refs(raw_elems@, raw_elems@.len() as int, n) <= 4
                            &&& nd.boundary <==> node_refs(raw_elems@, raw_elems@.len() as int, n)
                                < 4
                        }
                    &&& forall|e: int|
                        0 <= e < m.edges@.len() ==> {
                            let ed = #[trigger] m.edges@[e];
                            &&& 1 <= edge_adj_count(ed) <= 2
                            &&& (ed.boundary <==> edge_adj_count(ed) == 1)
                            &&& forall|s: int|
                                0 <= s < 2 && (#[trigger] ed.adjacent_elems[s]) is Some
                                    ==> ed.adjacent_elems[s]->0 < m.elems@.len()
                        }
                    &&& forall|k: int, s: int|
                        0 <= k < raw_elems@.len() && 0 <= s < 4 ==> edge_fits_side(
                            m.edges@[(#[trigger] m.elems@[k].edges[s]) as int],
                            raw_elems@[k],
                            s,
                        )
                },
            },
    {
        let n_points = points.len();
        let n_raw = raw_elems.len();

        // validate each element's node ids: in range, then unique
        let mut e: usize = 0;
        while e < n_raw
            invariant
                n_points == points@.len(),
                n_raw == raw_elems@.len(),
                0 <= e <= n_raw,
                forall|p: int|
                    0 <= p < e ==> element_ids_in_range(#[trigger] raw_elems@[p], n_points as int)
                        && element_ids_unique(raw_elems@[p]),
            decreases n_raw - e,
        {
            let el = raw_elems[e];
            let mut s: usize = 0;
            while s < 4
                invariant
                    el == raw_elems@[e as int],
                    e < n_raw == raw_elems@.len(),
                    n_points == points@.len(),
                    0 <= s <= 4,
                    forall|t: int| 0 <= t < s ==> (#[trigger] el.node_ids[t]) < n_points,
                    forall|p: int|
                        0 <= p < e ==> element_ids_in_range(#[trigger] raw_elems@[p], n_points as int)
                            && element_ids_unique(raw_elems@[p]),
                decreases 4 - s,
            {
                if el.node_ids[s] >= n_points {
                    return Err(MeshError::NodeIdOutOfRange(e));
                }
                s += 1;
            }
            if has_duplicates(el.node_ids.as_slice()) {
                proof {
                    let (di, dj) = choose|i: int, j: int|
                        0 <= i < j < el.node_ids@.len() && el.node_ids@[i] == el.node_ids@[j];
                    assert(el.node_ids[di] == el.node_ids@[di]);
                    assert(el.node_ids[dj] == el.node_ids@[dj]);
                }
                return Err(MeshError::ElementNodeRepeated(e));
            }
            proof {
                assert(element_ids_unique(el)) by {
                    assert(forall|i: int| 0 <= i < 4 ==> el.node_ids@[i] == #[trigger] (el.node_ids[i]));
                }
            }
            e += 1;
        }

        // no two nodes may share a location
        let mut i: usize = 0;
        while i < n_points
            invariant
                n_points == points@.len(),
                n_raw == raw_elems@.len(),
                forall|p: int|
                    0 <= p < n_raw ==> element_ids_in_range(#[trigger] raw_elems@[p], n_points as int)
                        && element_ids_unique(raw_elems@[p]),
                0 <= i <= n_points,
                forall|p: int, q: int| 0 <= p < q < n_points && p < i ==> points@[p] != points@[q],
            decreases n_points - i,
        {
            let mut jj = i + 1;
            while jj < n_points
                invariant
                    n_points == points@.len(),
                    n_raw == raw_elems@.len(),
                    forall|p: int|
                        0 <= p < n_raw ==> element_ids_in_range(
                            #[trigger] raw_elems@[p],
                            n_points as int,
                        ) && element_ids_unique(raw_elems@[p]),
                    0 <= i < jj <= n_points,
                    forall|q: int| i < q < jj ==> points@[i as int] != points@[q],
                decreases n_points - jj,
            {
                if points[i] == points[jj] {
                    return Err(MeshError::DuplicateNodeLocations);
                }
                jj += 1;
            }
            i += 1;
        }

        // count element references per node, rejecting a fifth
        let mut counts: Vec<usize> = Vec::new();
        let mut z: usize = 0;
        while z < n_points
            invariant
                0 <= z <= n_points,
                counts@.len() == z,
                forall|n: int| 0 <= n < z ==> (#[trigger] counts@[n]) == 0,
            decreases n_points - z,
        {
            counts.push(0);
            z += 1;
        }
        proof {
            assert(forall|n: int|
                0 <= n < n_points ==> (#[trigger] counts@[n]) as int == node_refs(raw_elems@, 0, n));
        }
        let mut e2: usize = 0;
        while e2 < n_raw
            invariant
                n_points == points@.len(),
                n_raw == raw_elems@.len(),
                0 <= e2 <= n_raw,
                counts@.len() == n_points,
                forall|p: int|
                    0 <= p < n_raw ==> element_ids_in_range(#[trigger] raw_elems@[p], n_points as int)
                        && element_ids_unique(raw_elems@[p]),
                !has_duplicate_points(points@),
                forall|n: int|
                    0 <= n < n_points ==> (#[trigger] counts@[n]) as int == node_refs(
                        raw_elems@,
                        e2 as int,
                        n,
                    ) && counts@[n] <= 4,
            decreases n_raw - e2,
        {
            let el = raw_elems[e2];
            let mut s: usize = 0;
            while s < 4
                invariant
                    el == raw_elems@[e2 as int],
                    e2 < n_raw == raw_elems@.len(),
                    n_points == points@.len(),
                    element_ids_in_range(el, n_points as int),
                    forall|p: int|
                        0 <= p < n_raw ==> element_ids_in_range(
                            #[trigger] raw_elems@[p],
                            n_points as int,
                        ) && element_ids_unique(raw_elems@[p]),
                    !has_duplicate_points(points@),
                    0 <= s <= 4,
                    counts@.len() == n_points,
                    forall|n: int|
                        0 <= n < n_points ==> (#[trigger] counts@[n]) as int == node_refs(
                            raw_elems@,
                            e2 as int,
                            n,
                        ) + node_refs_in_slots(el, s as int, n) && counts@[n] <= 4,
                decreases 4 - s,
            {
                let nid = el.node_ids[s];
                proof {
                    lemma_refs_slots_bounds(el, s as int, nid as int);
                    assert(node_refs_in_slots(el, s as int + 1, nid as int) == node_refs_in_slots(
                        el,
                        s as int,
                        nid as int,
                    ) + 1);
                }
                if counts[nid] >= 4 {
                    proof {
                        lemma_refs_slots_mono(el, s as int + 1, 4, nid as int);
                        assert(node_refs(raw_elems@, e2 as int + 1, nid as int) == node_refs(
                            raw_elems@,
                            e2 as int,
                            nid as int,
                        ) + node_refs_in_slots(el, 4, nid as int));
                        lemma_node_refs_mono(raw_elems@, e2 as int + 1, n_raw as int, nid as int);
                    }
                    return Err(MeshError::NodeSharedByTooManyElements(nid));
                }
                counts[nid] = counts[nid] + 1;
                proof {
                    assert(forall|n: int|
                        0 <= n < n_points && n != nid as int ==> node_refs_in_slots(
                            el,
                            s as int + 1,
                            n,
                        ) == node_refs_in_slots(el, s as int, n));
                }
                s += 1;
            }
            proof {
                assert(forall|n: int|
                    0 <= n < n_points ==> node_refs(raw_elems@, e2 as int + 1, n) == node_refs(
                        raw_elems@,
                        e2 as int,
                        n,
                    ) + node_refs_in_slots(#[trigger] raw_elems@[e2 as int], 4, n));
            }
            e2 += 1;
        }

        // every node must be referenced by at least one element
        let mut nz: usize = 0;
        while nz < n_points
            invariant
                n_points == points@.len(),
                n_raw == raw_elems@.len(),
                counts@.len() == n_points,
                forall|p: int|
                    0 <= p < n_raw ==> element_ids_in_range(#[trigger] raw_elems@[p], n_points as int)
                        && element_ids_unique(raw_elems@[p]),
                !has_duplicate_points(points@),
                forall|n: int|
                    0 <= n < n_points ==> (#[trigger] counts@[n]) as int == node_refs(
                        raw_elems@,
                        n_raw as int,
                        n,
                    ) && counts@[n] <= 4,
                0 <= nz <= n_points,
                forall|m: int| 0 <= m < nz ==> (#[trigger] counts@[m]) >= 1,
            decreases n_points - nz,
        {
            if counts[nz] == 0 {
                proof {
                    assert forall|m: int| 0 <= m < nz implies node_refs(
                        raw_elems@,
                        n_raw as int,
                        #[trigger] (m + 0),
                    ) >= 1 by {
                        assert(counts@[m] >= 1);
                    }
                }
                return Err(MeshError::UnreferencedNode(nz));
            }
            nz += 1;
        }

        // nodes, with the boundary flag from the reference count
        let mut nodes: Vec<Node> = Vec::new();
        let mut n1: usize = 0;
        while n1 < n_points
            invariant
                n_points == points@.len(),
                n_raw == raw_elems@.len(),
                counts@.len() == n_points,
                forall|n: int|
                    0 <= n < n_points ==> (#[trigger] counts@[n]) as int == node_refs(
                        raw_elems@,
                        n_raw as int,
                        n,
                    ) && 1 <= counts@[n] <= 4,
                0 <= n1 <= n_points,
                nodes@.len() == n1,
                forall|n: int|
                    0 <= n < n1 ==> {
                        let nd = #[trigger] nodes@[n];
                        &&& nd.id == n
                        &&& nd.coords == points@[n]
                        &&& nd.boundary <==> node_refs(raw_elems@, n_raw as int, n) < 4
                    },
            decreases n_points - n1,
        {
            let boundary = counts[n1] < 4;
            nodes.push(Node { id: n1, coords: points[n1], boundary });
            n1 += 1;
        }

        proof {
            assert forall|n: int| 0 <= n < nodes@.len() implies {
                let nd = #[trigger] nodes@[n];
                &&& nd.id == n
                &&& nd.coords == points@[n]
                &&& 1 <= node_refs(raw_elems@, raw_elems@.len() as int, n) <= 4
                &&& nd.boundary <==> node_refs(raw_elems@, raw_elems@.len() as int, n) < 4
            } by {
                assert(counts@[n] as int == node_refs(raw_elems@, n_raw as int, n));
                assert(counts@[n] >= 1);
            }
        }
        Self::finish_from_raw(points, raw_elems, nodes)
    }

    /// Derive the edges from validated connectivity and assemble the mesh:
    /// pair corner indices into four edge definitions per element, fill each
    /// edge's two adjacency slots, mark single-sided edges as boundary, and
    /// invert the map to give each element its four ordered edge ids.
    fn finish_from_raw(points: Vec<Point>, raw_elems: Vec<RawElement>, nodes: Vec<Node>) -> (r:
        Result<Mesh, MeshError>)
        requires
            forall|p: int|
                0 <= p < raw_elems@.len() ==> element_ids_in_range(
                    #[trigger] raw_elems@[p],
                    points@.len() as int,
                ) && element_ids_unique(raw_elems@[p]),
            nodes@.len() == points@.len(),
            forall|n: int|
                0 <= n < nodes@.len() ==> {
                    let nd = #[trigger] nodes@[n];
                    &&& nd.id == n
                    &&& nd.coords == points@[n]
                    &&& node_refs(raw_elems@, raw_elems@.len() as int, n) <= 4
                    &&& nd.boundary <==> node_refs(raw_elems@, raw_elems@.len() as int, n) < 4
                },
        ensures
            match r {
                Err(MeshError::InvalidEdgeConnectivity(e)) => 0 <= e < raw_elems@.len(),
                Err(MeshError::NodeIdOutOfRange(_)) => false,
                Err(MeshError::ElementNodeRepeated(_)) => false,
                Err(MeshError::DuplicateNodeLocations) => false,
                Err(MeshError::NodeSharedByTooManyElements(_)) => false,
                Err(MeshError::UnreferencedNode(_)) => false,
                Ok(m) => {
                    &&& m.wf()
                    &&& m.children_linked()
                    &&& m.nodes@ == nodes@
                    &&& m.elements@.len() == raw_elems@.len()
                    &&& m.elems@.len() == raw_elems@.len()
                    &&& forall|k: int|
                        0 <= k < raw_elems@.len() ==> {
                            let el = #[trigger] m.elems@[k];
                            &&& el.id == k
                            &&& el.element_id == k
                            &&& el.nodes == raw_elems@[k].node_ids
                            &&& el.children is None
                            &&& el.parent is None
                        }
                    &&& forall|k: int|
                        0 <= k < raw_elems@.len() ==> {
                            let ge = #[trigger] m.elements@[k];
                            &&& ge.id == k
                            &&& ge.materials.eps_rel[0] == raw_elems@[k].materials[0]
                            &&& ge.materials.eps_rel[1] == raw_elems@[k].materials[1]
                            &&& ge.materials.mu_rel[0] == raw_elems@[k].materials[2]
                            &&& ge.materials.mu_rel[1] == raw_elems@[k].materials[3]
                            &&& forall|c: int|
                                0 <= c < 4 ==> #[trigger] ge.points[c] == points@[raw_elems@[k].node_ids[c] as int]
                        }
                    &&& forall|e: int|
                        0 <= e < m.edges@.len() ==> {
                            let ed = #[trigger] m.edges@[e];
                            &&& 1 <= edge_adj_count(ed) <= 2
                            &&& (ed.boundary <==> edge_adj_count(ed) == 1)
                            &&& forall|s: int|
                                0 <= s < 2 && (#[trigger] ed.adjacent_elems[s]) is Some
                                    ==> ed.adjacent_elems[s]->0 < m.elems@.len()
                        }
                    &&& forall|k: int, s: int|
                        0 <= k < raw_elems@.len() && 0 <= s < 4 ==> edge_fits_side(
                            m.edges@[(#[trigger] m.elems@[k].edges[s]) as int],
                            raw_elems@[k],
                            s,
                        )
                },
            },
    {
        let n_points = points.len();
        let n_raw = raw_elems.len();

        // gather the edge records, one per distinct node pair
        let mut recs: Vec<EdgeRec> = Vec::new();
        let mut e3: usize = 0;
        while e3 < n_raw
            invariant
                n_points == points@.len(),
                n_raw == raw_elems@.len(),
                forall|p: int|
                    0 <= p < n_raw ==> element_ids_in_range(#[trigger] raw_elems@[p], n_points as int),
                0 <= e3 <= n_raw,
                forall|rc: int|
                    0 <= rc < recs@.len() ==> (#[trigger] recs@[rc]).n0 < n_points && recs@[rc].n1
                        < n_points,
                forall|rc: int|
                    0 <= rc < recs@.len() ==> ((#[trigger] recs@[rc]).adj[0] is Some
                        || recs@[rc].adj[1] is Some),
                forall|rc: int, s: int|
                    0 <= rc < recs@.len() && 0 <= s < 2 && (#[trigger] recs@[rc].adj[s]) is Some
                        ==> recs@[rc].adj[s]->0 < n_raw && rec_matches_def(
                        recs@[rc].n0,
                        recs@[rc].n1,
                        recs@[rc].dir,
                        s,
                        raw_elems@[recs@[rc].adj[s]->0 as int],
                    ),
            decreases n_raw - e3,
        {
            let ids = raw_elems[e3].node_ids;
            let mut d: usize = 0;
            while d < 4
                invariant
                    ids == raw_elems@[e3 as int].node_ids,
                    e3 < n_raw == raw_elems@.len(),
                    n_points == points@.len(),
                    element_ids_in_range(raw_elems@[e3 as int], n_points as int),
                    0 <= d <= 4,
                    forall|rc: int|
                        0 <= rc < recs@.len() ==> (#[trigger] recs@[rc]).n0 < n_points
                            && recs@[rc].n1 < n_points,
                    forall|rc: int|
                        0 <= rc < recs@.len() ==> ((#[trigger] recs@[rc]).adj[0] is Some
                            || recs@[rc].adj[1] is Some),
                    forall|rc: int, s: int|
                        0 <= rc < recs@.len() && 0 <= s < 2 && (#[trigger] recs@[rc].adj[s]) is Some
                            ==> recs@[rc].adj[s]->0 < n_raw && rec_matches_def(
                            recs@[rc].n0,
                            recs@[rc].n1,
                            recs@[rc].dir,
                            s,
                            raw_elems@[recs@[rc].adj[s]->0 as int],
                        ),
                decreases 4 - d,
            {
                let (p0, p1, slot, dir): (usize, usize, usize, ParaDir) = if d == 0 {
                    (0, 1, 1, ParaDir::U)
                } else if d == 1 {
                    (2, 3, 0, ParaDir::U)
                } else if d == 2 {
                    (0, 2, 1, ParaDir::V)
                } else {
                    (1, 3, 0, ParaDir::V)
                };
                let key0 = ids[p0];
                let key1 = ids[p1];
                proof {
                    assert(rec_matches_def(key0, key1, dir, slot as int, raw_elems@[e3 as int]));
                }
                let my_rank = dir_rank(dir);
                let mut pos: usize = 0;
                while pos < recs.len() && (recs[pos].n0 < key0 || (recs[pos].n0 == key0
                    && recs[pos].n1 < key1) || (recs[pos].n0 == key0 && recs[pos].n1 == key1
                    && dir_rank(recs[pos].dir) < my_rank))
                    invariant
                        0 <= pos <= recs@.len(),
                    decreases recs@.len() - pos,
                {
                    pos += 1;
                }
                if pos < recs.len() && recs[pos].n0 == key0 && recs[pos].n1 == key1
                    && recs[pos].dir == dir {
                    let mut rec = recs[pos];
                    rec.adj = set_slot2(rec.adj, slot, e3);
                    recs[pos] = rec;
                } else {
                    let adj: [Option<usize>; 2] = if slot == 0 {
                        [Some(e3), None]
                    } else {
                        [None, Some(e3)]
                    };
                    recs.insert(pos, EdgeRec { n0: key0, n1: key1, dir, adj });
                }
                d += 1;
            }
            e3 += 1;
        }

        // edges, with the boundary flag from the adjacency count
        let mut edges: Vec<Edge> = Vec::new();
        let mut ed: usize = 0;
        while ed < recs.len()
            invariant
                n_points == points@.len(),
                n_raw == raw_elems@.len(),
                forall|rc: int|
                    0 <= rc < recs@.len() ==> (#[trigger] recs@[rc]).n0 < n_points && recs@[rc].n1
                        < n_points,
                forall|rc: int|
                    0 <= rc < recs@.len() ==> ((#[trigger] recs@[rc]).adj[0] is Some
                        || recs@[rc].adj[1] is Some),
                forall|rc: int, s: int|
                    0 <= rc < recs@.len() && 0 <= s < 2 && (#[trigger] recs@[rc].adj[s]) is Some
                        ==> recs@[rc].adj[s]->0 < n_raw && rec_matches_def(
                        recs@[rc].n0,
                        recs@[rc].n1,
                        recs@[rc].dir,
                        s,
                        raw_elems@[recs@[rc].adj[s]->0 as int],
                    ),
                0 <= ed <= recs@.len(),
                edges@.len() == ed,
                forall|e: int|
                    0 <= e < ed ==> {
                        let eg = #[trigger] edges@[e];
                        &&& eg.id == e
                        &&& eg.nodes[0] < n_points && eg.nodes[1] < n_points
                        &&& 1 <= edge_adj_count(eg) <= 2
                        &&& (eg.boundary <==> edge_adj_count(eg) == 1)
                        &&& eg.adjacent_elems == recs@[e].adj
                        &&& eg.dir == recs@[e].dir
                        &&& forall|s: int|
                            0 <= s < 2 && (#[trigger] eg.adjacent_elems[s]) is Some
                                ==> eg.adjacent_elems[s]->0 < n_raw && rec_matches_def(
                                eg.nodes[0],
                                eg.nodes[1],
                                eg.dir,
                                s,
                                raw_elems@[eg.adjacent_elems[s]->0 as int],
                            )
                    },
            decreases recs@.len() - ed,
        {
            let rec = recs[ed];
            let n_adj: usize = match (rec.adj[0], rec.adj[1]) {
                (Some(_), Some(_)) => 2,
                (None, None) => 0,
                _ => 1,
            };
            edges.push(
                Edge {
                    id: ed,
                    nodes: [rec.n0, rec.n1],
                    dir: rec.dir,
                    adjacent_elems: rec.adj,
                    boundary: n_adj == 1,
                },
            );
            ed += 1;
        }

        // invert the adjacency: each element's four ordered edge ids
        let mut elem_edges: Vec<[Option<usize>; 4]> = Vec::new();
        let mut k0: usize = 0;
        while k0 < n_raw
            invariant
                0 <= k0 <= n_raw,
                elem_edges@.len() == k0,
                forall|k: int, s: int|
                    0 <= k < k0 && 0 <= s < 4 ==> (#[trigger] elem_edges@[k][s]) is None,
            decreases n_raw - k0,
        {
            elem_edges.push([None, None, None, None]);
            k0 += 1;
        }
        let mut ed2: usize = 0;
        while ed2 < edges.len()
            invariant
                n_raw == raw_elems@.len(),
                elem_edges@.len() == n_raw,
                forall|e: int|
                    0 <= e < edges@.len() ==> {
                        let eg = #[trigger] edges@[e];
                        forall|s: int|
                            0 <= s < 2 && (#[trigger] eg.adjacent_elems[s]) is Some
                                ==> eg.adjacent_elems[s]->0 < n_raw && rec_matches_def(
                                eg.nodes[0],
                                eg.nodes[1],
                                eg.dir,
                                s,
                                raw_elems@[eg.adjacent_elems[s]->0 as int],
                            )
                    },
                0 <= ed2 <= edges@.len(),
                forall|k: int, s: int|
                    0 <= k < n_raw && 0 <= s < 4 && (#[trigger] elem_edges@[k][s]) is Some
                        ==> elem_edges@[k][s]->0 < edges@.len() && edge_fits_side(
                        edges@[elem_edges@[k][s]->0 as int],
                        raw_elems@[k],
                        s,
                    ),
            decreases edges@.len() - ed2,
        {
            let eg = edges[ed2];
            let mut slot: usize = 0;
            while slot < 2
                invariant
                    n_raw == raw_elems@.len(),
                    elem_edges@.len() == n_raw,
                    eg == edges@[ed2 as int],
                    ed2 < edges@.len(),
                    forall|s: int|
                        0 <= s < 2 && (#[trigger] eg.adjacent_elems[s]) is Some
                            ==> eg.adjacent_elems[s]->0 < n_raw && rec_matches_def(
                            eg.nodes[0],
                            eg.nodes[1],
                            eg.dir,
                            s,
                            raw_elems@[eg.adjacent_elems[s]->0 as int],
                        ),
                    0 <= slot <= 2,
                    forall|k: int, s: int|
                        0 <= k < n_raw && 0 <= s < 4 && (#[trigger] elem_edges@[k][s]) is Some
                            ==> elem_edges@[k][s]->0 < edges@.len() && edge_fits_side(
                            edges@[elem_edges@[k][s]->0 as int],
                            raw_elems@[k],
                            s,
                        ),
                decreases 2 - slot,
            {
                if let Some(adj_elem) = eg.adjacent_elems[slot] {
                    let side: usize = match (slot, eg.dir) {
                        (0, ParaDir::U) => 1,
                        (1, ParaDir::U) => 0,
                        (0, ParaDir::V) => 3,
                        (1, ParaDir::V) => 2,
                        (_, _) => 0,
                    };
                    proof {
                        assert(rec_matches_def(
                            eg.nodes[0],
                            eg.nodes[1],
                            eg.dir,
                            slot as int,
                            raw_elems@[adj_elem as int],
                        ));
                        assert(edge_fits_side(edges@[ed2 as int], raw_elems@[adj_elem as int], side as int));
                    }
                    elem_edges[adj_elem] = set_slot4(elem_edges[adj_elem], side, ed2);
                }
                slot += 1;
            }
            ed2 += 1;
        }

        // assemble the element arena and the root elems
        let mut elements: Vec<Element> = Vec::new();
        let mut elems: Vec<Elem> = Vec::new();
        let mut k: usize = 0;
        while k < n_raw
            invariant
                n_points == points@.len(),
                n_raw == raw_elems@.len(),
                forall|p: int|
                    0 <= p < n_raw ==> element_ids_in_range(#[trigger] raw_elems@[p], n_points as int),
                elem_edges@.len() == n_raw,
                forall|kk: int, s: int|
                    0 <= kk < n_raw && 0 <= s < 4 && (#[trigger] elem_edges@[kk][s]) is Some
                        ==> elem_edges@[kk][s]->0 < edges@.len() && edge_fits_side(
                        edges@[elem_edges@[kk][s]->0 as int],
                        raw_elems@[kk],
                        s,
                    ),
                0 <= k <= n_raw,
                elements@.len() == k,
                elems@.len() == k,
                forall|kk: int|
                    0 <= kk < k ==> {
                        let el = #[trigger] elems@[kk];
                        &&& el.id == kk
                        &&& el.element_id == kk
                        &&& el.nodes == raw_elems@[kk].node_ids
                        &&& el.children is None
                        &&& el.parent is None
                        &&& forall|s: int|
                            0 <= s < 4 ==> ((#[trigger] el.edges[s]) < edges@.len()
                                && edge_fits_side(edges@[el.edges[s] as int], raw_elems@[kk], s))
                    },
                forall|kk: int|
                    0 <= kk < k ==> {
                        let ge = #[trigger] elements@[kk];
                        &&& ge.id == kk
                        &&& ge.materials.eps_rel[0] == raw_elems@[kk].materials[0]
                        &&& ge.materials.eps_rel[1] == raw_elems@[kk].materials[1]
                        &&& ge.materials.mu_rel[0] == raw_elems@[kk].materials[2]
                        &&& ge.materials.mu_rel[1] == raw_elems@[kk].materials[3]
                        &&& forall|c: int|
                            0 <= c < 4 ==> #[trigger] ge.points[c] == points@[raw_elems@[kk].node_ids[c] as int]
                    },
            decreases n_raw - k,
        {
            let ee = elem_edges[k];
            match (ee[0], ee[1], ee[2], ee[3]) {
                (Some(b0), Some(b1), Some(b2), Some(b3)) => {
                    let el = raw_elems[k];
                    elements.push(
                        Element::new(
                            k,
                            [
                                points[el.node_ids[0]],
                                points[el.node_ids[1]],
                                points[el.node_ids[2]],
                                points[el.node_ids[3]],
                            ],
                            Materials::from_array(el.materials),
                        ),
                    );
                    elems.push(Elem::new(k, el.node_ids, [b0, b1, b2, b3], k));
                },
                _ => {
                    return Err(MeshError::InvalidEdgeConnectivity(k));
                },
            }
            k += 1;
        }

        let mut edge_mids: Vec<Option<usize>> = Vec::new();
        let mut z2: usize = 0;
        while z2 < edges.len()
            invariant
                0 <= z2 <= edges@.len(),
                edge_mids@.len() == z2,
                forall|e: int| 0 <= e < z2 ==> (#[trigger] edge_mids@[e]) is None,
            decreases edges@.len() - z2,
        {
            edge_mids.push(None);
            z2 += 1;
        }

        Ok(Mesh { elements, elems, nodes, edges, edge_mids })
    }
}

impl Mesh {
    /// The node splitting `edge_id` at the given ratio, created on first
    /// use and shared by later refinements touching the same edge. The
    /// stored splitting node is reused even when a later refinement names a
    /// different ratio.
    fn midpoint_node(&mut self, edge_id: usize, ratio: u64) -> (nid: usize)
        requires
            old(self).wf(),
            edge_id < old(self).edges@.len(),
        ensures
            final(self).wf(),
            nid < final(self).nodes@.len(),
            final(self).elems@ == old(self).elems@,
            final(self).edges@ == old(self).edges@,
            final(self).elements@ == old(self).elements@,
            old(self).nodes@.len() <= final(self).nodes@.len(),
            forall|n: int|
                0 <= n < old(self).nodes@.len() ==> final(self).nodes@[n] == old(self).nodes@[n],
    {
        match self.edge_mids[edge_id] {
            Some(nid) => nid,
            None => {
                let eg = self.edges[edge_id];
                let c0 = self.nodes[eg.nodes[0]].coords;
                let c1 = self.nodes[eg.nodes[1]].coords;
                let coords = Point {
                    x: crate::refinement::range_cut(c0.x, c1.x, ratio),
                    y: crate::refinement::range_cut(c0.y, c1.y, ratio),
                };
                let nid = self.nodes.len();
                self.nodes.push(Node { id: nid, coords, boundary: eg.boundary });
                self.edge_mids[edge_id] = Some(nid);
                nid
            },
        }
    }

    /// A fresh node inside an element (never on an edge, so never shared).
    fn interior_node(&mut self, coords: Point) -> (nid: usize)
        requires
            old(self).wf(),
        ensures
            final(self).wf(),
            nid < final(self).nodes@.len(),
            final(self).elems@ == old(self).elems@,
            final(self).edges@ == old(self).edges@,
            final(self).elements@ == old(self).elements@,
            old(self).nodes@.len() <= final(self).nodes@.len(),
            forall|n: int|
                0 <= n < old(self).nodes@.len() ==> final(self).nodes@[n] == old(self).nodes@[n],
    {
        let nid = self.nodes.len();
        self.nodes.push(Node { id: nid, coords, boundary: false });
        nid
    }

    /// A fresh interior edge between two children of one refinement.
    fn interior_edge(&mut self, n0: usize, n1: usize, dir: ParaDir, adj: [Option<usize>; 2]) -> (eid:
        usize)
        requires
            old(self).wf(),
            n0 < old(self).nodes@.len(),
            n1 < old(self).nodes@.len(),
        ensures
            final(self).wf(),
            eid < final(self).edges@.len(),
            final(self).elems@ == old(self).elems@,
            final(self).nodes@ == old(self).nodes@,
            final(self).elements@ == old(self).elements@,
            old(self).edges@.len() <= final(self).edges@.len(),
            forall|e: int|
                0 <= e < old(self).edges@.len() ==> final(self).edges@[e] == old(self).edges@[e],
    {
        let eid = self.edges.len();
        self.edges.push(Edge { id: eid, nodes: [n0, n1], dir, adjacent_elems: adj, boundary: false });
        self.edge_mids.push(None);
        eid
    }

    /// h-refine each listed elem with the same refinement, wiring the new
    /// nodes and edges and committing the children. The whole batch is
    /// validated first: on any failure the mesh is unchanged.
    pub fn h_refine_elems(&mut self, elem_ids: Vec<usize>, refinement: HRef) -> (r: Result<
        (),
        HRefError,
    >)
        requires
            old(self).wf(),
            old(self).children_linked(),
            forall|k: int| 0 <= k < elem_ids@.len() ==> (#[trigger] elem_ids@[k]) < old(self).elems@.len(),
            forall|a: int, b: int| 0 <= a < b < elem_ids@.len() ==> elem_ids@[a] != elem_ids@[b],
            old(self).elems@.len() + elem_ids@.len() * 4 <= usize::MAX,
        ensures
            match r {
                Ok(()) => {
                    &&& final(self).wf()
                    &&& final(self).children_linked()
                    &&& final(self).elements@ == old(self).elements@
                    &&& final(self).elems@.len() == old(self).elems@.len() + elem_ids@.len()
                        * refinement.spec_num_children()
                    &&& forall|k: int|
                        0 <= k < elem_ids@.len() ==> {
                            let el = final(self).elems@[#[trigger] elem_ids@[k] as int];
                            &&& el.children is Some
                            &&& (el.children->0).1 == refinement
                            &&& (el.children->0).0@.len() == refinement.spec_num_children()
                            &&& old(self).elems@[elem_ids@[k] as int].children is None
                            &&& !old(self).elems@[elem_ids@[k] as int].min_edge_violated(
                                refinement,
                            )
                        }
                    &&& forall|j: int|
                        0 <= j < old(self).elems@.len() && !elem_ids@.contains(j as usize)
                            ==> final(self).elems@[j] == old(self).elems@[j]
                    &&& forall|j: int|
                        old(self).elems@.len() <= j < final(self).elems@.len() ==> {
                            let el = #[trigger] final(self).elems@[j];
                            &&& el.children is None
                            &&& el.parent is Some
                        }
                    &&& forall|k: int, c: int|
                        0 <= k < elem_ids@.len() && 0 <= c < refinement.spec_num_children()
                            ==> child_matches(
                            final(self).elems@,
                            old(self).elems@[elem_ids@[k] as int],
                            refinement,
                            c,
                            (#[trigger] ((final(self).elems@[elem_ids@[k] as int].children->0).0@[c]))
                                as int,
                        )
                },
                Err(HRefError::ElemHasChildren(id)) => {
                    &&& *final(self) == *old(self)
                    &&& elem_ids@.contains(id)
                    &&& old(self).elems@[id as int].children is Some
                },
                Err(HRefError::MinEdgeLength(id)) => {
                    &&& *final(self) == *old(self)
                    &&& elem_ids@.contains(id)
                    &&& old(self).elems@[id as int].children is None
                    &&& old(self).elems@[id as int].min_edge_violated(refinement)
                },
                Err(HRefError::UninitializedElem(_)) => false,
            },
    {
        // validate the whole batch first
        let mut v: usize = 0;
        while v < elem_ids.len()
            invariant
                *self == *old(self),
                self.wf(),
                forall|k: int|
                    0 <= k < elem_ids@.len() ==> (#[trigger] elem_ids@[k]) < self.elems@.len(),
                0 <= v <= elem_ids@.len(),
                forall|k: int|
                    0 <= k < v ==> self.elems@[#[trigger] elem_ids@[k] as int].children is None
                        && !self.elems@[elem_ids@[k] as int].min_edge_violated(refinement),
            decreases elem_ids@.len() - v,
        {
            let id = elem_ids[v];
            if self.elems[id].children.is_some() {
                proof {
                    assert(elem_ids@[v as int] == id);
                }
                return Err(HRefError::ElemHasChildren(id));
            }
            let el_u = self.elems[id].h_levels.u;
            let el_v = self.elems[id].h_levels.v;
            let cap_ok = (!refinement.splits_u_axis() || el_u < crate::refinement::MAX_H_LEVELS) && (
            !refinement.splits_v_axis() || el_v < crate::refinement::MAX_H_LEVELS);
            if !cap_ok || crate::refinement::child_too_short(self.elems[id].range, refinement) {
                proof {
                    assert(elem_ids@[v as int] == id);
                }
                return Err(HRefError::MinEdgeLength(id));
            }
            v += 1;
        }

        // commit: wire and append the children of each listed elem
        let ghost old_len = self.elems@.len();
        let ghost num = refinement.spec_num_children();
        let mut tix: usize = 0;
        while tix < elem_ids.len()
            invariant
                self.wf(),
                self.children_linked(),
                self.elements@ == old(self).elements@,
                old_len == old(self).elems@.len(),
                old_len + elem_ids@.len() * 4 <= usize::MAX,
                num == refinement.spec_num_children(),
                forall|k: int| 0 <= k < elem_ids@.len() ==> (#[trigger] elem_ids@[k]) < old_len,
                forall|a: int, b: int|
                    0 <= a < b < elem_ids@.len() ==> elem_ids@[a] != elem_ids@[b],
                forall|k: int|
                    0 <= k < elem_ids@.len() ==> old(self).elems@[#[trigger] elem_ids@[k] as int].children
                        is None && !old(self).elems@[elem_ids@[k] as int].min_edge_violated(
                        refinement,
                    ),
                0 <= tix <= elem_ids@.len(),
                self.elems@.len() == old_len + tix * num,
                forall|k: int|
                    0 <= k < tix ==> {
                        let el = self.elems@[#[trigger] elem_ids@[k] as int];
                        &&& el.children is Some
                        &&& (el.children->0).1 == refinement
                        &&& (el.children->0).0@.len() == num
                    },
                forall|k: int, c: int|
                    0 <= k < tix && 0 <= c < num ==> child_matches(
                        self.elems@,
                        old(self).elems@[elem_ids@[k] as int],
                        refinement,
                        c,
                        (#[trigger] ((self.elems@[elem_ids@[k] as int].children->0).0@[c])) as int,
                    ) && old_len <= ((self.elems@[elem_ids@[k] as int].children->0).0@[c]) as int,
                forall|k: int|
                    tix <= k < elem_ids@.len() ==> self.elems@[#[trigger] elem_ids@[k] as int]
                        == old(self).elems@[elem_ids@[k] as int],
                forall|j: int|
                    0 <= j < old_len && !elem_ids@.contains(j as usize) ==> self.elems@[j] == old(
                        self,
                    ).elems@[j],
                forall|j: int|
                    old_len <= j < self.elems@.len() ==> {
                        let el = #[trigger] self.elems@[j];
                        &&& el.children is None
                        &&& el.parent is Some
                    },
            decreases elem_ids@.len() - tix,
        {
            let p = elem_ids[tix];
            proof {
                assert(elem_ids@[tix as int] == p);
                assert(self.elems@[p as int] == old(self).elems@[p as int]);
            }
            proof {
                assert(self.elems@.len() + 4 <= usize::MAX) by (nonlinear_arith)
                    requires
                        self.elems@.len() == old_len + tix as int * num,
                        old_len + elem_ids@.len() * 4 <= usize::MAX,
                        tix < elem_ids@.len(),
                        0 <= num <= 4,
                ;
            }
            let ghost pre = self.elems@;
            self.refine_one(p, refinement);
            proof {
                assert((tix as int + 1) * num == tix as int * num + num) by (nonlinear_arith);
                assert(tix as int * num >= 0) by (nonlinear_arith)
                    requires
                        tix as int >= 0,
                        num >= 0,
                ;
                assert(pre[p as int] == old(self).elems@[p as int]);
                assert(self.children_linked()) by {
                    assert forall|k: int|
                        0 <= k < self.elems@.len() && (#[trigger] self.elems@[k]).parent
                            is Some implies (self.elems@[k].parent->0.id as int) < k by {
                        if k < pre.len() {
                            if k != p as int {
                                assert(self.elems@[k] == pre[k]);
                            }
                        } else {
                            assert(child_matches(
                                self.elems@,
                                pre[p as int],
                                refinement,
                                k - pre.len(),
                                ((self.elems@[p as int].children->0).0@[k - pre.len()]) as int,
                            ));
                            assert(((self.elems@[p as int].children->0).0@[k - pre.len()]) as int
                                == pre.len() + (k - pre.len()));
                        }
                    }
                    assert forall|k: int, c: int|
                        0 <= k < self.elems@.len() && (#[trigger] self.elems@[k]).children
                            is Some && 0 <= c < (self.elems@[k].children->0).0@.len() implies {
                        let cid = (#[trigger] ((self.elems@[k].children->0).0@[c])) as int;
                        &&& 0 <= cid < self.elems@.len()
                        &&& self.elems@[cid].parent is Some
                        &&& self.elems@[cid].parent->0.id == k
                    } by {
                        if k == p as int {
                            assert(child_matches(
                                self.elems@,
                                pre[p as int],
                                refinement,
                                c,
                                ((self.elems@[p as int].children->0).0@[c]) as int,
                            ));
                        } else if k < pre.len() {
                            assert(self.elems@[k] == pre[k]);
                            let cid = ((pre[k].children->0).0@[c]) as int;
                            assert(pre[cid].parent is Some && pre[cid].parent->0.id == k);
                            if cid == p as int {
                                assert(self.elems@[cid].parent == pre[cid].parent);
                            } else {
                                assert(self.elems@[cid] == pre[cid]);
                            }
                        }
                    }
                    assert forall|k: int|
                        0 <= k < self.elems@.len() && (#[trigger] self.elems@[k]).parent
                            is Some implies {
                        let pp = self.elems@[k].parent->0.id as int;
                        &&& self.elems@[pp].children is Some
                        &&& (self.elems@[pp].children->0).0@.contains(k as usize)
                    } by {
                        if k >= pre.len() {
                            assert(child_matches(
                                self.elems@,
                                pre[p as int],
                                refinement,
                                k - pre.len(),
                                ((self.elems@[p as int].children->0).0@[k - pre.len()]) as int,
                            ));
                            assert(((self.elems@[p as int].children->0).0@[k - pre.len()]) as int
                                == pre.len() + (k - pre.len()));
                            assert((self.elems@[p as int].children->0).0@[k - pre.len()] == (
                            k as usize));
                        } else {
                            assert(self.elems@[k].parent == pre[k].parent);
                            let pp = pre[k].parent->0.id as int;
                            assert(pre[pp].children is Some && (pre[pp].children->0).0@.contains(
                                k as usize,
                            ));
                            assert(pp != p as int);
                            assert(self.elems@[pp].children == pre[pp].children);
                        }
                    }
                }
                assert forall|k: int, c: int| 0 <= k < tix + 1 && 0 <= c < num implies child_matches(
                    self.elems@,
                    old(self).elems@[elem_ids@[k] as int],
                    refinement,
                    c,
                    (#[trigger] ((self.elems@[elem_ids@[k] as int].children->0).0@[c])) as int,
                ) && old_len <= ((self.elems@[elem_ids@[k] as int].children->0).0@[c]) as int by {
                    if k < tix {
                        assert(elem_ids@[k] != elem_ids@[tix as int]);
                        assert(self.elems@[elem_ids@[k] as int] == pre[elem_ids@[k] as int]);
                        let cid = ((pre[elem_ids@[k] as int].children->0).0@[c]) as int;
                        assert(child_matches(
                            pre,
                            old(self).elems@[elem_ids@[k] as int],
                            refinement,
                            c,
                            cid,
                        ));
                        assert(old_len <= cid);
                        assert(self.elems@[cid] == pre[cid]);
                    } else {
                        assert(elem_ids@[k] == p);
                        let cid = ((self.elems@[p as int].children->0).0@[c]) as int;
                        assert(child_matches(self.elems@, pre[p as int], refinement, c, cid));
                        assert(cid == pre.len() + c);
                        assert(pre.len() == old_len + tix as int * num);
                    }
                }
            }
            tix += 1;
        }
        proof {
            assert(self.elems@.len() == old_len + elem_ids@.len() * num);
        }
        Ok(())
    }
}

impl Mesh {
    /// Set a refined elem's child list, leaving every other field and every
    /// other elem unchanged.
    fn set_children(&mut self, p: usize, child_ids: Vec<usize>, refinement: HRef)
        requires
            old(self).wf(),
            p < old(self).elems@.len(),
            forall|c: int|
                0 <= c < child_ids@.len() ==> p < (#[trigger] child_ids@[c]) && child_ids@[c] < old(
                    self,
                ).elems@.len(),
        ensures
            final(self).wf(),
            final(self).elements@ == old(self).elements@,
            final(self).nodes@ == old(self).nodes@,
            final(self).edges@ == old(self).edges@,
            final(self).elems@.len() == old(self).elems@.len(),
            forall|j: int|
                0 <= j < old(self).elems@.len() && j != p ==> final(self).elems@[j] == old(
                    self,
                ).elems@[j],
            final(self).elems@[p as int].children is Some,
            (final(self).elems@[p as int].children->0).0@ == child_ids@,
            (final(self).elems@[p as int].children->0).1 == refinement,
            final(self).elems@[p as int].id == old(self).elems@[p as int].id,
            final(self).elems@[p as int].nodes == old(self).elems@[p as int].nodes,
            final(self).elems@[p as int].edges == old(self).elems@[p as int].edges,
            final(self).elems@[p as int].element_id == old(self).elems@[p as int].element_id,
            final(self).elems@[p as int].h_levels == old(self).elems@[p as int].h_levels,
            final(self).elems@[p as int].poly_orders == old(self).elems@[p as int].poly_orders,
            final(self).elems@[p as int].parent == old(self).elems@[p as int].parent,
            final(self).elems@[p as int].range == old(self).elems@[p as int].range,
    {
        let id_v = self.elems[p].id;
        let nodes_v = self.elems[p].nodes;
        let edges_v = self.elems[p].edges;
        let element_id_v = self.elems[p].element_id;
        let h_levels_v = self.elems[p].h_levels;
        let poly_orders_v = self.elems[p].poly_orders;
        let parent_v = self.elems[p].parent;
        let range_v = self.elems[p].range;
        self.elems[p] = Elem {
            id: id_v,
            nodes: nodes_v,
            edges: edges_v,
            element_id: element_id_v,
            h_levels: h_levels_v,
            poly_orders: poly_orders_v,
            children: Some((child_ids, refinement)),
            parent: parent_v,
            range: range_v,
        };
    }

    /// Build, wire and append one child elem at the end of the elem list.
    #[verifier::rlimit(30)]
    fn push_child(
        &mut self,
        id: usize,
        idx: usize,
        refinement: HRef,
        element_id: usize,
        parent_id: usize,
        parent_h_levels: HLevels,
        poly_orders: PolyOrders,
        parent_range: ParaRange,
        child_nodes: [usize; 4],
        child_edges: [usize; 4],
    )
        requires
            old(self).wf(),
            id == old(self).elems@.len(),
            idx < refinement.spec_num_children(),
            refinement.splits_u() ==> parent_h_levels.u < u8::MAX,
            refinement.splits_v() ==> parent_h_levels.v < u8::MAX,
            element_id < old(self).elements@.len(),
            forall|s: int| 0 <= s < 4 ==> (#[trigger] child_nodes[s]) < old(self).nodes@.len(),
            forall|s: int| 0 <= s < 4 ==> (#[trigger] child_edges[s]) < old(self).edges@.len(),
        ensures
            final(self).wf(),
            final(self).elements@ == old(self).elements@,
            final(self).nodes@ == old(self).nodes@,
            final(self).edges@ == old(self).edges@,
            final(self).elems@.len() == old(self).elems@.len() + 1,
            forall|j: int|
                0 <= j < old(self).elems@.len() ==> final(self).elems@[j] == old(self).elems@[j],
            final(self).elems@[id as int].children is None,
            final(self).elems@[id as int].parent == Some(
                crate::elem::ParentLink { id: parent_id, loc: refinement.spec_location(idx as int) },
            ),
            final(self).elems@[id as int].id == id,
            final(self).elems@[id as int].element_id == element_id,
            final(self).elems@[id as int].h_levels == parent_h_levels.spec_refined(refinement),
            final(self).elems@[id as int].poly_orders == poly_orders,
            final(self).elems@[id as int].range == crate::refinement::spec_child_range(
                parent_range,
                refinement,
                idx as int,
            ),
            final(self).elems@[id as int].nodes == child_nodes,
            final(self).elems@[id as int].edges == child_edges,
    {
        let mut u = ElemUninit::new(
            id,
            idx,
            refinement,
            element_id,
            parent_id,
            &parent_h_levels,
            poly_orders,
            parent_range,
        );
        u.set_node(0, child_nodes[0]);
        u.set_node(1, child_nodes[1]);
        u.set_node(2, child_nodes[2]);
        u.set_node(3, child_nodes[3]);
        u.set_edge(0, child_edges[0]);
        u.set_edge(1, child_edges[1]);
        u.set_edge(2, child_edges[2]);
        u.set_edge(3, child_edges[3]);
        match u.into_elem() {
            Ok(child) => {
                self.elems.push(child);
            },
            Err(_) => {
                // all eight slots were filled just above, so promotion
                // cannot fail
                proof {
                    assert(false);
                }
            },
        }
    }

    /// Wire and commit the children of one elem: split-point nodes shared
    /// through the edge registry, fresh interior edges, and two or four
    /// child elems appended in location order.
    fn refine_one(&mut self, p: usize, refinement: HRef)
        requires
            old(self).wf(),
            p < old(self).elems@.len(),
            old(self).elems@.len() + 4 <= usize::MAX,
            old(self).elems@[p as int].children is None,
            old(self).elems@[p as int].level_cap_ok(refinement),
        ensures
            final(self).wf(),
            final(self).elements@ == old(self).elements@,
            final(self).elems@.len() == old(self).elems@.len() + refinement.spec_num_children(),
            final(self).elems@[p as int].children is Some,
            (final(self).elems@[p as int].children->0).1 == refinement,
            (final(self).elems@[p as int].children->0).0@.len() == refinement.spec_num_children(),
            final(self).elems@[p as int].parent == old(self).elems@[p as int].parent,
            forall|j: int|
                0 <= j < old(self).elems@.len() && j != p ==> final(self).elems@[j] == old(
                    self,
                ).elems@[j],
            forall|j: int|
                old(self).elems@.len() <= j < final(self).elems@.len() ==> {
                    let el = #[trigger] final(self).elems@[j];
                    &&& el.children is None
                    &&& el.parent is Some
                },
            forall|c: int|
                0 <= c < refinement.spec_num_children() ==> child_matches(
                    final(self).elems@,
                    old(self).elems@[p as int],
                    refinement,
                    c,
                    (#[trigger] ((final(self).elems@[p as int].children->0).0@[c])) as int,
                ) && ((final(self).elems@[p as int].children->0).0@[c]) as int == old(
                    self,
                ).elems@.len() + c,
    {
        let n0 = self.elems[p].nodes[0];
        let n1t = self.elems[p].nodes[1];
        let n2 = self.elems[p].nodes[2];
        let n3 = self.elems[p].nodes[3];
        let e0 = self.elems[p].edges[0];
        let e1 = self.elems[p].edges[1];
        let e2 = self.elems[p].edges[2];
        let e3 = self.elems[p].edges[3];
        let element_id = self.elems[p].element_id;
        let h_levels = self.elems[p].h_levels;
        let poly_orders = self.elems[p].poly_orders;
        let prange = self.elems[p].range;
        let ratio = refinement.ratio();
        let base = self.elems.len();

        match refinement {
            HRef::T => {
                let mb = self.midpoint_node(e0, ratio);
                let mt = self.midpoint_node(e1, ratio);
                let ml = self.midpoint_node(e2, ratio);
                let mr = self.midpoint_node(e3, ratio);
                let c0 = self.nodes[n0].coords;
                let c3 = self.nodes[n3].coords;
                let ctr = self.interior_node(
                    Point {
                        x: crate::refinement::range_cut(c0.x, c3.x, ratio),
                        y: crate::refinement::range_cut(c0.y, c3.y, ratio),
                    },
                );
                let vb = self.interior_edge(mb, ctr, ParaDir::V, [Some(base), Some(base + 1)]);
                let vt = self.interior_edge(ctr, mt, ParaDir::V, [Some(base + 2), Some(base + 3)]);
                let hl = self.interior_edge(ml, ctr, ParaDir::U, [Some(base), Some(base + 2)]);
                let hr = self.interior_edge(ctr, mr, ParaDir::U, [Some(base + 1), Some(base + 3)]);
                self.push_child(
                    base,
                    0,
                    refinement,
                    element_id,
                    p,
                    h_levels,
                    poly_orders,
                    prange,
                    [n0, mb, ml, ctr],
                    [e0, hl, e2, vb],
                );
                self.push_child(
                    base + 1,
                    1,
                    refinement,
                    element_id,
                    p,
                    h_levels,
                    poly_orders,
                    prange,
                    [mb, n1t, ctr, mr],
                    [e0, hr, vb, e3],
                );
                self.push_child(
                    base + 2,
                    2,
                    refinement,
                    element_id,
                    p,
                    h_levels,
                    poly_orders,
                    prange,
                    [ml, ctr, n2, mt],
                    [hl, e1, e2, vt],
                );
                self.push_child(
                    base + 3,
                    3,
                    refinement,
                    element_id,
                    p,
                    h_levels,
                    poly_orders,
                    prange,
                    [ctr, mr, mt, n3],
                    [hr, e1, vt, e3],
                );
                self.set_children(p, vec![base, base + 1, base + 2, base + 3], refinement);
            },
            HRef::U(_) => {
                let mb = self.midpoint_node(e0, ratio);
                let mt = self.midpoint_node(e1, ratio);
                let vnew = self.interior_edge(mb, mt, ParaDir::V, [Some(base), Some(base + 1)]);
                self.push_child(
                    base,
                    0,
                    refinement,
                    element_id,
                    p,
                    h_levels,
                    poly_orders,
                    prange,
                    [n0, mb, n2, mt],
                    [e0, e1, e2, vnew],
                );
                self.push_child(
                    base + 1,
                    1,
                    refinement,
                    element_id,
                    p,
                    h_levels,
                    poly_orders,
                    prange,
                    [mb, n1t, mt, n3],
                    [e0, e1, vnew, e3],
                );
                self.set_children(p, vec![base, base + 1], refinement);
            },
            HRef::V(_) => {
                let ml = self.midpoint_node(e2, ratio);
                let mr = self.midpoint_node(e3, ratio);
                let hnew = self.interior_edge(ml, mr, ParaDir::U, [Some(base), Some(base + 1)]);
                self.push_child(
                    base,
                    0,
                    refinement,
                    element_id,
                    p,
                    h_levels,
                    poly_orders,
                    prange,
                    [n0, n1t, ml, mr],
                    [e0, hnew, e2, e3],
                );
                self.push_child(
                    base + 1,
                    1,
                    refinement,
                    element_id,
                    p,
                    h_levels,
                    poly_orders,
                    prange,
                    [ml, mr, n2, n3],
                    [hnew, e1, e2, e3],
                );
                self.set_children(p, vec![base, base + 1], refinement);
            },
        }
    }
}

impl Mesh {
    /// Replace one elem's expansion orders, leaving everything else unchanged.
    fn set_poly_orders(&mut self, p: usize, orders: PolyOrders)
        requires
            old(self).wf(),
            p < old(self).elems@.len(),
        ensures
            final(self).wf(),
            final(self).elements@ == old(self).elements@,
            final(self).nodes@ == old(self).nodes@,
            final(self).edges@ == old(self).edges@,
            final(self).elems@.len() == old(self).elems@.len(),
            forall|j: int|
                0 <= j < old(self).elems@.len() && j != p ==> final(self).elems@[j] == old(
                    self,
                ).elems@[j],
            final(self).elems@[p as int] == (Elem {
                poly_orders: orders,
                ..old(self).elems@[p as int]
            }),
    {
        self.elems[p].poly_orders = orders;
    }

    /// The largest u- and v-directed expansion orders over all elems; at
    /// least the default first order.
    pub fn max_expansion_orders(&self) -> (r: [u8; 2])
        ensures
            r[0] >= 1 && r[1] >= 1,
            forall|k: int|
                0 <= k < self.elems@.len() ==> (#[trigger] self.elems@[k]).poly_orders.i <= r[0]
                    && self.elems@[k].poly_orders.j <= r[1],
            r[0] == 1 || exists|k: int|
                0 <= k < self.elems@.len() && (#[trigger] self.elems@[k]).poly_orders.i == r[0],
            r[1] == 1 || exists|k: int|
                0 <= k < self.elems@.len() && (#[trigger] self.elems@[k]).poly_orders.j == r[1],
    {
        let mut mi: u8 = 1;
        let mut mj: u8 = 1;
        let mut k: usize = 0;
        while k < self.elems.len()
            invariant
                0 <= k <= self.elems@.len(),
                mi >= 1 && mj >= 1,
                forall|p: int|
                    0 <= p < k ==> (#[trigger] self.elems@[p]).poly_orders.i <= mi
                        && self.elems@[p].poly_orders.j <= mj,
                mi == 1 || exists|p: int|
                    0 <= p < self.elems@.len() && (#[trigger] self.elems@[p]).poly_orders.i == mi,
                mj == 1 || exists|p: int|
                    0 <= p < self.elems@.len() && (#[trigger] self.elems@[p]).poly_orders.j == mj,
            decreases self.elems@.len() - k,
        {
            if self.elems[k].poly_orders.i > mi {
                mi = self.elems[k].poly_orders.i;
            }
            if self.elems[k].poly_orders.j > mj {
                mj = self.elems[k].poly_orders.j;
            }
            k += 1;
        }
        [mi, mj]
    }

    /// Set the expansion orders of the listed elems. Fails, leaving the
    /// mesh unchanged, when an order exceeds the maximum polynomial order.
    pub fn set_expansion_on_elems(&mut self, elem_ids: Vec<usize>, orders: [u8; 2]) -> (r: Result<
        (),
        PRefError,
    >)
        requires
            old(self).wf(),
            old(self).children_linked(),
            forall|k: int|
                0 <= k < elem_ids@.len() ==> (#[trigger] elem_ids@[k]) < old(self).elems@.len(),
        ensures
            match r {
                Ok(()) => {
                    &&& orders[0] <= crate::refinement::MAX_POLYNOMIAL_ORDER
                    &&& orders[1] <= crate::refinement::MAX_POLYNOMIAL_ORDER
                    &&& final(self).wf()
                    &&& final(self).children_linked()
                    &&& final(self).elements@ == old(self).elements@
                    &&& final(self).nodes@ == old(self).nodes@
                    &&& final(self).edges@ == old(self).edges@
                    &&& final(self).elems@.len() == old(self).elems@.len()
                    &&& forall|k: int|
                        0 <= k < elem_ids@.len() ==> final(self).elems@[#[trigger] elem_ids@[k] as int].poly_orders
                            == (PolyOrders { i: orders[0], j: orders[1] })
                    &&& forall|j: int|
                        0 <= j < old(self).elems@.len() && !elem_ids@.contains(j as usize)
                            ==> final(self).elems@[j] == old(self).elems@[j]
                },
                Err(PRefError::ExceededMaxExpansion(id)) => {
                    &&& *final(self) == *old(self)
                    &&& (orders[0] > crate::refinement::MAX_POLYNOMIAL_ORDER || orders[1]
                        > crate::refinement::MAX_POLYNOMIAL_ORDER)
                    &&& id == if elem_ids@.len() > 0 {
                        elem_ids@[0]
                    } else {
                        0
                    }
                },
                Err(PRefError::NegativeExpansion(_)) => false,
            },
    {
        if orders[0] > crate::refinement::MAX_POLYNOMIAL_ORDER || orders[1]
            > crate::refinement::MAX_POLYNOMIAL_ORDER {
            let id = if elem_ids.len() > 0 {
                elem_ids[0]
            } else {
                0
            };
            return Err(PRefError::ExceededMaxExpansion(id));
        }
        let mut t: usize = 0;
        while t < elem_ids.len()
            invariant
                self.wf(),
                self.children_linked(),
                self.elements@ == old(self).elements@,
                self.nodes@ == old(self).nodes@,
                self.edges@ == old(self).edges@,
                self.elems@.len() == old(self).elems@.len(),
                forall|k: int|
                    0 <= k < elem_ids@.len() ==> (#[trigger] elem_ids@[k]) < old(self).elems@.len(),
                0 <= t <= elem_ids@.len(),
                forall|k: int|
                    0 <= k < t ==> self.elems@[#[trigger] elem_ids@[k] as int].poly_orders == (
                    PolyOrders { i: orders[0], j: orders[1] }),
                forall|j: int|
                    0 <= j < old(self).elems@.len() && !elem_ids@.contains(j as usize)
                        ==> self.elems@[j] == old(self).elems@[j],
            decreases elem_ids@.len() - t,
        {
            let id = elem_ids[t];
            proof {
                assert(elem_ids@[t as int] == id);
            }
            let ghost pre_seq = self.elems@;
            self.set_poly_orders(id, PolyOrders { i: orders[0], j: orders[1] });
            proof {
                assert forall|k: int|
                    0 <= k < pre_seq.len() implies (#[trigger] self.elems@[k]).parent
                    == pre_seq[k].parent && self.elems@[k].children == pre_seq[k].children by {
                    if k != id {
                        assert(self.elems@[k] == pre_seq[k]);
                    }
                }
                lemma_linked_frame(pre_seq, self.elems@);
            }
            t += 1;
        }
        Ok(())
    }

    /// Apply one p-refinement to every elem. The whole mesh is validated
    /// first: on any failure it is unchanged.
    pub fn global_p_refinement(&mut self, p: crate::refinement::PRef) -> (r: Result<
        (),
        PRefError,
    >)
        requires
            old(self).wf(),
            old(self).children_linked(),
        ensures
            match r {
                Ok(()) => {
                    &&& final(self).wf()
                    &&& final(self).children_linked()
                    &&& final(self).elements@ == old(self).elements@
                    &&& final(self).nodes@ == old(self).nodes@
                    &&& final(self).edges@ == old(self).edges@
                    &&& final(self).elems@.len() == old(self).elems@.len()
                    &&& forall|k: int|
                        0 <= k < old(self).elems@.len() ==> final(self).elems@[k] == (Elem {
                            poly_orders: PolyOrders {
                                i: (old(self).elems@[k].poly_orders.i + p.di) as u8,
                                j: (old(self).elems@[k].poly_orders.j + p.dj) as u8,
                            },
                            ..#[trigger] old(self).elems@[k]
                        }) && 0 <= old(self).elems@[k].poly_orders.i + p.di
                            <= crate::refinement::MAX_POLYNOMIAL_ORDER && 0 <= old(
                            self,
                        ).elems@[k].poly_orders.j + p.dj <= crate::refinement::MAX_POLYNOMIAL_ORDER
                },
                Err(PRefError::ExceededMaxExpansion(id)) => {
                    &&& *final(self) == *old(self)
                    &&& 0 <= id < old(self).elems@.len()
                    &&& (old(self).elems@[id as int].poly_orders.i + p.di
                        > crate::refinement::MAX_POLYNOMIAL_ORDER || old(
                        self,
                    ).elems@[id as int].poly_orders.j + p.dj
                        > crate::refinement::MAX_POLYNOMIAL_ORDER)
                },
                Err(PRefError::NegativeExpansion(id)) => {
                    &&& *final(self) == *old(self)
                    &&& 0 <= id < old(self).elems@.len()
                    &&& (old(self).elems@[id as int].poly_orders.i + p.di < 0 || old(
                        self,
                    ).elems@[id as int].poly_orders.j + p.dj < 0)
                },
            },
    {
        let mut v: usize = 0;
        while v < self.elems.len()
            invariant
                *self == *old(self),
                self.wf(),
                0 <= v <= self.elems@.len(),
                forall|k: int|
                    0 <= k < v ==> 0 <= (#[trigger] self.elems@[k]).poly_orders.i + p.di
                        <= crate::refinement::MAX_POLYNOMIAL_ORDER && 0
                        <= self.elems@[k].poly_orders.j + p.dj
                        <= crate::refinement::MAX_POLYNOMIAL_ORDER,
            decreases self.elems@.len() - v,
        {
            match self.elems[v].poly_orders.refined(p, v) {
                Ok(_) => {
                },
                Err(e) => {
                    return Err(e);
                },
            }
            v += 1;
        }
        let mut t: usize = 0;
        while t < self.elems.len()
            invariant
                self.wf(),
                self.children_linked(),
                self.elements@ == old(self).elements@,
                self.nodes@ == old(self).nodes@,
                self.edges@ == old(self).edges@,
                self.elems@.len() == old(self).elems@.len(),
                forall|k: int|
                    0 <= k < old(self).elems@.len() ==> 0 <= (#[trigger] old(
                        self,
                    ).elems@[k]).poly_orders.i + p.di <= crate::refinement::MAX_POLYNOMIAL_ORDER
                        && 0 <= old(self).elems@[k].poly_orders.j + p.dj
                        <= crate::refinement::MAX_POLYNOMIAL_ORDER,
                0 <= t <= self.elems@.len(),
                forall|k: int|
                    0 <= k < t ==> self.elems@[k] == (Elem {
                        poly_orders: PolyOrders {
                            i: (old(self).elems@[k].poly_orders.i + p.di) as u8,
                            j: (old(self).elems@[k].poly_orders.j + p.dj) as u8,
                        },
                        ..#[trigger] old(self).elems@[k]
                    }),
                forall|k: int|
                    t <= k < self.elems@.len() ==> #[trigger] self.elems@[k] == old(self).elems@[k],
            decreases self.elems@.len() - t,
        {
            let orders = match self.elems[t].poly_orders.refined(p, t) {
                Ok(o) => o,
                Err(_) => {
                    // the validation pass already accepted every elem
                    proof {
                        assert(false);
                    }
                    PolyOrders { i: 1, j: 1 }
                },
            };
            let ghost pre_seq = self.elems@;
            self.set_poly_orders(t, orders);
            proof {
                assert forall|k: int|
                    0 <= k < pre_seq.len() implies (#[trigger] self.elems@[k]).parent
                    == pre_seq[k].parent && self.elems@[k].children == pre_seq[k].children by {
                    if k != t {
                        assert(self.elems@[k] == pre_seq[k]);
                    }
                }
                lemma_linked_frame(pre_seq, self.elems@);
            }
            t += 1;
        }
        Ok(())
    }

    /// Ids of every elem strictly nested inside `elem_id`'s domain through
    /// refinement: exactly those reachable downward through children lists.
    pub fn descendant_elem_ids(&self, elem_id: usize) -> (r: Vec<usize>)
        requires
            self.wf(),
            self.children_linked(),
            elem_id < self.elems@.len(),
        ensures
            forall|i: int|
                0 <= i < r@.len() ==> elem_id < (#[trigger] r@[i]) && r@[i] < self.elems@.len(),
            forall|i: int|
                0 <= i < r@.len() ==> is_descendant_of(
                    self.elems@,
                    (#[trigger] r@[i]) as int,
                    elem_id as int,
                ),
            forall|d: int|
                0 <= d < self.elems@.len() && is_descendant_of(self.elems@, d, elem_id as int)
                    ==> r@.contains(d as usize),
        decreases self.elems@.len() - elem_id,
    {
        let n_elems = self.elems.len();
        let mut out: Vec<usize> = Vec::new();
        match self.elems[elem_id].child_ids() {
            None => {
                proof {
                    assert forall|d: int|
                        0 <= d < self.elems@.len() && is_descendant_of(
                            self.elems@,
                            d,
                            elem_id as int,
                        ) implies out@.contains(d as usize) by {
                        lemma_descendant_step(self.elems@, d, elem_id as int);
                    }
                }
                out
            },
            Some(ids) => {
                proof {
                    assert(child_ids_ok(self.elems@[elem_id as int], self.elems@.len() as int, elem_id as int));
                }
                let mut c: usize = 0;
                while c < ids.len()
                    invariant
                        self.wf(),
                        self.children_linked(),
                        elem_id < self.elems@.len(),
                        ids@ == (self.elems@[elem_id as int].children->0).0@,
                        self.elems@[elem_id as int].children is Some,
                        child_ids_ok(
                            self.elems@[elem_id as int],
                            self.elems@.len() as int,
                            elem_id as int,
                        ),
                        0 <= c <= ids@.len(),
                        forall|i: int|
                            0 <= i < out@.len() ==> elem_id < (#[trigger] out@[i]) && out@[i]
                                < self.elems@.len(),
                        forall|i: int|
                            0 <= i < out@.len() ==> is_descendant_of(
                                self.elems@,
                                (#[trigger] out@[i]) as int,
                                elem_id as int,
                            ),
                        forall|cp: int| 0 <= cp < c ==> out@.contains(#[trigger] ids@[cp]),
                        forall|d: int, cp: int|
                            0 <= cp < c && 0 <= d < self.elems@.len()
                                && #[trigger] is_descendant_of(self.elems@, d, ids@[cp] as int)
                                ==> out@.contains(d as usize),
                    decreases ids@.len() - c,
                {
                    let cid = ids[c];
                    proof {
                        assert((self.elems@[elem_id as int].children->0).0@[c as int] == cid);
                        assert(self.elems@[cid as int].parent is Some
                            && self.elems@[cid as int].parent->0.id == elem_id);
                        assert(is_descendant_of(self.elems@, cid as int, elem_id as int));
                    }
                    let ghost out_before = out@;
                    out.push(cid);
                    let mut sub = self.descendant_elem_ids(cid);
                    proof {
                        assert forall|i: int| 0 <= i < sub@.len() implies elem_id < (
                        #[trigger] sub@[i]) && sub@[i] < self.elems@.len() && is_descendant_of(
                            self.elems@,
                            sub@[i] as int,
                            elem_id as int,
                        ) by {
                            assert(is_descendant_of(self.elems@, sub@[i] as int, cid as int));
                            lemma_descendant_trans(
                                self.elems@,
                                sub@[i] as int,
                                cid as int,
                                elem_id as int,
                            );
                        }
                    }
                    let ghost mid = out@;
                    let ghost sub_seq = sub@;
                    out.append(&mut sub);
                    proof {
                        assert forall|cp: int| 0 <= cp < c + 1 implies out@.contains(
                            #[trigger] ids@[cp],
                        ) by {
                            if cp < c {
                                assert(out_before.contains(ids@[cp]));
                                let w = choose|w: int|
                                    0 <= w < out_before.len() && out_before[w] == ids@[cp];
                                assert(out@[w] == ids@[cp]);
                            } else {
                                assert(mid[mid.len() - 1] == cid);
                                assert(out@[mid.len() - 1] == ids@[cp]);
                            }
                        }
                        assert forall|d: int, cp: int|
                            0 <= cp < c + 1 && 0 <= d < self.elems@.len()
                                && #[trigger] is_descendant_of(
                                self.elems@,
                                d,
                                ids@[cp] as int,
                            ) implies out@.contains(d as usize) by {
                            if cp < c {
                                assert(out_before.contains(d as usize));
                                let w = choose|w: int|
                                    0 <= w < out_before.len() && out_before[w] == (d as usize);
                                assert(out@[w] == (d as usize));
                            } else {
                                assert(sub_seq.contains(d as usize));
                                let w = choose|w: int|
                                    0 <= w < sub_seq.len() && sub_seq[w] == (d as usize);
                                assert(out@[mid.len() + w] == (d as usize));
                            }
                        }
                    }
                    c += 1;
                }
                proof {
                    assert forall|d: int|
                        0 <= d < self.elems@.len() && is_descendant_of(
                            self.elems@,
                            d,
                            elem_id as int,
                        ) implies out@.contains(d as usize) by {
                        lemma_descendant_step(self.elems@, d, elem_id as int);
                        let lst = (self.elems@[elem_id as int].children->0).0@;
                        let cp = choose|cp: int|
                            0 <= cp < lst.len() && {
                                let cid2 = (#[trigger] (lst[cp])) as int;
                                d == cid2 || is_descendant_of(self.elems@, d, cid2)
                            };
                        assert(ids@[cp] == lst[cp]);
                        if d == (ids@[cp]) as int {
                            assert(out@.contains(ids@[cp]));
                        } else {
                            assert(is_descendant_of(self.elems@, d, ids@[cp] as int));
                        }
                    }
                }
                out
            },
        }
    }

    /// The parametric rectangle of a descendant, re-expressed in an
    /// ancestor's own `(-1, 1)` coordinates: the chain-rule window used when
    /// an ancestor's basis is sampled over a descendant's narrower range.
    pub fn relative_parametric_range(&self, ancestor_id: usize, desc_id: usize) -> (r: ParaRange)
        requires
            self.wf(),
            ancestor_id < self.elems@.len(),
            desc_id < self.elems@.len(),
        ensures
            r == spec_relative_range(
                self.elems@[ancestor_id as int].range,
                self.elems@[desc_id as int].range,
            ),
    {
        let a = self.elems[ancestor_id].range;
        let d = self.elems[desc_id].range;
        ParaRange {
            u_min: crate::space::map_range(
                d.u_min,
                a.u_min,
                a.u_max,
                crate::scalar::NEG_ONE_BITS,
                crate::scalar::ONE_BITS,
            ),
            u_max: crate::space::map_range(
                d.u_max,
                a.u_min,
                a.u_max,
                crate::scalar::NEG_ONE_BITS,
                crate::scalar::ONE_BITS,
            ),
            v_min: crate::space::map_range(
                d.v_min,
                a.v_min,
                a.v_max,
                crate::scalar::NEG_ONE_BITS,
                crate::scalar::ONE_BITS,
            ),
            v_max: crate::space::map_range(
                d.v_max,
                a.v_min,
                a.v_max,
                crate::scalar::NEG_ONE_BITS,
                crate::scalar::ONE_BITS,
            ),
        }
    }
}

/// A descendant's parametric rectangle mapped into an ancestor's `(-1, 1)`
/// square, bound by bound, from the two ranges alone.
pub fn relative_range_of(a: ParaRange, d: ParaRange) -> (r: ParaRange)
    ensures
        r == spec_relative_range(a, d),
{
    ParaRange {
        u_min: crate::space::map_range(
            d.u_min,
            a.u_min,
            a.u_max,
            crate::scalar::NEG_ONE_BITS,
            crate::scalar::ONE_BITS,
        ),
        u_max: crate::space::map_range(
            d.u_max,
            a.u_min,
            a.u_max,
            crate::scalar::NEG_ONE_BITS,
            crate::scalar::ONE_BITS,
        ),
        v_min: crate::space::map_range(
            d.v_min,
            a.v_min,
            a.v_max,
            crate::scalar::NEG_ONE_BITS,
            crate::scalar::ONE_BITS,
        ),
        v_max: crate::space::map_range(
            d.v_max,
            a.v_min,
            a.v_max,
            crate::scalar::NEG_ONE_BITS,
            crate::scalar::ONE_BITS,
        ),
    }
}

/// A descendant's parametric rectangle mapped into an ancestor's `(-1, 1)`
/// square, bound by bound.
pub open spec fn spec_relative_range(a: ParaRange, d: ParaRange) -> ParaRange {
    ParaRange {
        u_min: crate::space::spec_map_range(
            d.u_min,
            a.u_min,
            a.u_max,
            crate::scalar::NEG_ONE_BITS,
            crate::scalar::ONE_BITS,
        ),
        u_max: crate::space::spec_map_range(
            d.u_max,
            a.u_min,
            a.u_max,
            crate::scalar::NEG_ONE_BITS,
            crate::scalar::ONE_BITS,
        ),
        v_min: crate::space::spec_map_range(
            d.v_min,
            a.v_min,
            a.v_max,
            crate::scalar::NEG_ONE_BITS,
            crate::scalar::ONE_BITS,
        ),
        v_max: crate::space::spec_map_range(
            d.v_max,
            a.v_min,
            a.v_max,
            crate::scalar::NEG_ONE_BITS,
            crate::scalar::ONE_BITS,
        ),
    }
}

} // verus!
