//! Refinable mesh elements and the two-phase builder for their children.
//!
//! An [`Elem`] is a node of the refinement tree over a rectangular
//! [`crate::element::Element`], which it references by index into the mesh's
//! element arena. A refinement produces [`ElemUninit`] builders whose node
//! and edge slots are filled by the caller — shared nodes and edges span
//! several elements' refinement batches — and committed once complete.

use crate::refinement::spec_child_range;
use crate::refinement::HLevels;
use crate::refinement::HRef;
use crate::refinement::HRefError;
use crate::refinement::HRefLoc;
use crate::refinement::PolyOrders;
use crate::refinement::MAX_H_LEVELS;
use crate::element::point_in_element;
use crate::element::spec_parametric_gradient;
use crate::element::spec_parametric_projection;
use crate::element::Element;
use crate::space::spec_full_range;
use crate::space::ParaRange;
use crate::space::Point;
use crate::space::M2D;
use crate::space::V2D;
use vstd::prelude::*;

verus! {

/// Basic unit of the discretized domain: a rectangular area in parametric
/// space, with its neighboring nodes and edges, its position in the
/// refinement tree, and its refinement state.
#[derive(Clone, Debug)]
pub struct Elem {
    pub id: usize,
    pub nodes: [usize; 4],
    pub edges: [usize; 4],
    /// Index of the owning geometric element in the mesh's element arena.
    pub element_id: usize,
    pub h_levels: HLevels,
    pub poly_orders: PolyOrders,
    /// Child elem ids and the refinement that produced them, once refined.
    pub children: Option<(Vec<usize>, HRef)>,
    /// Parent elem id and location within it, for elems born of refinement.
    pub parent: Option<ParentLink>,
    /// The sub-rectangle of the owning element's parametric domain that
    /// this elem covers.
    pub range: ParaRange,
}

/// An elem's link to its parent: the parent's id and this child's location
/// within it.
#[derive(Clone, Copy, Debug, PartialEq, Eq, Structural)]
pub struct ParentLink {
    pub id: usize,
    pub loc: HRefLoc,
}

/// Transient builder for a child [`Elem`] mid-refinement: each node and edge
/// slot may be set at most once, and promotion requires all eight.
#[derive(Clone, Debug)]
pub struct ElemUninit {
    pub id: usize,
    pub nodes: [Option<usize>; 4],
    pub edges: [Option<usize>; 4],
    pub element_id: usize,
    pub parent: ParentLink,
    pub h_levels: HLevels,
    pub poly_orders: PolyOrders,
    pub range: ParaRange,
}

/// `u` is the still-unwired `idx`-th child, with id `id`, of a `refinement`
/// of `parent`: empty slots, advanced depths, inherited orders, and the
/// matching parametric sub-rectangle.
pub open spec fn uninit_child_of(
    u: ElemUninit,
    parent: Elem,
    refinement: HRef,
    idx: int,
    id: int,
) -> bool {
    &&& u.id == id
    &&& u.nodes[0] is None && u.nodes[1] is None && u.nodes[2] is None && u.nodes[3] is None
    &&& u.edges[0] is None && u.edges[1] is None && u.edges[2] is None && u.edges[3] is None
    &&& u.element_id == parent.element_id
    &&& u.parent == (ParentLink { id: parent.id, loc: refinement.spec_location(idx) })
    &&& u.h_levels == parent.h_levels.spec_refined(refinement)
    &&& u.poly_orders == parent.poly_orders
    &&& u.range == spec_child_range(parent.range, refinement, idx)
}

impl Elem {
    /// A root elem, built directly from mesh-file connectivity: no parent,
    /// no children, default depths and orders, covering its whole element.
    pub fn new(id: usize, nodes: [usize; 4], edges: [usize; 4], element_id: usize) -> (r: Self)
        ensures
            r.id == id,
            r.nodes == nodes,
            r.edges == edges,
            r.element_id == element_id,
            r.h_levels == (HLevels { u: 0, v: 0 }),
            r.poly_orders == (PolyOrders { i: 1, j: 1 }),
            r.children is None,
            r.parent is None,
            r.range == spec_full_range(),
    {
        Self {
            id,
            nodes,
            edges,
            element_id,
            h_levels: HLevels::default(),
            poly_orders: PolyOrders::default(),
            children: None,
            parent: None,
            range: crate::space::full_range(),
        }
    }

    /// The refinement depth counter stays within its eight-bit field on
    /// every axis the refinement splits.
    pub open spec fn level_cap_ok(self, refinement: HRef) -> bool {
        &&& refinement.splits_u() ==> self.h_levels.u < MAX_H_LEVELS
        &&& refinement.splits_v() ==> self.h_levels.v < MAX_H_LEVELS
    }

    /// The refinement is rejected as a bounds violation: a child edge along
    /// a split axis would fall below the minimum parametric length, or the
    /// depth counter would leave its field.
    pub open spec fn min_edge_violated(self, refinement: HRef) -> bool {
        !self.level_cap_ok(refinement) || crate::refinement::spec_child_too_short(
            self.range,
            refinement,
        )
    }

    /// Produce the two or four child builders of an h-refinement, drawing
    /// fresh sequential ids from `id_counter`. Fails on an elem that already
    /// has children, or when a split axis is already at the depth cap.
    /// Wiring the builders' node and edge slots is the caller's
    /// responsibility.
    pub fn h_refine(&mut self, refinement: HRef, id_counter: &mut usize) -> (r: Result<
        Vec<ElemUninit>,
        HRefError,
    >)
        requires
            *old(id_counter) + 4 <= usize::MAX,
        ensures
            *final(self) == *old(self),
            match r {
                Ok(uninits) => {
                    &&& old(self).children is None
                    &&& !old(self).min_edge_violated(refinement)
                    &&& *final(id_counter) == *old(id_counter) + refinement.spec_num_children()
                    &&& uninits@.len() == refinement.spec_num_children()
                    &&& forall|k: int|
                        0 <= k < uninits@.len() ==> uninit_child_of(
                            #[trigger] uninits@[k],
                            *old(self),
                            refinement,
                            k,
                            *old(id_counter) + k,
                        )
                },
                Err(HRefError::ElemHasChildren(id)) => {
                    &&& id == old(self).id
                    &&& old(self).children is Some
                    &&& *final(id_counter) == *old(id_counter)
                },
                Err(HRefError::MinEdgeLength(id)) => {
                    &&& id == old(self).id
                    &&& old(self).children is None
                    &&& old(self).min_edge_violated(refinement)
                    &&& *final(id_counter) == *old(id_counter)
                },
                Err(HRefError::UninitializedElem(_)) => false,
            },
    {
        if self.children.is_some() {
            return Err(HRefError::ElemHasChildren(self.id));
        }
        let cap_ok = (!refinement.splits_u_axis() || self.h_levels.u < MAX_H_LEVELS) && (
        !refinement.splits_v_axis() || self.h_levels.v < MAX_H_LEVELS);
        if !cap_ok || crate::refinement::child_too_short(self.range, refinement) {
            return Err(HRefError::MinEdgeLength(self.id));
        }
        let n = refinement.num_children();
        let mut out: Vec<ElemUninit> = Vec::new();
        let mut k: usize = 0;
        while k < n
            invariant
                *self == *old(self),
                self.children is None,
                self.level_cap_ok(refinement),
                n == refinement.spec_num_children(),
                0 <= k <= n,
                *old(id_counter) + 4 <= usize::MAX,
                *id_counter == *old(id_counter) + k,
                out@.len() == k,
                forall|p: int|
                    0 <= p < k ==> uninit_child_of(
                        #[trigger] out@[p],
                        *old(self),
                        refinement,
                        p,
                        *old(id_counter) + p,
                    ),
            decreases n - k,
        {
            let id = *id_counter;
            *id_counter += 1;
            out.push(
                ElemUninit::new(
                    id,
                    k,
                    refinement,
                    self.element_id,
                    self.id,
                    &self.h_levels,
                    self.poly_orders,
                    self.range,
                ),
            );
            k += 1;
        }
        Ok(out)
    }

    /// Id of the parent elem, for elems born of refinement.
    pub fn parent_id(&self) -> (r: Option<usize>)
        ensures
            match r {
                Some(id) => self.parent is Some && id == self.parent->0.id,
                None => self.parent is None,
            },
    {
        match &self.parent {
            Some(link) => Some(link.id),
            None => None,
        }
    }

    /// Location of this elem relative to its parent, if it has one.
    pub fn relative_location(&self) -> (r: Option<HRefLoc>)
        ensures
            match r {
                Some(loc) => self.parent is Some && loc == self.parent->0.loc,
                None => self.parent is None,
            },
    {
        match &self.parent {
            Some(link) => Some(link.loc),
            None => None,
        }
    }

    /// The child elem ids, if this elem has been refined.
    pub fn child_ids(&self) -> (r: Option<Vec<usize>>)
        ensures
            match r {
                Some(ids) => self.children is Some && ids@ == (self.children->0).0@,
                None => self.children is None,
            },
    {
        match &self.children {
            Some((child_elem_ids, _)) => Some(child_elem_ids.clone()),
            None => None,
        }
    }

    /// Projection of a real point onto parametric space, through this
    /// elem's owning element, passed in from the mesh's element arena.
    pub fn parametric_projection(&self, element: &Element, real_point: Point) -> (r: V2D)
        requires
            point_in_element(*element, real_point),
        ensures
            r == spec_parametric_projection(*element, real_point),
    {
        element.parametric_projection(real_point)
    }

    /// Projection of a real point onto parametric space, first checking
    /// that it lies strictly inside the owning element's corner bounds.
    pub fn try_parametric_projection(&self, element: &Element, real_point: Point) -> (r: Option<
        V2D,
    >)
        ensures
            match r {
                Some(v) => point_in_element(*element, real_point) && v
                    == spec_parametric_projection(*element, real_point),
                None => !point_in_element(*element, real_point),
            },
    {
        let inside = crate::scalar::lt_f(element.points[0].x, real_point.x)
            && crate::scalar::lt_f(real_point.x, element.points[3].x) && crate::scalar::lt_f(
            element.points[0].y,
            real_point.y,
        ) && crate::scalar::lt_f(real_point.y, element.points[3].y);
        if inside {
            Some(self.parametric_projection(element, real_point))
        } else {
            None
        }
    }

    /// Gradient of a parametric point through real space, via this elem's
    /// owning element; constant over a rectangular element.
    pub fn parametric_gradient(&self, element: &Element, parametric_coords: V2D) -> (r: M2D)
        ensures
            r == spec_parametric_gradient(*element),
    {
        element.parametric_gradient(parametric_coords)
    }

    /// Whether this elem has been refined. Only childless elems own degrees
    /// of freedom and take part in assembly.
    pub fn has_children(&self) -> (r: bool)
        ensures
            r == (self.children is Some),
    {
        self.children.is_some()
    }
}

/// One slot of a four-slot option array replaced.
fn set_slot(arr: [Option<usize>; 4], idx: usize, v: usize) -> (r: [Option<usize>; 4])
    requires
        idx < 4,
    ensures
        r[idx as int] == Some(v),
        forall|k: int| 0 <= k < 4 && k != idx ==> r[k] == arr[k],
{
    if idx == 0 {
        [Some(v), arr[1], arr[2], arr[3]]
    } else if idx == 1 {
        [arr[0], Some(v), arr[2], arr[3]]
    } else if idx == 2 {
        [arr[0], arr[1], Some(v), arr[3]]
    } else {
        [arr[0], arr[1], arr[2], Some(v)]
    }
}

impl ElemUninit {
    /// The `idx`-th child builder of a refinement: empty slots, parent
    /// linkage, advanced depths, inherited orders, and the child's
    /// parametric sub-rectangle.
    pub fn new(
        id: usize,
        idx: usize,
        refinement: HRef,
        element_id: usize,
        parent_id: usize,
        parent_h_levels: &HLevels,
        poly_orders: PolyOrders,
        parent_range: ParaRange,
    ) -> (r: Self)
        requires
            idx < refinement.spec_num_children(),
            refinement.splits_u() ==> parent_h_levels.u < u8::MAX,
            refinement.splits_v() ==> parent_h_levels.v < u8::MAX,
        ensures
            r.id == id,
            r.nodes[0] is None && r.nodes[1] is None && r.nodes[2] is None && r.nodes[3] is None,
            r.edges[0] is None && r.edges[1] is None && r.edges[2] is None && r.edges[3] is None,
            r.element_id == element_id,
            r.parent == (ParentLink { id: parent_id, loc: refinement.spec_location(idx as int) }),
            r.h_levels == parent_h_levels.spec_refined(refinement),
            r.poly_orders == poly_orders,
            r.range == spec_child_range(parent_range, refinement, idx as int),
    {
        Self {
            id,
            nodes: [None, None, None, None],
            edges: [None, None, None, None],
            element_id,
            parent: ParentLink { id: parent_id, loc: refinement.location(idx) },
            h_levels: parent_h_levels.refined(refinement),
            poly_orders,
            range: crate::refinement::child_range(parent_range, refinement, idx),
        }
    }

    /// Fill one node slot. A slot may be set at most once: re-setting it to
    /// the same id is a no-op, and re-setting it to a different id is a
    /// contract violation excluded by the precondition.
    pub fn set_node(&mut self, node_idx: usize, node_id: usize)
        requires
            node_idx < 4,
            old(self).nodes[node_idx as int] is None || old(self).nodes[node_idx as int] == Some(
                node_id,
            ),
        ensures
            final(self).nodes[node_idx as int] == Some(node_id),
            forall|k: int| 0 <= k < 4 && k != node_idx ==> final(self).nodes[k] == old(self).nodes[k],
            final(self).id == old(self).id,
            final(self).edges == old(self).edges,
            final(self).element_id == old(self).element_id,
            final(self).parent == old(self).parent,
            final(self).h_levels == old(self).h_levels,
            final(self).poly_orders == old(self).poly_orders,
            final(self).range == old(self).range,
    {
        self.nodes = set_slot(self.nodes, node_idx, node_id);
    }

    /// Fill one edge slot; the same at-most-once discipline as for nodes.
    pub fn set_edge(&mut self, edge_idx: usize, edge_id: usize)
        requires
            edge_idx < 4,
            old(self).edges[edge_idx as int] is None || old(self).edges[edge_idx as int] == Some(
                edge_id,
            ),
        ensures
            final(self).edges[edge_idx as int] == Some(edge_id),
            forall|k: int| 0 <= k < 4 && k != edge_idx ==> final(self).edges[k] == old(self).edges[k],
            final(self).id == old(self).id,
            final(self).nodes == old(self).nodes,
            final(self).element_id == old(self).element_id,
            final(self).parent == old(self).parent,
            final(self).h_levels == old(self).h_levels,
            final(self).poly_orders == old(self).poly_orders,
            final(self).range == old(self).range,
    {
        self.edges = set_slot(self.edges, edge_idx, edge_id);
    }

    /// All four node slots and all four edge slots are filled.
    pub open spec fn fully_initialized(self) -> bool {
        &&& self.nodes[0] is Some && self.nodes[1] is Some && self.nodes[2] is Some
            && self.nodes[3] is Some
        &&& self.edges[0] is Some && self.edges[1] is Some && self.edges[2] is Some
            && self.edges[3] is Some
    }

    /// Promote the builder to an [`Elem`]. Fails with the uninitialized
    /// condition unless all eight slots have been filled.
    pub fn into_elem(self) -> (r: Result<Elem, HRefError>)
        ensures
            match r {
                Ok(e) => {
                    &&& self.fully_initialized()
                    &&& e.id == self.id
                    &&& forall|k: int| 0 <= k < 4 ==> Some(#[trigger] e.nodes[k]) == self.nodes[k]
                    &&& forall|k: int| 0 <= k < 4 ==> Some(#[trigger] e.edges[k]) == self.edges[k]
                    &&& e.element_id == self.element_id
                    &&& e.children is None
                    &&& e.parent == Some(self.parent)
                    &&& e.h_levels == self.h_levels
                    &&& e.poly_orders == self.poly_orders
                    &&& e.range == self.range
                },
                Err(HRefError::UninitializedElem(id)) => {
                    &&& id == self.id
                    &&& !self.fully_initialized()
                },
                Err(HRefError::ElemHasChildren(_)) => false,
                Err(HRefError::MinEdgeLength(_)) => false,
            },
    {
        let nodes_init = self.nodes[0].is_some() && self.nodes[1].is_some()
            && self.nodes[2].is_some() && self.nodes[3].is_some();
        let edges_init = self.edges[0].is_some() && self.edges[1].is_some()
            && self.edges[2].is_some() && self.edges[3].is_some();
        if nodes_init && edges_init {
            Ok(
                Elem {
                    id: self.id,
                    nodes: [
                        self.nodes[0].unwrap(),
                        self.nodes[1].unwrap(),
                        self.nodes[2].unwrap(),
                        self.nodes[3].unwrap(),
                    ],
                    edges: [
                        self.edges[0].unwrap(),
                        self.edges[1].unwrap(),
                        self.edges[2].unwrap(),
                        self.edges[3].unwrap(),
                    ],
                    element_id: self.element_id,
                    children: None,
                    parent: Some(self.parent),
                    h_levels: self.h_levels,
                    poly_orders: self.poly_orders,
                    range: self.range,
                },
            )
        } else {
            Err(HRefError::UninitializedElem(self.id))
        }
    }
}

} // verus!
