//! h- and p-refinement descriptions, locations, levels and bounds.

use crate::scalar::add_bits;
use crate::scalar::add_f;
use crate::scalar::mul_bits;
use crate::scalar::mul_f;
use crate::scalar::sub_bits;
use crate::scalar::sub_f;
use crate::scalar::HALF_BITS;
use crate::space::ParaRange;
use vstd::prelude::*;

verus! {

/// Maximum polynomial expansion order; p-refinements past it are rejected.
pub const MAX_POLYNOMIAL_ORDER: u8 = 20;

/// Ceiling on the h-refinement depth counter per axis, so the depth always
/// fits its eight-bit field. The minimum-edge-length check rejects
/// refinements far before this bound is reached.
pub const MAX_H_LEVELS: u8 = 254;

/// Bit pattern of the minimum parametric edge length, one millionth.
/// h-refinements that would produce a shorter child edge are rejected.
pub const MIN_EDGE_LENGTH_BITS: u64 = 0x3EB0_C6F7_A0B5_ED8D;

/// The cut ratio of an uneven axis bisection, as an IEEE-754 bit pattern
/// meant to lie strictly between zero and one. A ratio whose cut would
/// leave a child edge shorter than the minimum length, or of no defined
/// length at all, has its refinement rejected.
#[derive(Clone, Copy, Debug, PartialEq, Eq, Structural)]
pub struct Bisection {
    pub ratio: u64,
}

/// An h-refinement: quadrisection, or bisection along one parametric axis,
/// optionally at a custom ratio.
#[derive(Clone, Copy, Debug, PartialEq, Eq, Structural)]
pub enum HRef {
    T,
    U(Option<Bisection>),
    V(Option<Bisection>),
}

/// Which quarter of a quadrisection a child occupies.
#[derive(Clone, Copy, Debug, PartialEq, Eq, Structural)]
pub enum Quadrant {
    BL,
    BR,
    TL,
    TR,
}

/// Which half of a bisection a child occupies.
#[derive(Clone, Copy, Debug, PartialEq, Eq, Structural)]
pub enum Side {
    First,
    Second,
}

/// A child's location within its refined parent.
#[derive(Clone, Copy, Debug, PartialEq, Eq, Structural)]
pub enum HRefLoc {
    Quad(Quadrant),
    Half(Side),
}

/// Structural refinement failures: both are recoverable results.
#[derive(Clone, Copy, Debug, PartialEq, Eq, Structural)]
pub enum HRefError {
    /// The element already has children.
    ElemHasChildren(usize),
    /// A child was committed before all eight of its slots were filled.
    UninitializedElem(usize),
    /// The refinement would shrink a parametric edge below the minimum length.
    MinEdgeLength(usize),
}

/// p-refinement failures: the order would leave its allowed range.
#[derive(Clone, Copy, Debug, PartialEq, Eq, Structural)]
pub enum PRefError {
    /// The order would exceed the maximum polynomial order.
    ExceededMaxExpansion(usize),
    /// The order would drop below zero.
    NegativeExpansion(usize),
}

impl HRef {
    /// How many children the refinement produces.
    pub open spec fn spec_num_children(self) -> int {
        match self {
            HRef::T => 4,
            HRef::U(_) => 2,
            HRef::V(_) => 2,
        }
    }

    /// How many children the refinement produces.
    pub fn num_children(&self) -> (n: usize)
        ensures
            n == self.spec_num_children(),
    {
        match self {
            HRef::T => 4,
            HRef::U(_) => 2,
            HRef::V(_) => 2,
        }
    }

    /// Whether the refinement splits the u axis.
    pub open spec fn splits_u(self) -> bool {
        match self {
            HRef::T => true,
            HRef::U(_) => true,
            HRef::V(_) => false,
        }
    }

    /// Whether the refinement splits the v axis.
    pub open spec fn splits_v(self) -> bool {
        match self {
            HRef::T => true,
            HRef::U(_) => false,
            HRef::V(_) => true,
        }
    }

    /// The cut ratio along the split axis; the midpoint unless a bisection
    /// names one.
    pub open spec fn spec_ratio(self) -> u64 {
        match self {
            HRef::T => HALF_BITS,
            HRef::U(b) => if b is Some {
                b->0.ratio
            } else {
                HALF_BITS
            },
            HRef::V(b) => if b is Some {
                b->0.ratio
            } else {
                HALF_BITS
            },
        }
    }

    /// The cut ratio along the split axis.
    pub fn ratio(&self) -> (r: u64)
        ensures
            r == self.spec_ratio(),
    {
        match self {
            HRef::T => HALF_BITS,
            HRef::U(Some(b)) => b.ratio,
            HRef::U(None) => HALF_BITS,
            HRef::V(Some(b)) => b.ratio,
            HRef::V(None) => HALF_BITS,
        }
    }

    /// The location of the `idx`-th child within its parent.
    pub open spec fn spec_location(self, idx: int) -> HRefLoc {
        match self {
            HRef::T => if idx == 0 {
                HRefLoc::Quad(Quadrant::BL)
            } else if idx == 1 {
                HRefLoc::Quad(Quadrant::BR)
            } else if idx == 2 {
                HRefLoc::Quad(Quadrant::TL)
            } else {
                HRefLoc::Quad(Quadrant::TR)
            },
            _ => if idx == 0 {
                HRefLoc::Half(Side::First)
            } else {
                HRefLoc::Half(Side::Second)
            },
        }
    }

    /// The location of the `idx`-th child within its parent.
    pub fn location(&self, idx: usize) -> (l: HRefLoc)
        requires
            idx < self.spec_num_children(),
        ensures
            l == self.spec_location(idx as int),
    {
        match self {
            HRef::T => {
                if idx == 0 {
                    HRefLoc::Quad(Quadrant::BL)
                } else if idx == 1 {
                    HRefLoc::Quad(Quadrant::BR)
                } else if idx == 2 {
                    HRefLoc::Quad(Quadrant::TL)
                } else {
                    HRefLoc::Quad(Quadrant::TR)
                }
            },
            _ => {
                if idx == 0 {
                    HRefLoc::Half(Side::First)
                } else {
                    HRefLoc::Half(Side::Second)
                }
            },
        }
    }
}

/// The cut point of `[lo, hi]` at the given ratio.
pub open spec fn spec_cut(lo: u64, hi: u64, ratio: u64) -> u64 {
    add_bits(lo, mul_bits(ratio, sub_bits(hi, lo)))
}

/// The cut point of `[lo, hi]` at the given ratio.
pub fn range_cut(lo: u64, hi: u64, ratio: u64) -> (r: u64)
    ensures
        r == spec_cut(lo, hi, ratio),
{
    add_f(lo, mul_f(ratio, sub_f(hi, lo)))
}

/// The parametric sub-rectangle of the `idx`-th child of a refinement of
/// `parent`.
pub open spec fn spec_child_range(parent: ParaRange, r: HRef, idx: int) -> ParaRange {
    let cut_u = spec_cut(parent.u_min, parent.u_max, r.spec_ratio());
    let cut_v = spec_cut(parent.v_min, parent.v_max, r.spec_ratio());
    match r {
        HRef::T => if idx == 0 {
            ParaRange { u_min: parent.u_min, u_max: cut_u, v_min: parent.v_min, v_max: cut_v }
        } else if idx == 1 {
            ParaRange { u_min: cut_u, u_max: parent.u_max, v_min: parent.v_min, v_max: cut_v }
        } else if idx == 2 {
            ParaRange { u_min: parent.u_min, u_max: cut_u, v_min: cut_v, v_max: parent.v_max }
        } else {
            ParaRange { u_min: cut_u, u_max: parent.u_max, v_min: cut_v, v_max: parent.v_max }
        },
        HRef::U(_) => if idx == 0 {
            ParaRange { u_min: parent.u_min, u_max: cut_u, ..parent }
        } else {
            ParaRange { u_min: cut_u, u_max: parent.u_max, ..parent }
        },
        HRef::V(_) => if idx == 0 {
            ParaRange { v_min: parent.v_min, v_max: cut_v, ..parent }
        } else {
            ParaRange { v_min: cut_v, v_max: parent.v_max, ..parent }
        },
    }
}

/// The parametric sub-rectangle of the `idx`-th child of a refinement of
/// `parent`.
pub fn child_range(parent: ParaRange, r: HRef, idx: usize) -> (out: ParaRange)
    requires
        idx < r.spec_num_children(),
    ensures
        out == spec_child_range(parent, r, idx as int),
{
    let cut_u = range_cut(parent.u_min, parent.u_max, r.ratio());
    let cut_v = range_cut(parent.v_min, parent.v_max, r.ratio());
    match r {
        HRef::T => {
            if idx == 0 {
                ParaRange { u_min: parent.u_min, u_max: cut_u, v_min: parent.v_min, v_max: cut_v }
            } else if idx == 1 {
                ParaRange { u_min: cut_u, u_max: parent.u_max, v_min: parent.v_min, v_max: cut_v }
            } else if idx == 2 {
                ParaRange { u_min: parent.u_min, u_max: cut_u, v_min: cut_v, v_max: parent.v_max }
            } else {
                ParaRange { u_min: cut_u, u_max: parent.u_max, v_min: cut_v, v_max: parent.v_max }
            }
        },
        HRef::U(_) => {
            if idx == 0 {
                ParaRange { u_min: parent.u_min, u_max: cut_u, ..parent }
            } else {
                ParaRange { u_min: cut_u, u_max: parent.u_max, ..parent }
            }
        },
        HRef::V(_) => {
            if idx == 0 {
                ParaRange { v_min: parent.v_min, v_max: cut_v, ..parent }
            } else {
                ParaRange { v_min: cut_v, v_max: parent.v_max, ..parent }
            }
        },
    }
}

/// The parametric width from `lo` to `hi` is shorter than the minimum edge
/// length, or is no defined length at all.
pub open spec fn spec_width_bad(lo: u64, hi: u64) -> bool {
    ||| crate::scalar::is_nan_bits(crate::scalar::sub_bits(hi, lo))
    ||| crate::scalar::lt_bits(crate::scalar::sub_bits(hi, lo), MIN_EDGE_LENGTH_BITS)
}

/// Some child of a refinement of `parent` would have a parametric edge
/// along a split axis that falls below the minimum length.
pub open spec fn spec_child_too_short(parent: ParaRange, r: HRef) -> bool {
    let cut_u = spec_cut(parent.u_min, parent.u_max, r.spec_ratio());
    let cut_v = spec_cut(parent.v_min, parent.v_max, r.spec_ratio());
    ||| (r.splits_u() && (spec_width_bad(parent.u_min, cut_u) || spec_width_bad(
        cut_u,
        parent.u_max,
    )))
    ||| (r.splits_v() && (spec_width_bad(parent.v_min, cut_v) || spec_width_bad(
        cut_v,
        parent.v_max,
    )))
}

/// The parametric width from `lo` to `hi` is shorter than the minimum edge
/// length, or is no defined length at all.
fn width_bad(lo: u64, hi: u64) -> (b: bool)
    ensures
        b == spec_width_bad(lo, hi),
{
    let w = crate::scalar::sub_f(hi, lo);
    crate::scalar::bits_is_nan(w) || crate::scalar::lt_f(w, MIN_EDGE_LENGTH_BITS)
}

/// Some child of a refinement of `parent` would have a parametric edge
/// along a split axis that falls below the minimum length.
pub fn child_too_short(parent: ParaRange, r: HRef) -> (b: bool)
    ensures
        b == spec_child_too_short(parent, r),
{
    let cut_u = range_cut(parent.u_min, parent.u_max, r.ratio());
    let cut_v = range_cut(parent.v_min, parent.v_max, r.ratio());
    (r.splits_u_axis() && (width_bad(parent.u_min, cut_u) || width_bad(cut_u, parent.u_max)))
        || (r.splits_v_axis() && (width_bad(parent.v_min, cut_v) || width_bad(
        cut_v,
        parent.v_max,
    )))
}

/// Per-axis h-refinement depths.
#[derive(Clone, Copy, Debug, PartialEq, Eq, Structural)]
pub struct HLevels {
    pub u: u8,
    pub v: u8,
}

impl HLevels {
    /// The depths after one further refinement.
    pub open spec fn spec_refined(self, r: HRef) -> HLevels {
        HLevels {
            u: if r.splits_u() {
                (self.u + 1) as u8
            } else {
                self.u
            },
            v: if r.splits_v() {
                (self.v + 1) as u8
            } else {
                self.v
            },
        }
    }

    /// The depths after one further refinement.
    pub fn refined(&self, r: HRef) -> (out: HLevels)
        requires
            r.splits_u() ==> self.u < u8::MAX,
            r.splits_v() ==> self.v < u8::MAX,
        ensures
            out == self.spec_refined(r),
    {
        HLevels {
            u: if r.splits_u_axis() {
                self.u + 1
            } else {
                self.u
            },
            v: if r.splits_v_axis() {
                self.v + 1
            } else {
                self.v
            },
        }
    }
}

impl HRef {
    /// Whether the refinement splits the u axis.
    pub fn splits_u_axis(&self) -> (b: bool)
        ensures
            b == self.splits_u(),
    {
        match self {
            HRef::V(_) => false,
            _ => true,
        }
    }

    /// Whether the refinement splits the v axis.
    pub fn splits_v_axis(&self) -> (b: bool)
        ensures
            b == self.splits_v(),
    {
        match self {
            HRef::U(_) => false,
            _ => true,
        }
    }
}

impl Default for HLevels {
    /// An unrefined element: depth zero on both axes.
    fn default() -> (r: Self)
        ensures
            r == (HLevels { u: 0, v: 0 }),
    {
        HLevels { u: 0, v: 0 }
    }
}

/// Per-axis polynomial expansion orders.
#[derive(Clone, Copy, Debug, PartialEq, Eq, Structural)]
pub struct PolyOrders {
    pub i: u8,
    pub j: u8,
}

impl Default for PolyOrders {
    /// First-order expansion on both axes.
    fn default() -> (r: Self)
        ensures
            r == (PolyOrders { i: 1, j: 1 }),
    {
        PolyOrders { i: 1, j: 1 }
    }
}

/// A p-refinement: signed adjustments to the two expansion orders.
#[derive(Clone, Copy, Debug, PartialEq, Eq, Structural)]
pub struct PRef {
    pub di: i8,
    pub dj: i8,
}

impl PRef {
    /// A p-refinement from its two adjustments.
    pub fn from(di: i8, dj: i8) -> (r: Self)
        ensures
            r == (PRef { di, dj }),
    {
        PRef { di, dj }
    }
}

impl PolyOrders {
    /// Apply a p-refinement. Fails when an adjusted order would leave
    /// `[0, MAX_POLYNOMIAL_ORDER]`; the element id is carried for reporting.
    pub fn refined(&self, p: PRef, elem_id: usize) -> (out: Result<PolyOrders, PRefError>)
        ensures
            match out {
                Ok(o) => 0 <= self.i + p.di <= MAX_POLYNOMIAL_ORDER && 0 <= self.j + p.dj
                    <= MAX_POLYNOMIAL_ORDER && o.i == self.i + p.di && o.j == self.j + p.dj,
                Err(PRefError::ExceededMaxExpansion(id)) => id == elem_id && (self.i + p.di
                    > MAX_POLYNOMIAL_ORDER || self.j + p.dj > MAX_POLYNOMIAL_ORDER),
                Err(PRefError::NegativeExpansion(id)) => id == elem_id && self.i + p.di
                    <= MAX_POLYNOMIAL_ORDER && self.j + p.dj <= MAX_POLYNOMIAL_ORDER && (self.i
                    + p.di < 0 || self.j + p.dj < 0),
            },
    {
        let ni: i16 = self.i as i16 + p.di as i16;
        let nj: i16 = self.j as i16 + p.dj as i16;
        if ni > MAX_POLYNOMIAL_ORDER as i16 || nj > MAX_POLYNOMIAL_ORDER as i16 {
            Err(PRefError::ExceededMaxExpansion(elem_id))
        } else if ni < 0 || nj < 0 {
            Err(PRefError::NegativeExpansion(elem_id))
        } else {
            Ok(PolyOrders { i: ni as u8, j: nj as u8 })
        }
    }
}

} // verus!
