//! Points, vectors and matrices of real 2-D space, and parametric ranges.
//!
//! All coordinates are IEEE-754 bit patterns (see [`crate::scalar`]).

use crate::scalar::add_bits;
use crate::scalar::add_f;
use crate::scalar::div_bits;
use crate::scalar::div_f;
use crate::scalar::mul_bits;
use crate::scalar::mul_f;
use crate::scalar::sub_bits;
use crate::scalar::sub_f;
use vstd::prelude::*;

verus! {

/// Orientation of an edge in parametric space.
#[derive(Clone, Copy, Debug, PartialEq, Eq, Structural)]
pub enum ParaDir {
    U,
    V,
}

/// A point in real 2-D space.
#[derive(Clone, Copy, Debug, PartialEq, Eq, Structural)]
pub struct Point {
    pub x: u64,
    pub y: u64,
}

impl Point {
    /// A point from its two coordinates.
    pub fn new(x: u64, y: u64) -> (r: Point)
        ensures
            r == (Point { x, y }),
    {
        Point { x, y }
    }
}

/// A two-component real vector.
#[derive(Clone, Copy, Debug, PartialEq, Eq, Structural)]
pub struct V2D {
    pub x: u64,
    pub y: u64,
}

impl V2D {
    /// A vector from its `[x, y]` components.
    pub fn from(components: [u64; 2]) -> (r: V2D)
        ensures
            r == (V2D { x: components[0], y: components[1] }),
    {
        V2D { x: components[0], y: components[1] }
    }
}

/// A two-by-two real matrix, stored as its two rows.
#[derive(Clone, Copy, Debug, PartialEq, Eq, Structural)]
pub struct M2D {
    pub u: V2D,
    pub v: V2D,
}

/// The determinant of `m`, as the IEEE-754 combination of its entries.
pub open spec fn spec_det(m: M2D) -> u64 {
    sub_bits(mul_bits(m.u.x, m.v.y), mul_bits(m.u.y, m.v.x))
}

/// The adjugate-over-determinant inverse of `m`, entry by entry.
pub open spec fn spec_inverse(m: M2D) -> M2D {
    let d = spec_det(m);
    M2D {
        u: V2D { x: div_bits(m.v.y, d), y: div_bits(sub_bits(0, m.u.y), d) },
        v: V2D { x: div_bits(sub_bits(0, m.v.x), d), y: div_bits(m.u.x, d) },
    }
}

impl M2D {
    /// A matrix from its two rows.
    pub fn from(u_row: [u64; 2], v_row: [u64; 2]) -> (r: M2D)
        ensures
            r == (M2D {
                u: V2D { x: u_row[0], y: u_row[1] },
                v: V2D { x: v_row[0], y: v_row[1] },
            }),
    {
        M2D { u: V2D { x: u_row[0], y: u_row[1] }, v: V2D { x: v_row[0], y: v_row[1] } }
    }

    /// The determinant.
    pub fn det(&self) -> (r: u64)
        ensures
            r == spec_det(*self),
    {
        sub_f(mul_f(self.u.x, self.v.y), mul_f(self.u.y, self.v.x))
    }

    /// The inverse, by the adjugate formula.
    pub fn inverse(&self) -> (r: M2D)
        ensures
            r == spec_inverse(*self),
    {
        let d = self.det();
        M2D {
            u: V2D { x: div_f(self.v.y, d), y: div_f(sub_f(0, self.u.y), d) },
            v: V2D { x: div_f(sub_f(0, self.v.x), d), y: div_f(self.u.x, d) },
        }
    }
}

/// An axis-aligned parametric sub-rectangle of a root element's domain.
#[derive(Clone, Copy, Debug, PartialEq, Eq, Structural)]
pub struct ParaRange {
    pub u_min: u64,
    pub u_max: u64,
    pub v_min: u64,
    pub v_max: u64,
}

/// The whole parametric domain of a root element.
pub open spec fn spec_full_range() -> ParaRange {
    ParaRange {
        u_min: crate::scalar::NEG_ONE_BITS,
        u_max: crate::scalar::ONE_BITS,
        v_min: crate::scalar::NEG_ONE_BITS,
        v_max: crate::scalar::ONE_BITS,
    }
}

/// The whole parametric domain of a root element.
pub fn full_range() -> (r: ParaRange)
    ensures
        r == spec_full_range(),
{
    ParaRange {
        u_min: crate::scalar::NEG_ONE_BITS,
        u_max: crate::scalar::ONE_BITS,
        v_min: crate::scalar::NEG_ONE_BITS,
        v_max: crate::scalar::ONE_BITS,
    }
}

/// Affine rescaling of `val` from `[in_min, in_max]` onto `[out_min, out_max]`.
pub open spec fn spec_map_range(val: u64, in_min: u64, in_max: u64, out_min: u64, out_max: u64) -> u64 {
    add_bits(
        div_bits(mul_bits(sub_bits(val, in_min), sub_bits(out_max, out_min)), sub_bits(in_max, in_min)),
        out_min,
    )
}

/// Affine rescaling of `val` from `[in_min, in_max]` onto `[out_min, out_max]`.
pub fn map_range(val: u64, in_min: u64, in_max: u64, out_min: u64, out_max: u64) -> (r: u64)
    ensures
        r == spec_map_range(val, in_min, in_max, out_min, out_max),
{
    add_f(
        div_f(mul_f(sub_f(val, in_min), sub_f(out_max, out_min)), sub_f(in_max, in_min)),
        out_min,
    )
}

} // verus!
