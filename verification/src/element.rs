//! Immutable rectangular element geometry and material parameters.

use crate::scalar::div_bits;
use crate::scalar::div_f;
use crate::scalar::lt_bits;
use crate::scalar::lt_f;
use crate::scalar::sub_bits;
use crate::scalar::sub_f;
use crate::scalar::NEG_ONE_BITS;
use crate::scalar::ONE_BITS;
use crate::scalar::TWO_BITS;
use crate::scalar::ZERO_BITS;
use crate::space::map_range;
use crate::space::spec_map_range;
use crate::space::Point;
use crate::space::M2D;
use crate::space::V2D;
use vstd::prelude::*;

verus! {

/// Complex-valued material parameters: each of the relative permittivity and
/// permeability is a `[real, imaginary]` pair of IEEE-754 bit patterns.
#[derive(Clone, Copy, Debug, PartialEq, Eq)]
pub struct Materials {
    /// Relative permittivity.
    pub eps_rel: [u64; 2],
    /// Relative permeability.
    pub mu_rel: [u64; 2],
}

impl Materials {
    /// Materials from `[eps_re, eps_im, mu_re, mu_im]`.
    pub fn from_array(properties: [u64; 4]) -> (r: Self)
        ensures
            r.eps_rel[0] == properties[0],
            r.eps_rel[1] == properties[1],
            r.mu_rel[0] == properties[2],
            r.mu_rel[1] == properties[3],
    {
        Self {
            eps_rel: [properties[0], properties[1]],
            mu_rel: [properties[2], properties[3]],
        }
    }
}

impl Default for Materials {
    /// Vacuum: both parameters one.
    fn default() -> (r: Self)
        ensures
            r.eps_rel[0] == ONE_BITS,
            r.eps_rel[1] == ZERO_BITS,
            r.mu_rel[0] == ONE_BITS,
            r.mu_rel[1] == ZERO_BITS,
    {
        Self { eps_rel: [ONE_BITS, ZERO_BITS], mu_rel: [ONE_BITS, ZERO_BITS] }
    }
}

/// Basic geometric unit of the domain: the geometric structure and material
/// properties of a rectangle in real space. Corners are ordered bottom-left,
/// bottom-right, top-left, top-right. Immutable once the mesh is built.
#[derive(Clone, Copy, Debug, PartialEq, Eq)]
pub struct Element {
    pub id: usize,
    pub points: [Point; 4],
    pub materials: Materials,
}

/// A real point lies strictly inside the element's bounding corners.
pub open spec fn point_in_element(e: Element, real_point: Point) -> bool {
    &&& lt_bits(e.points[0].x, real_point.x)
    &&& lt_bits(real_point.x, e.points[3].x)
    &&& lt_bits(e.points[0].y, real_point.y)
    &&& lt_bits(real_point.y, e.points[3].y)
}

/// The projection of a real point onto the element's `(-1, 1)` square.
pub open spec fn spec_parametric_projection(e: Element, real_point: Point) -> V2D {
    V2D {
        x: spec_map_range(real_point.x, e.points[0].x, e.points[3].x, NEG_ONE_BITS, ONE_BITS),
        y: spec_map_range(real_point.y, e.points[0].y, e.points[3].y, NEG_ONE_BITS, ONE_BITS),
    }
}

/// The constant gradient of the element's parametric-to-real map: a diagonal
/// matrix of the half-widths.
pub open spec fn spec_parametric_gradient(e: Element) -> M2D {
    M2D {
        u: V2D { x: div_bits(sub_bits(e.points[3].x, e.points[0].x), TWO_BITS), y: ZERO_BITS },
        v: V2D { x: ZERO_BITS, y: div_bits(sub_bits(e.points[3].y, e.points[0].y), TWO_BITS) },
    }
}

impl Element {
    /// An element from its id, four ordered corner points, and materials.
    pub fn new(id: usize, points: [Point; 4], materials: Materials) -> (r: Self)
        ensures
            r == (Element { id, points, materials }),
    {
        Element { id, points, materials }
    }

    /// Project a real point onto parametric space. The point must lie
    /// strictly inside the element's corner bounds.
    pub fn parametric_projection(&self, real_point: Point) -> (r: V2D)
        requires
            point_in_element(*self, real_point),
        ensures
            r == spec_parametric_projection(*self, real_point),
    {
        V2D::from(
            [
                map_range(real_point.x, self.points[0].x, self.points[3].x, NEG_ONE_BITS, ONE_BITS),
                map_range(real_point.y, self.points[0].y, self.points[3].y, NEG_ONE_BITS, ONE_BITS),
            ],
        )
    }

    /// Project a real point onto parametric space, first checking that it
    /// lies strictly inside the element's corner bounds.
    pub fn try_parametric_projection(&self, real_point: Point) -> (r: Option<V2D>)
        ensures
            match r {
                Some(v) => point_in_element(*self, real_point) && v == spec_parametric_projection(
                    *self,
                    real_point,
                ),
                None => !point_in_element(*self, real_point),
            },
    {
        let inside = lt_f(self.points[0].x, real_point.x) && lt_f(real_point.x, self.points[3].x) && lt_f(
            self.points[0].y,
            real_point.y,
        ) && lt_f(real_point.y, self.points[3].y);
        if inside {
            Some(self.parametric_projection(real_point))
        } else {
            None
        }
    }

    /// Gradient of the parametric-to-real coordinate map; constant over a
    /// rectangular element.
    pub fn parametric_gradient(&self, _parametric_coords: V2D) -> (r: M2D)
        ensures
            r == spec_parametric_gradient(*self),
    {
        let dx_du = div_f(sub_f(self.points[3].x, self.points[0].x), TWO_BITS);
        let dy_dv = div_f(sub_f(self.points[3].y, self.points[0].y), TWO_BITS);
        M2D::from([dx_du, ZERO_BITS], [ZERO_BITS, dy_dv])
    }
}

} // verus!
