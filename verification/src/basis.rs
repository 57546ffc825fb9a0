//! The basis engine: 1-D hierarchical shape-function families, composed 2-D
//! basis samplings, and the memoizing sampler that caches one basis per
//! geometric description.

use crate::elem::Elem;
use crate::element::spec_parametric_gradient;
use crate::element::Element;
use crate::scalar::mul_bits;
use crate::scalar::mul_f;
use crate::scalar::sub_bits;
use crate::scalar::HALF_BITS;
use crate::scalar::NEG_ONE_BITS;
use crate::scalar::ONE_BITS;
use crate::space::spec_det;
use crate::space::spec_inverse;
use crate::space::spec_map_range;
use crate::space::M2D;
use crate::space::ParaRange;
use crate::space::V2D;
use std::sync::Arc;
use vstd::prelude::*;

verus! {

/// Relies on `alloc::sync::Arc::clone`, which hands back a second reference
/// to the same allocation, so the clone carries the very value of the
/// original.
#[verifier::external_body]
fn arc_clone<SF: ShapeFn>(rc: &Arc<BasisFn<SF>>) -> (r: Arc<BasisFn<SF>>)
    ensures
        r == *rc,
{
    Arc::clone(rc)
}

/// A 1-D hierarchical shape-function family over `(-1, 1)`: for every
/// (mode, sample) pair, the value and first two derivatives of a "power"
/// mode family and a "poly" mode family. Implementations fix the family
/// outside the verified library; any two families agreeing on these
/// evaluations are interchangeable without changing assembly behavior.
pub trait ShapeFn: Sized {
    /// Build the family's tables up to `max_order` at the given sample
    /// abscissas; `compute_d2` also requests second-derivative tables.
    fn with(max_order: usize, points: &Vec<u64>, compute_d2: bool) -> Self;

    /// The value of power mode `n` at sample `p`.
    fn power(&self, n: usize, p: usize) -> u64;

    /// The first derivative of power mode `n` at sample `p`.
    fn power_d1(&self, n: usize, p: usize) -> u64;

    /// The second derivative of power mode `n` at sample `p`.
    fn power_d2(&self, n: usize, p: usize) -> u64;

    /// The value of poly mode `n` at sample `p`.
    fn poly(&self, n: usize, p: usize) -> u64;

    /// The first derivative of poly mode `n` at sample `p`.
    fn poly_d1(&self, n: usize, p: usize) -> u64;

    /// The second derivative of poly mode `n` at sample `p`.
    fn poly_d2(&self, n: usize, p: usize) -> u64;
}

/// A vector scaled componentwise by one scalar.
pub open spec fn spec_v2d_scale(v: V2D, s: u64) -> V2D {
    V2D { x: mul_bits(v.x, s), y: mul_bits(v.y, s) }
}

/// A vector scaled componentwise by one scalar.
pub fn v2d_scale(v: V2D, s: u64) -> (r: V2D)
    ensures
        r == spec_v2d_scale(v, s),
{
    V2D { x: mul_f(v.x, s), y: mul_f(v.y, s) }
}

/// Two vectors multiplied componentwise.
pub open spec fn spec_v2d_mul(a: V2D, b: V2D) -> V2D {
    V2D { x: mul_bits(a.x, b.x), y: mul_bits(a.y, b.y) }
}

/// Two vectors multiplied componentwise.
pub fn v2d_mul(a: V2D, b: V2D) -> (r: V2D)
    ensures
        r == spec_v2d_mul(a, b),
{
    V2D { x: mul_f(a.x, b.x), y: mul_f(a.y, b.y) }
}

/// A shape-function evaluation grid over one elem, possibly restricted to a
/// descendant's parametric window: per-point coordinate transforms, their
/// inverses and determinants, the axis rescale factors, and the two 1-D
/// shape-function tables.
#[derive(Clone, Debug)]
pub struct BasisFn<SF: ShapeFn> {
    /// Coordinate-transform matrix at each `(u, v)` sample point.
    pub t: Vec<Vec<M2D>>,
    /// Inverse of the transform at each sample point.
    pub ti: Vec<Vec<M2D>>,
    /// Determinant of the sampling Jacobian at each point.
    pub dt: Vec<Vec<u64>>,
    /// Parametric rescale factors `(v-axis, u-axis)` from sub-range sampling.
    pub para_scale: V2D,
    /// The u-axis abscissas the grids were sampled at, rescaled into the
    /// sub-range window where one was given.
    pub u_points: Vec<u64>,
    /// The v-axis abscissas the grids were sampled at, rescaled likewise.
    pub v_points: Vec<u64>,
    /// The u-axis family tables, each `(mode, sample)`-indexed, evaluated
    /// once from the family built on exactly `u_points`.
    pub u_shapes: ShapeTables,
    /// The v-axis family tables, evaluated from the family on `v_points`.
    pub v_shapes: ShapeTables,
    /// The u-axis family object the tables were evaluated from.
    pub u_family: SF,
    /// The v-axis family object.
    pub v_family: SF,
}

/// One axis's evaluated shape-function tables: values and first two
/// derivatives of the power and poly mode families, indexed by mode and
/// then sample.
#[derive(Clone, Debug)]
pub struct ShapeTables {
    pub power: Vec<Vec<u64>>,
    pub power_d1: Vec<Vec<u64>>,
    pub power_d2: Vec<Vec<u64>>,
    pub poly: Vec<Vec<u64>>,
    pub poly_d1: Vec<Vec<u64>>,
    pub poly_d2: Vec<Vec<u64>>,
}

/// Each of the six tables is a full `(n_orders, n_points)` grid.
pub open spec fn tables_dims(ts: ShapeTables, n_orders: int, n_points: int) -> bool {
    &&& grid_dims(ts.power@, n_orders, n_points)
    &&& grid_dims(ts.power_d1@, n_orders, n_points)
    &&& grid_dims(ts.power_d2@, n_orders, n_points)
    &&& grid_dims(ts.poly@, n_orders, n_points)
    &&& grid_dims(ts.poly_d1@, n_orders, n_points)
    &&& grid_dims(ts.poly_d2@, n_orders, n_points)
}

/// A rectangular grid of the given dimensions.
pub open spec fn grid_dims(g: Seq<Vec<u64>>, rows: int, cols: int) -> bool {
    &&& g.len() == rows
    &&& forall|m: int| 0 <= m < rows ==> (#[trigger] g[m])@.len() == cols
}

/// Which of a family's six evaluations one table holds.
enum TableKind {
    Power,
    PowerD1,
    PowerD2,
    Poly,
    PolyD1,
    PolyD2,
}

/// Evaluate one `(mode, sample)` table of a family.
fn build_table<SF: ShapeFn>(sf: &SF, kind: &TableKind, n_orders: usize, n_points: usize) -> (r:
    Vec<Vec<u64>>)
    ensures
        grid_dims(r@, n_orders as int, n_points as int),
{
    let mut table: Vec<Vec<u64>> = Vec::new();
    let mut o: usize = 0;
    while o < n_orders
        invariant
            0 <= o <= n_orders,
            table@.len() == o,
            forall|m: int| 0 <= m < o ==> (#[trigger] table@[m])@.len() == n_points,
        decreases n_orders - o,
    {
        let mut row: Vec<u64> = Vec::new();
        let mut p: usize = 0;
        while p < n_points
            invariant
                0 <= p <= n_points,
                row@.len() == p,
            decreases n_points - p,
        {
            let v = match kind {
                TableKind::Power => sf.power(o, p),
                TableKind::PowerD1 => sf.power_d1(o, p),
                TableKind::PowerD2 => sf.power_d2(o, p),
                TableKind::Poly => sf.poly(o, p),
                TableKind::PolyD1 => sf.poly_d1(o, p),
                TableKind::PolyD2 => sf.poly_d2(o, p),
            };
            row.push(v);
            p += 1;
        }
        table.push(row);
        o += 1;
    }
    table
}

/// Evaluate all six tables of a family at once.
fn build_tables<SF: ShapeFn>(sf: &SF, n_orders: usize, n_points: usize) -> (r: ShapeTables)
    ensures
        tables_dims(r, n_orders as int, n_points as int),
{
    ShapeTables {
        power: build_table(sf, &TableKind::Power, n_orders, n_points),
        power_d1: build_table(sf, &TableKind::PowerD1, n_orders, n_points),
        power_d2: build_table(sf, &TableKind::PowerD2, n_orders, n_points),
        poly: build_table(sf, &TableKind::Poly, n_orders, n_points),
        poly_d1: build_table(sf, &TableKind::PolyD1, n_orders, n_points),
        poly_d2: build_table(sf, &TableKind::PolyD2, n_orders, n_points),
    }
}

/// The grids have matching sample dimensions.
pub open spec fn basis_dims<SF: ShapeFn>(b: BasisFn<SF>, nu: int, nv: int) -> bool {
    &&& b.t@.len() == nu
    &&& b.ti@.len() == nu
    &&& b.dt@.len() == nu
    &&& forall|m: int| 0 <= m < nu ==> (#[trigger] b.t@[m])@.len() == nv
    &&& forall|m: int| 0 <= m < nu ==> (#[trigger] b.ti@[m])@.len() == nv
    &&& forall|m: int| 0 <= m < nu ==> (#[trigger] b.dt@[m])@.len() == nv
}

/// The structural contract of a computed basis sampling: over a rectangular
/// element the coordinate transform is the element's constant parametric
/// gradient at every point, its inverse and determinant follow it, the
/// stored abscissas are the raw ones for a whole-element sampling and the
/// affinely rescaled ones for a sub-range sampling, and the rescale factors
/// are one, respectively half the relative window width per axis.
pub open spec fn basis_of<SF: ShapeFn>(
    b: BasisFn<SF>,
    element: Element,
    sub_range: Option<ParaRange>,
    i_max: int,
    j_max: int,
    raw_u: Seq<u64>,
    raw_v: Seq<u64>,
) -> bool {
    let nu = raw_u.len() as int;
    let nv = raw_v.len() as int;
    &&& basis_dims(b, nu, nv)
    &&& tables_dims(b.u_shapes, i_max + 1, nu)
    &&& tables_dims(b.v_shapes, j_max + 1, nv)
    &&& b.u_points@.len() == nu
    &&& b.v_points@.len() == nv
    &&& match sub_range {
        None => b.u_points@ == raw_u && b.v_points@ == raw_v,
        Some(w) => (forall|i: int|
            0 <= i < nu ==> (#[trigger] b.u_points@[i]) == spec_scaled_point(
                raw_u[i],
                w.u_min,
                w.u_max,
            )) && (forall|i: int|
            0 <= i < nv ==> (#[trigger] b.v_points@[i]) == spec_scaled_point(
                raw_v[i],
                w.v_min,
                w.v_max,
            )),
    }
    &&& forall|m: int, n: int|
        0 <= m < nu && 0 <= n < nv ==> (#[trigger] b.t@[m]@[n]) == spec_parametric_gradient(
            element,
        )
    &&& forall|m: int, n: int|
        0 <= m < nu && 0 <= n < nv ==> (#[trigger] b.ti@[m]@[n]) == spec_inverse(
            spec_parametric_gradient(element),
        )
    &&& forall|m: int, n: int|
        0 <= m < nu && 0 <= n < nv ==> (#[trigger] b.dt@[m]@[n]) == spec_det(
            spec_parametric_gradient(element),
        )
    &&& b.para_scale == match sub_range {
        None => V2D { x: ONE_BITS, y: ONE_BITS },
        Some(w) => V2D {
            x: mul_bits(sub_bits(w.v_max, w.v_min), HALF_BITS),
            y: mul_bits(sub_bits(w.u_max, w.u_min), HALF_BITS),
        },
    }
}

/// A raw abscissa moved into a sub-range window.
pub open spec fn spec_scaled_point(x: u64, lo: u64, hi: u64) -> u64 {
    spec_map_range(x, NEG_ONE_BITS, ONE_BITS, lo, hi)
}

/// Rescale quadrature abscissas from `(-1, 1)` into `[lo, hi]`, returning
/// the chain-rule factor `(hi - lo) / 2` and the moved points.
fn scale_quad_points(raw: &Vec<u64>, lo: u64, hi: u64) -> (r: (u64, Vec<u64>))
    ensures
        r.0 == mul_bits(sub_bits(hi, lo), HALF_BITS),
        r.1@.len() == raw@.len(),
        forall|i: int|
            0 <= i < raw@.len() ==> (#[trigger] r.1@[i]) == spec_scaled_point(raw@[i], lo, hi),
{
    let scale = mul_f(crate::scalar::sub_f(hi, lo), HALF_BITS);
    let mut out: Vec<u64> = Vec::new();
    let mut i: usize = 0;
    while i < raw.len()
        invariant
            0 <= i <= raw@.len(),
            out@.len() == i,
            forall|k: int|
                0 <= k < i ==> (#[trigger] out@[k]) == spec_scaled_point(raw@[k], lo, hi),
        decreases raw@.len() - i,
    {
        out.push(crate::space::map_range(raw[i], NEG_ONE_BITS, ONE_BITS, lo, hi));
        i += 1;
    }
    (scale, out)
}

impl<SF: ShapeFn> BasisFn<SF> {
    /// Compute a basis sampling over `elem` (geometry from `element`, its
    /// owning entry in the mesh's element arena), optionally over the
    /// narrower parametric window of a descendant: per-point coordinate
    /// maps, inverses and determinants, the chain-rule rescale factors, and
    /// the two 1-D shape tables at the (possibly rescaled) abscissas.
    pub fn with(
        i_max: usize,
        j_max: usize,
        compute_d2: bool,
        raw_u_points: &Vec<u64>,
        raw_v_points: &Vec<u64>,
        element: &Element,
        elem: &Elem,
        over_child_elem: Option<&Elem>,
    ) -> (r: BasisFn<SF>)
        requires
            i_max < usize::MAX,
            j_max < usize::MAX,
        ensures
            basis_of(
                r,
                *element,
                match over_child_elem {
                    Some(c) => Some(
                        crate::mesh::spec_relative_range((*elem).range, (*c).range),
                    ),
                    None => None,
                },
                i_max as int,
                j_max as int,
                raw_u_points@,
                raw_v_points@,
            ),
    {
        let (u_glq_scale, u_points_scaled, v_glq_scale, v_points_scaled): (
            u64,
            Vec<u64>,
            u64,
            Vec<u64>,
        ) = match over_child_elem {
            Some(child_elem) => {
                let w = crate::mesh::relative_range_of(elem.range, child_elem.range);
                let (us, up) = scale_quad_points(raw_u_points, w.u_min, w.u_max);
                let (vs, vp) = scale_quad_points(raw_v_points, w.v_min, w.v_max);
                (us, up, vs, vp)
            },
            None => (ONE_BITS, clone_points(raw_u_points), ONE_BITS, clone_points(raw_v_points)),
        };

        let nu = u_points_scaled.len();
        let nv = v_points_scaled.len();
        let mut t: Vec<Vec<M2D>> = Vec::new();
        let mut ti: Vec<Vec<M2D>> = Vec::new();
        let mut dt: Vec<Vec<u64>> = Vec::new();
        let mut m: usize = 0;
        while m < nu
            invariant
                0 <= m <= nu,
                t@.len() == m,
                ti@.len() == m,
                dt@.len() == m,
                forall|a: int| 0 <= a < m ==> (#[trigger] t@[a])@.len() == nv,
                forall|a: int| 0 <= a < m ==> (#[trigger] ti@[a])@.len() == nv,
                forall|a: int| 0 <= a < m ==> (#[trigger] dt@[a])@.len() == nv,
                forall|a: int, b: int|
                    0 <= a < m && 0 <= b < nv ==> (#[trigger] t@[a]@[b]) == spec_parametric_gradient(
                        *element,
                    ),
                forall|a: int, b: int|
                    0 <= a < m && 0 <= b < nv ==> (#[trigger] ti@[a]@[b]) == spec_inverse(
                        spec_parametric_gradient(*element),
                    ),
                forall|a: int, b: int|
                    0 <= a < m && 0 <= b < nv ==> (#[trigger] dt@[a]@[b]) == spec_det(
                        spec_parametric_gradient(*element),
                    ),
            decreases nu - m,
        {
            let mut t_row: Vec<M2D> = Vec::new();
            let mut ti_row: Vec<M2D> = Vec::new();
            let mut dt_row: Vec<u64> = Vec::new();
            let mut n: usize = 0;
            while n < nv
                invariant
                    0 <= n <= nv,
                    t_row@.len() == n,
                    ti_row@.len() == n,
                    dt_row@.len() == n,
                    forall|b: int|
                        0 <= b < n ==> (#[trigger] t_row@[b]) == spec_parametric_gradient(*element),
                    forall|b: int|
                        0 <= b < n ==> (#[trigger] ti_row@[b]) == spec_inverse(
                            spec_parametric_gradient(*element),
                        ),
                    forall|b: int|
                        0 <= b < n ==> (#[trigger] dt_row@[b]) == spec_det(
                            spec_parametric_gradient(*element),
                        ),
                decreases nv - n,
            {
                let g = element.parametric_gradient(
                    V2D { x: crate::scalar::ZERO_BITS, y: crate::scalar::ZERO_BITS },
                );
                t_row.push(g);
                ti_row.push(g.inverse());
                dt_row.push(g.det());
                n += 1;
            }
            t.push(t_row);
            ti.push(ti_row);
            dt.push(dt_row);
            m += 1;
        }

        let u_family = SF::with(i_max, &u_points_scaled, compute_d2);
        let v_family = SF::with(j_max, &v_points_scaled, compute_d2);
        let u_shapes = build_tables(&u_family, i_max + 1, u_points_scaled.len());
        let v_shapes = build_tables(&v_family, j_max + 1, v_points_scaled.len());
        BasisFn {
            t,
            ti,
            dt,
            para_scale: V2D { x: v_glq_scale, y: u_glq_scale },
            u_points: u_points_scaled,
            v_points: v_points_scaled,
            u_shapes,
            v_shapes,
            u_family,
            v_family,
        }
    }
}

/// A copy of a point list.
fn clone_points(points: &Vec<u64>) -> (r: Vec<u64>)
    ensures
        r@ == points@,
{
    let mut out: Vec<u64> = Vec::new();
    let mut i: usize = 0;
    while i < points.len()
        invariant
            0 <= i <= points@.len(),
            out@ == points@.take(i as int),
        decreases points@.len() - i,
    {
        out.push(points[i]);
        proof {
            assert(out@ =~= points@.take(i + 1));
        }
        i += 1;
    }
    proof {
        assert(points@.take(points@.len() as int) =~= points@);
    }
    out
}

impl<SF: ShapeFn> BasisFn<SF> {
    /// The mode and sample indices are inside every table and grid.
    pub open spec fn indices_ok(self, orders: [usize; 2], samples: [usize; 2]) -> bool {
        &&& samples[0] < self.ti@.len()
        &&& samples[1] < self.ti@[samples[0] as int]@.len()
        &&& orders[0] < self.u_shapes.power@.len()
        &&& samples[0] < self.u_shapes.power@[orders[0] as int]@.len()
        &&& orders[1] < self.v_shapes.power@.len()
        &&& samples[1] < self.v_shapes.power@[orders[1] as int]@.len()
        &&& tables_dims(
            self.u_shapes,
            self.u_shapes.power@.len() as int,
            self.u_points@.len() as int,
        )
        &&& tables_dims(
            self.v_shapes,
            self.v_shapes.power@.len() as int,
            self.v_points@.len() as int,
        )
        &&& self.u_shapes.power@[orders[0] as int]@.len() == self.u_points@.len()
        &&& self.v_shapes.power@[orders[1] as int]@.len() == self.v_points@.len()
    }

    /// The u-directed vector basis value at orders `[i, j]`, sample `[m, n]`:
    /// the inverse-transform row scaled by the u power value and the v poly
    /// value.
    pub fn f_u(&self, orders: [usize; 2], samples: [usize; 2]) -> (r: V2D)
        requires
            self.indices_ok(orders, samples),
        ensures
            r == spec_v2d_scale(
                spec_v2d_scale(
                    self.ti@[samples[0] as int]@[samples[1] as int].u,
                    self.u_shapes.power@[orders[0] as int]@[samples[0] as int],
                ),
                self.v_shapes.poly@[orders[1] as int]@[samples[1] as int],
            ),
    {
        let a = v2d_scale(
            self.ti[samples[0]][samples[1]].u,
            self.u_shapes.power[orders[0]][samples[0]],
        );
        v2d_scale(a, self.v_shapes.poly[orders[1]][samples[1]])
    }

    /// The v-directed vector basis value at orders `[i, j]`, sample `[m, n]`.
    pub fn f_v(&self, orders: [usize; 2], samples: [usize; 2]) -> (r: V2D)
        requires
            self.indices_ok(orders, samples),
        ensures
            r == spec_v2d_scale(
                spec_v2d_scale(
                    self.ti@[samples[0] as int]@[samples[1] as int].v,
                    self.u_shapes.poly@[orders[0] as int]@[samples[0] as int],
                ),
                self.v_shapes.power@[orders[1] as int]@[samples[1] as int],
            ),
    {
        let a = v2d_scale(
            self.ti[samples[0]][samples[1]].v,
            self.u_shapes.poly[orders[0]][samples[0]],
        );
        v2d_scale(a, self.v_shapes.power[orders[1]][samples[1]])
    }

    /// First parametric derivative of the u-directed basis value, rescaled
    /// by the given chain-rule factors.
    pub fn f_u_d1(&self, orders: [usize; 2], samples: [usize; 2], para_scale: &V2D) -> (r: V2D)
        requires
            self.indices_ok(orders, samples),
        ensures
            r == spec_v2d_mul(
                spec_v2d_mul(
                    self.ti@[samples[0] as int]@[samples[1] as int].u,
                    V2D {
                        x: mul_bits(
                            self.u_shapes.power@[orders[0] as int]@[samples[0] as int],
                            self.v_shapes.poly_d1@[orders[1] as int]@[samples[1] as int],
                        ),
                        y: mul_bits(
                            self.u_shapes.power_d1@[orders[0] as int]@[samples[0] as int],
                            self.v_shapes.poly@[orders[1] as int]@[samples[1] as int],
                        ),
                    },
                ),
                *para_scale,
            ),
    {
        let inner = V2D {
            x: mul_f(
                self.u_shapes.power[orders[0]][samples[0]],
                self.v_shapes.poly_d1[orders[1]][samples[1]],
            ),
            y: mul_f(
                self.u_shapes.power_d1[orders[0]][samples[0]],
                self.v_shapes.poly[orders[1]][samples[1]],
            ),
        };
        v2d_mul(v2d_mul(self.ti[samples[0]][samples[1]].u, inner), *para_scale)
    }

    /// First parametric derivative of the v-directed basis value.
    pub fn f_v_d1(&self, orders: [usize; 2], samples: [usize; 2], para_scale: &V2D) -> (r: V2D)
        requires
            self.indices_ok(orders, samples),
        ensures
            r == spec_v2d_mul(
                spec_v2d_mul(
                    self.ti@[samples[0] as int]@[samples[1] as int].v,
                    V2D {
                        x: mul_bits(
                            self.u_shapes.poly@[orders[0] as int]@[samples[0] as int],
                            self.v_shapes.power_d1@[orders[1] as int]@[samples[1] as int],
                        ),
                        y: mul_bits(
                            self.u_shapes.poly_d1@[orders[0] as int]@[samples[0] as int],
                            self.v_shapes.power@[orders[1] as int]@[samples[1] as int],
                        ),
                    },
                ),
                *para_scale,
            ),
    {
        let inner = V2D {
            x: mul_f(
                self.u_shapes.poly[orders[0]][samples[0]],
                self.v_shapes.power_d1[orders[1]][samples[1]],
            ),
            y: mul_f(
                self.u_shapes.poly_d1[orders[0]][samples[0]],
                self.v_shapes.power[orders[1]][samples[1]],
            ),
        };
        v2d_mul(v2d_mul(self.ti[samples[0]][samples[1]].v, inner), *para_scale)
    }

    /// Second parametric derivative of the u-directed basis value.
    pub fn f_u_d2(&self, orders: [usize; 2], samples: [usize; 2], para_scale: &V2D) -> (r: V2D)
        requires
            self.indices_ok(orders, samples),
        ensures
            r == spec_v2d_mul(
                spec_v2d_mul(
                    spec_v2d_mul(
                        self.ti@[samples[0] as int]@[samples[1] as int].u,
                        V2D {
                            x: mul_bits(
                                self.u_shapes.power@[orders[0] as int]@[samples[0] as int],
                                self.v_shapes.poly_d2@[orders[1] as int]@[samples[1] as int],
                            ),
                            y: mul_bits(
                                self.u_shapes.power_d2@[orders[0] as int]@[samples[0] as int],
                                self.v_shapes.poly@[orders[1] as int]@[samples[1] as int],
                            ),
                        },
                    ),
                    *para_scale,
                ),
                *para_scale,
            ),
    {
        let inner = V2D {
            x: mul_f(
                self.u_shapes.power[orders[0]][samples[0]],
                self.v_shapes.poly_d2[orders[1]][samples[1]],
            ),
            y: mul_f(
                self.u_shapes.power_d2[orders[0]][samples[0]],
                self.v_shapes.poly[orders[1]][samples[1]],
            ),
        };
        v2d_mul(v2d_mul(v2d_mul(self.ti[samples[0]][samples[1]].u, inner), *para_scale), *para_scale)
    }

    /// Second parametric derivative of the v-directed basis value.
    pub fn f_v_d2(&self, orders: [usize; 2], samples: [usize; 2], para_scale: &V2D) -> (r: V2D)
        requires
            self.indices_ok(orders, samples),
        ensures
            r == spec_v2d_mul(
                spec_v2d_mul(
                    spec_v2d_mul(
                        self.ti@[samples[0] as int]@[samples[1] as int].v,
                        V2D {
                            x: mul_bits(
                                self.u_shapes.poly@[orders[0] as int]@[samples[0] as int],
                                self.v_shapes.power_d2@[orders[1] as int]@[samples[1] as int],
                            ),
                            y: mul_bits(
                                self.u_shapes.poly_d2@[orders[0] as int]@[samples[0] as int],
                                self.v_shapes.power@[orders[1] as int]@[samples[1] as int],
                            ),
                        },
                    ),
                    *para_scale,
                ),
                *para_scale,
            ),
    {
        let inner = V2D {
            x: mul_f(
                self.u_shapes.poly[orders[0]][samples[0]],
                self.v_shapes.power_d2[orders[1]][samples[1]],
            ),
            y: mul_f(
                self.u_shapes.poly_d2[orders[0]][samples[0]],
                self.v_shapes.power[orders[1]][samples[1]],
            ),
        };
        v2d_mul(v2d_mul(v2d_mul(self.ti[samples[0]][samples[1]].v, inner), *para_scale), *para_scale)
    }

    /// Mixed second derivative of the u-directed basis value: the given
    /// u-factor together with the sampler's own v-factor.
    pub fn f_u_dd(&self, orders: [usize; 2], samples: [usize; 2], para_scale: &V2D) -> (r: V2D)
        requires
            self.indices_ok(orders, samples),
        ensures
            r == spec_v2d_scale(
                spec_v2d_scale(
                    spec_v2d_scale(
                        spec_v2d_scale(
                            self.ti@[samples[0] as int]@[samples[1] as int].u,
                            self.u_shapes.power_d1@[orders[0] as int]@[samples[0] as int],
                        ),
                        self.v_shapes.poly_d1@[orders[1] as int]@[samples[1] as int],
                    ),
                    para_scale.x,
                ),
                self.para_scale.y,
            ),
    {
        let a = v2d_scale(
            self.ti[samples[0]][samples[1]].u,
            self.u_shapes.power_d1[orders[0]][samples[0]],
        );
        let b = v2d_scale(a, self.v_shapes.poly_d1[orders[1]][samples[1]]);
        v2d_scale(v2d_scale(b, para_scale.x), self.para_scale.y)
    }

    /// Mixed second derivative of the v-directed basis value.
    pub fn f_v_dd(&self, orders: [usize; 2], samples: [usize; 2], para_scale: &V2D) -> (r: V2D)
        requires
            self.indices_ok(orders, samples),
        ensures
            r == spec_v2d_scale(
                spec_v2d_scale(
                    spec_v2d_scale(
                        spec_v2d_scale(
                            self.ti@[samples[0] as int]@[samples[1] as int].v,
                            self.u_shapes.poly_d1@[orders[0] as int]@[samples[0] as int],
                        ),
                        self.v_shapes.power_d1@[orders[1] as int]@[samples[1] as int],
                    ),
                    para_scale.x,
                ),
                self.para_scale.y,
            ),
    {
        let a = v2d_scale(
            self.ti[samples[0]][samples[1]].v,
            self.u_shapes.poly_d1[orders[0]][samples[0]],
        );
        let b = v2d_scale(a, self.v_shapes.power_d1[orders[1]][samples[1]]);
        v2d_scale(v2d_scale(b, para_scale.x), self.para_scale.y)
    }

    /// The surface quadrature rescale factor: the product of the two axis
    /// factors.
    pub fn glq_scale(&self) -> (r: u64)
        ensures
            r == mul_bits(self.para_scale.x, self.para_scale.y),
    {
        mul_f(self.para_scale.x, self.para_scale.y)
    }

    /// The quadrature rescale factor along one edge: the factor of the axis
    /// the edge runs along.
    pub fn edge_glq_scale(&self, edge_idx: usize) -> (r: u64)
        requires
            edge_idx < 4,
        ensures
            edge_idx < 2 ==> r == self.para_scale.y,
            2 <= edge_idx ==> r == self.para_scale.x,
    {
        if edge_idx < 2 {
            self.para_scale.y
        } else {
            self.para_scale.x
        }
    }

    /// The u-axis quadrature rescale factor.
    pub fn u_glq_scale(&self) -> (r: u64)
        ensures
            r == self.para_scale.y,
    {
        self.para_scale.y
    }

    /// The v-axis quadrature rescale factor.
    pub fn v_glq_scale(&self) -> (r: u64)
        ensures
            r == self.para_scale.x,
    {
        self.para_scale.x
    }

    /// Both chain-rule derivative factors.
    pub fn deriv_scale(&self) -> (r: V2D)
        ensures
            r == self.para_scale,
    {
        self.para_scale
    }

    /// The Jacobian determinant at one sample point: the quadrature weight
    /// multiplier of the integration kernels.
    pub fn sample_scale(&self, samples: [usize; 2]) -> (r: u64)
        requires
            samples[0] < self.dt@.len(),
            samples[1] < self.dt@[samples[0] as int]@.len(),
        ensures
            r == self.dt@[samples[0] as int]@[samples[1] as int],
    {
        self.dt[samples[0]][samples[1]]
    }
}

/// A pair of node ids keying a geometric description.
#[derive(Clone, Copy, Debug, PartialEq, Eq, Structural, Hash)]
pub struct NodePair {
    pub a: usize,
    pub b: usize,
}

/// Cache key of a basis sampling: the two diagonal node ids of the sampled
/// elem, plus those of the descendant defining a sub-range where one was
/// sampled. Equality is by value, not elem identity, so siblings of
/// identical shape and refinement share cache entries.
#[derive(Clone, Copy, Debug, PartialEq, Eq, Structural, Hash)]
pub struct BSDescription {
    pub space: NodePair,
    pub sample: Option<NodePair>,
}

/// One memoized basis sampling, shared by reference counting.
pub struct CacheEntry<SF: ShapeFn> {
    pub desc: BSDescription,
    pub basis: Arc<BasisFn<SF>>,
}

/// An external source of Gauss-Legendre quadrature rules: for a point
/// count, the abscissas and weights on `(-1, 1)`. With `include_endpoints`
/// the interval endpoints are included for second-derivative sampling.
pub trait QuadratureProvider {
    fn quadrature_points(&self, n: usize, include_endpoints: bool) -> (Vec<u64>, Vec<u64>);
}

/// Whether `n` is a power of two.
pub open spec fn is_pow2(n: int) -> bool
    decreases n,
{
    if n <= 0 {
        false
    } else if n == 1 {
        true
    } else {
        n % 2 == 0 && is_pow2(n / 2)
    }
}

/// The default quadrature point count for a maximum expansion order: five
/// times the order, rounded up to the nearest power of two.
pub fn default_ngq(max_order: usize) -> (r: usize)
    requires
        max_order <= 20,
    ensures
        max_order == 0 ==> r == 0,
        max_order >= 1 ==> (is_pow2(r as int) && r >= 5 * max_order && r < 2 * 5 * max_order),
{
    if max_order == 0 {
        return 0;
    }
    let target = 5 * max_order;
    let mut p: usize = 1;
    while p < target
        invariant
            1 <= max_order <= 20,
            target == 5 * max_order,
            is_pow2(p as int),
            1 <= p,
            p < 2 * target,
        decreases 2 * target - p,
    {
        p = p * 2;
    }
    proof {
        assert(2 * target == 2 * 5 * max_order) by (nonlinear_arith)
            requires
                target == 5 * max_order,
        ;
    }
    p
}

/// Memoizing factory of basis samplings: at most one computation per
/// distinct geometric description for the sampler's lifetime.
pub struct BasisFnSampler<SF: ShapeFn> {
    /// Maximum u-directed expansion order sampled bases are defined up to.
    pub i_max: usize,
    /// Maximum v-directed expansion order sampled bases are defined up to.
    pub j_max: usize,
    /// Whether second-derivative tables are computed.
    pub compute_d2: bool,
    /// Quadrature abscissas along the u axis, on `(-1, 1)`.
    pub u_points: Vec<u64>,
    /// Quadrature abscissas along the v axis, on `(-1, 1)`.
    pub v_points: Vec<u64>,
    /// The memoized samplings, one per distinct description.
    pub computed: Vec<CacheEntry<SF>>,
}

impl<SF: ShapeFn> BasisFnSampler<SF> {
    /// Every description occurs at most once in the cache.
    pub open spec fn cache_wf(self) -> bool {
        forall|a: int, b: int|
            0 <= a < b < self.computed@.len() ==> (#[trigger] self.computed@[a]).desc != (
            #[trigger] self.computed@[b]).desc
    }

    /// The cache holds an entry for the description.
    pub open spec fn cache_contains(self, d: BSDescription) -> bool {
        exists|k: int| 0 <= k < self.computed@.len() && (#[trigger] self.computed@[k]).desc == d
    }

    /// The geometric description of a sampling: the two diagonal node ids
    /// of the sampled elem, and those of the descendant where a sub-range
    /// is sampled.
    pub open spec fn spec_desc(elem: Elem, over: Option<Elem>) -> BSDescription {
        BSDescription {
            space: NodePair { a: elem.nodes[0], b: elem.nodes[3] },
            sample: match over {
                Some(d) => Some(NodePair { a: d.nodes[0], b: d.nodes[3] }),
                None => None,
            },
        }
    }

    /// A sampler for the given maximum orders, with an empty cache. The
    /// quadrature rule comes from the external provider, at the given point
    /// counts or at the default count for each order; the weights are
    /// handed back for the integration kernels.
    pub fn with<Q: QuadratureProvider>(
        i_max: usize,
        j_max: usize,
        num_u_points: Option<usize>,
        num_v_points: Option<usize>,
        compute_2nd_derivs: bool,
        quad: &Q,
    ) -> (r: (Self, [Vec<u64>; 2]))
        requires
            i_max <= 20,
            j_max <= 20,
        ensures
            r.0.cache_wf(),
            r.0.computed@.len() == 0,
            r.0.i_max == i_max,
            r.0.j_max == j_max,
            r.0.compute_d2 == compute_2nd_derivs,
    {
        let nu = match num_u_points {
            Some(n) => n,
            None => default_ngq(i_max),
        };
        let nv = match num_v_points {
            Some(n) => n,
            None => default_ngq(j_max),
        };
        let (u_points, u_weights) = quad.quadrature_points(nu, compute_2nd_derivs);
        let (v_points, v_weights) = quad.quadrature_points(nv, compute_2nd_derivs);
        (
            Self {
                i_max,
                j_max,
                compute_d2: compute_2nd_derivs,
                u_points,
                v_points,
                computed: Vec::new(),
            },
            [u_weights, v_weights],
        )
    }

    /// Generate or retrieve the basis sampling for an elem, optionally over
    /// a descendant's sub-range. On a cache hit the stored sampling is
    /// handed back untouched — at most one computation per description; on
    /// a miss it is computed once, cached, and handed back.
    pub fn sample_basis_fn(&mut self, element: &Element, elem: &Elem, over_desc_elem: Option<
        &Elem,
    >) -> (r: Arc<BasisFn<SF>>)
        requires
            old(self).cache_wf(),
            old(self).i_max < usize::MAX,
            old(self).j_max < usize::MAX,
        ensures
            final(self).cache_wf(),
            final(self).i_max == old(self).i_max,
            final(self).j_max == old(self).j_max,
            final(self).compute_d2 == old(self).compute_d2,
            final(self).u_points == old(self).u_points,
            final(self).v_points == old(self).v_points,
            ({
                let d = Self::spec_desc(
                    *elem,
                    match over_desc_elem {
                        Some(c) => Some(*c),
                        None => None,
                    },
                );
                &&& final(self).cache_contains(d)
                &&& exists|k: int|
                    0 <= k < final(self).computed@.len() && (#[trigger] final(self).computed@[k]).desc == d && final(self).computed@[k].basis == r
                &&& (old(self).cache_contains(d) ==> final(self).computed@ == old(self).computed@)
                &&& (!old(self).cache_contains(d) ==> {
                    &&& final(self).computed@.len() == old(self).computed@.len() + 1
                    &&& (forall|k: int|
                        0 <= k < old(self).computed@.len() ==> final(self).computed@[k] == old(self).computed@[k])
                    &&& final(self).computed@.last().desc == d
                    &&& final(self).computed@.last().basis == r
                    &&& basis_of(
                        *r,
                        *element,
                        match over_desc_elem {
                            Some(c) => Some(
                                crate::mesh::spec_relative_range((*elem).range, (*c).range),
                            ),
                            None => None,
                        },
                        old(self).i_max as int,
                        old(self).j_max as int,
                        old(self).u_points@,
                        old(self).v_points@,
                    )
                })
            }),
    {
        let desc = BSDescription {
            space: NodePair { a: elem.nodes[0], b: elem.nodes[3] },
            sample: match over_desc_elem {
                Some(d) => Some(NodePair { a: d.nodes[0], b: d.nodes[3] }),
                None => None,
            },
        };
        let mut k: usize = 0;
        while k < self.computed.len()
            invariant
                *self == *old(self),
                self.cache_wf(),
                desc == Self::spec_desc(
                    *elem,
                    match over_desc_elem {
                        Some(c) => Some(*c),
                        None => None,
                    },
                ),
                0 <= k <= self.computed@.len(),
                forall|j: int| 0 <= j < k ==> (#[trigger] self.computed@[j]).desc != desc,
            decreases self.computed@.len() - k,
        {
            if self.computed[k].desc == desc {
                let out = arc_clone(&self.computed[k].basis);
                proof {
                    assert((self.computed@[k as int]).desc == desc);
                }
                return out;
            }
            k += 1;
        }
        proof {
            if self.cache_contains(desc) {
                let j = choose|j: int|
                    0 <= j < self.computed@.len() && (#[trigger] self.computed@[j]).desc == desc;
                assert(self.computed@[j].desc != desc);
            }
        }
        let bs = BasisFn::<SF>::with(
            self.i_max,
            self.j_max,
            self.compute_d2,
            &self.u_points,
            &self.v_points,
            element,
            elem,
            over_desc_elem,
        );
        let rc = Arc::new(bs);
        let out = arc_clone(&rc);
        self.computed.push(CacheEntry { desc, basis: rc });
        proof {
            assert((self.computed@.last()).desc == desc);
        }
        out
    }
}

} // verus!
