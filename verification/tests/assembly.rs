use fem_2d::basis::BasisFn;
use fem_2d::basis::BasisFnSampler;
use fem_2d::basis::QuadratureProvider;
use fem_2d::basis::ShapeFn;
use fem_2d::domain::BasisDir;
use fem_2d::domain::Domain;
use fem_2d::integration::fill_matrices;
use fem_2d::integration::DoubleMatrixParCollector;
use fem_2d::integration::Integral;
use fem_2d::integration::IntegralResult;
use fem_2d::mesh::Mesh;
use fem_2d::mesh::RawElement;
use fem_2d::refinement::HRef;
use fem_2d::refinement::PRef;
use fem_2d::space::Point;
use fem_2d::sparse_matrix::SparseMatrix;
use std::sync::Arc;

fn bits(x: f64) -> u64 {
    x.to_bits()
}

fn val(x: u64) -> f64 {
    f64::from_bits(x)
}

fn pt(x: f64, y: f64) -> Point {
    Point::new(bits(x), bits(y))
}

fn raw(n: [usize; 4]) -> RawElement {
    RawElement { node_ids: n, materials: [bits(1.0), bits(0.0), bits(1.0), bits(0.0)] }
}

fn grid_mesh() -> Mesh {
    let mut points = Vec::new();
    for y in 0..3 {
        for x in 0..3 {
            points.push(pt(x as f64, y as f64));
        }
    }
    let elements = vec![raw([0, 1, 3, 4]), raw([1, 2, 4, 5]), raw([3, 4, 6, 7]), raw([4, 5, 7, 8])];
    Mesh::from_raw(points, elements).unwrap()
}

fn single_element_mesh() -> Mesh {
    let points = vec![pt(0.0, 0.0), pt(1.0, 0.0), pt(0.0, 1.0), pt(1.0, 1.0)];
    Mesh::from_raw(points, vec![raw([0, 1, 2, 3])]).unwrap()
}

/// A monomial shape family: both mode families are plain powers of the
/// sample abscissa.
#[derive(Clone, Debug)]
struct PowerShapes {
    points: Vec<u64>,
}

impl PowerShapes {
    fn x(&self, p: usize) -> f64 {
        val(self.points[p])
    }
}

impl ShapeFn for PowerShapes {
    fn with(_max_order: usize, points: &Vec<u64>, _compute_d2: bool) -> Self {
        PowerShapes { points: points.clone() }
    }

    fn power(&self, n: usize, p: usize) -> u64 {
        self.x(p).powi(n as i32).to_bits()
    }

    fn power_d1(&self, n: usize, p: usize) -> u64 {
        if n == 0 {
            0.0f64.to_bits()
        } else {
            (n as f64 * self.x(p).powi(n as i32 - 1)).to_bits()
        }
    }

    fn power_d2(&self, n: usize, p: usize) -> u64 {
        if n < 2 {
            0.0f64.to_bits()
        } else {
            ((n * (n - 1)) as f64 * self.x(p).powi(n as i32 - 2)).to_bits()
        }
    }

    fn poly(&self, n: usize, p: usize) -> u64 {
        self.power(n, p)
    }

    fn poly_d1(&self, n: usize, p: usize) -> u64 {
        self.power_d1(n, p)
    }

    fn poly_d2(&self, n: usize, p: usize) -> u64 {
        self.power_d2(n, p)
    }
}

/// A uniform midpoint rule on (-1, 1).
struct UniformRule;

impl QuadratureProvider for UniformRule {
    fn quadrature_points(&self, n: usize, _include_endpoints: bool) -> (Vec<u64>, Vec<u64>) {
        let mut p = Vec::new();
        let mut w = Vec::new();
        for k in 0..n {
            let x = -1.0 + 2.0 * (k as f64 + 0.5) / (n as f64);
            p.push(x.to_bits());
            w.push((2.0 / n as f64).to_bits());
        }
        (p, w)
    }
}

fn basis_value<SF: ShapeFn>(dir: BasisDir, orders: [usize; 2], b: &BasisFn<SF>, m: usize, n: usize) -> (f64, f64) {
    let v = match dir {
        BasisDir::U => b.f_u(orders, [m, n]),
        BasisDir::V => b.f_v(orders, [m, n]),
    };
    (val(v.x), val(v.y))
}

/// An inner-product-like integrator: the pointwise dot product of the two
/// vector basis values, weighted by the Jacobian determinant and the
/// quadrature weights.
struct DotProduct {
    u_w: Vec<u64>,
    v_w: Vec<u64>,
}

impl Integral for DotProduct {
    fn with_weights(u_weights: &Vec<u64>, v_weights: &Vec<u64>) -> Self {
        DotProduct { u_w: u_weights.clone(), v_w: v_weights.clone() }
    }

    fn integrate<SF: ShapeFn>(
        &self,
        p_dir: BasisDir,
        q_dir: BasisDir,
        p_orders: [usize; 2],
        q_orders: [usize; 2],
        p_basis: &BasisFn<SF>,
        q_basis: &BasisFn<SF>,
    ) -> IntegralResult {
        let mut grid = Vec::new();
        for m in 0..p_basis.dt.len() {
            let mut row = Vec::new();
            for n in 0..p_basis.dt[m].len() {
                let (px, py) = basis_value(p_dir, p_orders, p_basis, m, n);
                let (qx, qy) = basis_value(q_dir, q_orders, q_basis, m, n);
                let w = val(self.u_w[m]) * val(self.v_w[n]);
                let det = val(p_basis.sample_scale([m, n]));
                row.push(((px * qx + py * qy) * w * det).to_bits());
            }
            grid.push(row);
        }
        IntegralResult { point_values: grid }
    }
}

/// A curl-product-like integrator over the first parametric derivatives.
struct CurlLike {
    u_w: Vec<u64>,
    v_w: Vec<u64>,
}

impl Integral for CurlLike {
    fn with_weights(u_weights: &Vec<u64>, v_weights: &Vec<u64>) -> Self {
        CurlLike { u_w: u_weights.clone(), v_w: v_weights.clone() }
    }

    fn integrate<SF: ShapeFn>(
        &self,
        p_dir: BasisDir,
        q_dir: BasisDir,
        p_orders: [usize; 2],
        q_orders: [usize; 2],
        p_basis: &BasisFn<SF>,
        q_basis: &BasisFn<SF>,
    ) -> IntegralResult {
        let ps = p_basis.deriv_scale();
        let qs = q_basis.deriv_scale();
        let mut grid = Vec::new();
        for m in 0..p_basis.dt.len() {
            let mut row = Vec::new();
            for n in 0..p_basis.dt[m].len() {
                let pd = match p_dir {
                    BasisDir::U => p_basis.f_u_d1(p_orders, [m, n], &ps),
                    BasisDir::V => p_basis.f_v_d1(p_orders, [m, n], &ps),
                };
                let qd = match q_dir {
                    BasisDir::U => q_basis.f_u_d1(q_orders, [m, n], &qs),
                    BasisDir::V => q_basis.f_v_d1(q_orders, [m, n], &qs),
                };
                let p_curl = val(pd.y) - val(pd.x);
                let q_curl = val(qd.y) - val(qd.x);
                let w = val(self.u_w[m]) * val(self.v_w[n]);
                let det = val(p_basis.sample_scale([m, n]));
                row.push((p_curl * q_curl * w * det).to_bits());
            }
            grid.push(row);
        }
        IntegralResult { point_values: grid }
    }
}

fn determinant(mut m: Vec<Vec<f64>>) -> f64 {
    let n = m.len();
    let mut det = 1.0f64;
    for col in 0..n {
        let mut pivot = col;
        for r in col + 1..n {
            if m[r][col].abs() > m[pivot][col].abs() {
                pivot = r;
            }
        }
        if m[pivot][col] == 0.0 {
            return 0.0;
        }
        if pivot != col {
            m.swap(pivot, col);
            det = -det;
        }
        det *= m[col][col];
        for r in col + 1..n {
            let f = m[r][col] / m[col][col];
            for c in col..n {
                m[r][c] -= f * m[col][c];
            }
        }
    }
    det
}

#[test]
fn sampler_computes_each_description_once() {
    let mesh = grid_mesh();
    let (mut sampler, _weights): (BasisFnSampler<PowerShapes>, [Vec<u64>; 2]) =
        BasisFnSampler::with(1, 1, None, None, false, &UniformRule);

    let element = mesh.elements[mesh.elems[0].element_id];
    let first = sampler.sample_basis_fn(&element, &mesh.elems[0], None);
    let second = sampler.sample_basis_fn(&element, &mesh.elems[0], None);
    // the same cached object, by identity, not just by value
    assert!(Arc::ptr_eq(&first, &second));
    assert_eq!(sampler.computed.len(), 1);

    // a different elem yields a different description and a fresh sampling
    let element1 = mesh.elements[mesh.elems[1].element_id];
    let other = sampler.sample_basis_fn(&element1, &mesh.elems[1], None);
    assert!(!Arc::ptr_eq(&first, &other));
    assert_eq!(sampler.computed.len(), 2);
}

#[test]
fn subrange_sampling_scales_by_half_window() {
    let mut mesh = grid_mesh();
    mesh.h_refine_elems(vec![0], HRef::T).unwrap();
    let (mut sampler, _weights): (BasisFnSampler<PowerShapes>, [Vec<u64>; 2]) =
        BasisFnSampler::with(1, 1, None, None, false, &UniformRule);

    let element = mesh.elements[mesh.elems[0].element_id];
    let child = &mesh.elems[4];
    let b = sampler.sample_basis_fn(&element, &mesh.elems[0], Some(child));
    // the child covers half the parent's window on each axis, so each
    // chain-rule factor is one quarter of the full window of length two
    assert!((val(b.u_glq_scale()) - 0.5).abs() < 1e-15);
    assert!((val(b.v_glq_scale()) - 0.5).abs() < 1e-15);
    assert!((val(b.glq_scale()) - 0.25).abs() < 1e-15);

    let whole = sampler.sample_basis_fn(&element, &mesh.elems[0], None);
    assert!((val(whole.glq_scale()) - 1.0).abs() < 1e-15);
    assert_eq!(sampler.computed.len(), 2);
}

#[test]
fn default_quadrature_counts_round_up_to_powers_of_two() {
    assert_eq!(fem_2d::basis::default_ngq(0), 0);
    assert_eq!(fem_2d::basis::default_ngq(1), 8);
    assert_eq!(fem_2d::basis::default_ngq(2), 16);
    assert_eq!(fem_2d::basis::default_ngq(3), 16);
    assert_eq!(fem_2d::basis::default_ngq(4), 32);
}

#[test]
fn collector_merges_contributions() {
    let mut collector = DoubleMatrixParCollector::new(3);

    let mut a1 = SparseMatrix::new(3);
    a1.insert([0, 0], bits(1.0));
    let mut b1 = SparseMatrix::new(3);
    b1.insert([0, 2], bits(0.5));
    collector.collect_pair(a1, b1);

    let mut a2 = SparseMatrix::new(3);
    a2.insert([0, 0], bits(2.0));
    let mut b2 = SparseMatrix::new(3);
    b2.insert([2, 0], bits(0.25));
    collector.collect_pair(a2, b2);

    let (mut a, mut b) = collector.yield_matrices();
    let ae = a.take_entries();
    assert_eq!(ae.len(), 1);
    assert!((val(ae[0].value) - 3.0).abs() < 1e-15);
    let be = b.take_entries();
    assert_eq!(be.len(), 1);
    assert!((val(be[0].value) - 0.75).abs() < 1e-15);
}

#[test]
fn basic_problem() {
    let mut domain = Domain::from_mesh(grid_mesh());

    domain.mesh.global_p_refinement(PRef::from(1, 1)).unwrap();
    domain.mesh.h_refine_elems(vec![0], HRef::T).unwrap();
    domain.gen_dofs();

    println!("Num DoFs: {}", domain.dofs.len());
    // seven leaf elems at expansion orders (2, 2): eighteen each
    assert_eq!(domain.dofs.len(), 7 * 18);
    for dof in domain.dofs.iter() {
        assert_eq!(dof.id, domain.dofs[dof.id].id);
    }

    let (a, b) = fill_matrices::<CurlLike, DotProduct, PowerShapes, UniformRule>(
        &domain,
        &UniformRule,
    );
    assert_eq!(a.dimension, domain.dofs.len());
    assert_eq!(b.dimension, domain.dofs.len());
    assert!(b.num_entries() > 0);

    let dense = b.to_dense();
    println!("Solution: {:.10}", val(dense[0][0]));
}

#[test]
fn integration_correctness() {
    let i_max: usize = 2;
    let j_max: usize = 2;
    let p_elem_id = 1;
    let q_elem_id = 5;

    let mut se_mesh = single_element_mesh();
    se_mesh.set_expansion_on_elems(vec![0], [i_max as u8, j_max as u8]).unwrap();
    se_mesh.h_refine_elems(vec![0], HRef::T).unwrap();
    se_mesh.h_refine_elems(vec![1], HRef::U(None)).unwrap();

    let (mut bs_sampler, weights): (BasisFnSampler<PowerShapes>, [Vec<u64>; 2]) =
        BasisFnSampler::with(i_max, j_max, None, None, false, &UniformRule);

    let a_integ = CurlLike::with_weights(&weights[0], &weights[1]);
    let b_integ = DotProduct::with_weights(&weights[0], &weights[1]);

    let p_element = se_mesh.elements[se_mesh.elems[p_elem_id].element_id];
    let q_element = se_mesh.elements[se_mesh.elems[q_elem_id].element_id];
    let bs_p = if q_elem_id == p_elem_id {
        bs_sampler.sample_basis_fn(&p_element, &se_mesh.elems[p_elem_id], None)
    } else {
        bs_sampler.sample_basis_fn(
            &p_element,
            &se_mesh.elems[p_elem_id],
            Some(&se_mesh.elems[q_elem_id]),
        )
    };
    let bs_q = bs_sampler.sample_basis_fn(&q_element, &se_mesh.elems[q_elem_id], None);

    for p_dir in [BasisDir::U, BasisDir::V] {
        for q_dir in [BasisDir::U, BasisDir::V] {
            for p_i in 0..=i_max {
                for p_j in 0..=j_max {
                    for q_i in 0..=i_max {
                        for q_j in 0..=j_max {
                            let a = a_integ
                                .integrate(p_dir, q_dir, [p_i, p_j], [q_i, q_j], &bs_p, &bs_q)
                                .surface();
                            let b = b_integ
                                .integrate(p_dir, q_dir, [p_i, p_j], [q_i, q_j], &bs_p, &bs_q)
                                .surface();

                            assert!(val(a).is_finite());
                            assert!(val(b).is_finite());
                            println!(
                                "[{:?}, ({}, {})] \t [{:?}, ({}, {})] \t {:.10} \t {:.10}",
                                p_dir,
                                p_i,
                                p_j,
                                q_dir,
                                q_i,
                                q_j,
                                val(a),
                                val(b)
                            );
                        }
                    }
                }
            }
        }
    }
}

#[test]
fn refined_domain_assembles_full_rank_block() {
    let mut domain = Domain::from_mesh(grid_mesh());
    domain.mesh.set_expansion_on_elems(vec![0, 1, 2, 3], [1, 1]).unwrap();
    domain.mesh.h_refine_elems(vec![0], HRef::T).unwrap();
    let child = domain.mesh.elems[0].child_ids().unwrap()[0];
    domain.mesh.h_refine_elems(vec![child], HRef::U(None)).unwrap();
    domain.gen_dofs();

    // leaves: three unrefined roots, three remaining quarter children, and
    // the two halves of the bisected child; eight basis functions each
    assert_eq!(domain.dofs.len(), 8 * 8);

    let (_a, b) = fill_matrices::<CurlLike, DotProduct, PowerShapes, UniformRule>(
        &domain,
        &UniformRule,
    );
    let dense = b.to_dense();

    // the local-local block of one leaf elem is full rank
    let specs = &domain.basis_specs[1];
    let n = specs.len();
    assert_eq!(n, 8);
    let mut block = vec![vec![0.0f64; n]; n];
    for i in 0..n {
        for j in 0..n {
            block[i][j] = val(dense[specs[i].dof_id][specs[j].dof_id]);
        }
    }
    let det = determinant(block);
    assert!(det.abs() > 1e-30);
}
