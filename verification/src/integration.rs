//! The assembly pipeline: pluggable bilinear-form integrators driven over
//! all mesh elems, accumulating two global sparse system matrices.

use crate::basis::BasisFn;
use crate::basis::BasisFnSampler;
use crate::basis::QuadratureProvider;
use crate::basis::ShapeFn;
use crate::domain::BasisDir;
use crate::domain::Domain;
use crate::refinement::MAX_POLYNOMIAL_ORDER;
use crate::scalar::add_bits;
use crate::scalar::add_f;
use crate::scalar::ZERO_BITS;
use crate::mesh::is_descendant_of;
use crate::sparse_matrix::canon_key;
use crate::sparse_matrix::spec_merge;
use crate::sparse_matrix::SparseMatrix;
use vstd::prelude::*;

verus! {

/// Per-point results of one bilinear-form integral over the 2-D quadrature
/// grid.
pub struct IntegralResult {
    pub point_values: Vec<Vec<u64>>,
}

/// A row folded into a running IEEE-754 sum, front to back.
pub open spec fn spec_sum_from(acc: u64, s: Seq<u64>) -> u64
    decreases s.len(),
{
    if s.len() == 0 {
        acc
    } else {
        spec_sum_from(add_bits(acc, s[0]), s.drop_first())
    }
}

/// A grid folded row-major into a running IEEE-754 sum.
pub open spec fn spec_grid_sum_from(acc: u64, g: Seq<Seq<u64>>) -> u64
    decreases g.len(),
{
    if g.len() == 0 {
        acc
    } else {
        spec_grid_sum_from(spec_sum_from(acc, g[0]), g.drop_first())
    }
}

impl IntegralResult {
    /// The grid of per-point values.
    pub open spec fn grid(self) -> Seq<Seq<u64>> {
        self.point_values@.map_values(|row: Vec<u64>| row@)
    }

    /// The "surface" reduction: the row-major IEEE-754 sum of every point
    /// value, starting from zero.
    pub fn surface(&self) -> (r: u64)
        ensures
            r == spec_grid_sum_from(ZERO_BITS, self.grid()),
    {
        let ghost whole = self.grid();
        let mut acc = ZERO_BITS;
        proof {
            assert(whole.skip(0) =~= whole);
        }
        let mut m: usize = 0;
        while m < self.point_values.len()
            invariant
                whole == self.grid(),
                whole.len() == self.point_values@.len(),
                0 <= m <= whole.len(),
                spec_grid_sum_from(ZERO_BITS, whole) == spec_grid_sum_from(
                    acc,
                    whole.skip(m as int),
                ),
            decreases whole.len() - m,
        {
            let ghost row_seq = whole[m as int];
            proof {
                assert(whole.skip(m as int)[0] == whole[m as int]);
                assert(whole.skip(m as int).drop_first() =~= whole.skip(m as int + 1));
                assert(row_seq.skip(0) =~= row_seq);
                assert(spec_grid_sum_from(acc, whole.skip(m as int)) == spec_grid_sum_from(
                    spec_sum_from(acc, row_seq),
                    whole.skip(m as int + 1),
                ));
            }
            let mut n: usize = 0;
            while n < self.point_values[m].len()
                invariant
                    whole == self.grid(),
                    whole.len() == self.point_values@.len(),
                    0 <= m < whole.len(),
                    row_seq == whole[m as int],
                    row_seq.len() == self.point_values@[m as int]@.len(),
                    0 <= n <= row_seq.len(),
                    spec_grid_sum_from(ZERO_BITS, whole) == spec_grid_sum_from(
                        spec_sum_from(acc, row_seq.skip(n as int)),
                        whole.skip(m as int + 1),
                    ),
                decreases row_seq.len() - n,
            {
                proof {
                    assert(row_seq.skip(n as int)[0] == row_seq[n as int]);
                    assert(row_seq.skip(n as int).drop_first() =~= row_seq.skip(n as int + 1));
                    assert(self.point_values@[m as int]@[n as int] == row_seq[n as int]);
                }
                acc = add_f(acc, self.point_values[m][n]);
                n += 1;
            }
            proof {
                assert(row_seq.skip(row_seq.len() as int) =~= Seq::<u64>::empty());
            }
            m += 1;
        }
        proof {
            assert(whole.skip(whole.len() as int) =~= Seq::<Seq<u64>>::empty());
        }
        acc
    }

    /// The per-point "full solution".
    pub fn full_solution(self) -> (r: Vec<Vec<u64>>)
        ensures
            r == self.point_values,
    {
        self.point_values
    }
}

/// A pluggable bilinear-form integrator: one entry of a global matrix from
/// a pair of sampled basis functions and Jacobian-weighted quadrature.
/// Concrete kernels — a curl-curl product, an inner product — implement it.
pub trait Integral: Sized {
    /// An integrator over the given quadrature weights.
    fn with_weights(u_weights: &Vec<u64>, v_weights: &Vec<u64>) -> Self;

    /// Integrate one pair of basis functions over their shared sample grid.
    fn integrate<SF: ShapeFn>(
        &self,
        p_dir: BasisDir,
        q_dir: BasisDir,
        p_orders: [usize; 2],
        q_orders: [usize; 2],
        p_basis: &BasisFn<SF>,
        q_basis: &BasisFn<SF>,
    ) -> IntegralResult;
}

/// One of elem `e`'s own canonical basis pairs: the degree-of-freedom ids
/// of two of its specs at positions `i <= j`, canonicalized.
pub open spec fn local_pair(d: Domain, e: int, rc: (int, int)) -> bool {
    exists|i: int, j: int|
        0 <= i <= j < d.basis_specs@[e]@.len() && rc == canon_key(
            (#[trigger] d.basis_specs@[e]@[i]).dof_id as int,
            (#[trigger] d.basis_specs@[e]@[j]).dof_id as int,
        )
}

/// As [`local_pair`], but only over the pairs the triangular enumeration
/// reaches before position `(i_hi, j_hi)`.
pub open spec fn local_pair_before(d: Domain, e: int, i_hi: int, j_hi: int, rc: (int, int)) -> bool {
    exists|i: int, j: int|
        0 <= i <= j < d.basis_specs@[e]@.len() && (i < i_hi || (i == i_hi && j < j_hi)) && rc
            == canon_key(
            (#[trigger] d.basis_specs@[e]@[i]).dof_id as int,
            (#[trigger] d.basis_specs@[e]@[j]).dof_id as int,
        )
}

/// A canonical pair coupling one of elem `e`'s specs with one of elem `q`'s.
pub open spec fn cross_pair(d: Domain, e: int, q: int, rc: (int, int)) -> bool {
    exists|i: int, j: int|
        0 <= i < d.basis_specs@[e]@.len() && 0 <= j < d.basis_specs@[q]@.len() && rc == canon_key(
            (#[trigger] d.basis_specs@[e]@[i]).dof_id as int,
            (#[trigger] d.basis_specs@[q]@[j]).dof_id as int,
        )
}

/// As [`cross_pair`], but only over the pairs reached before `(i_hi, j_hi)`.
pub open spec fn cross_pair_before(d: Domain, e: int, q: int, i_hi: int, j_hi: int, rc: (int, int)) -> bool {
    exists|i: int, j: int|
        0 <= i < d.basis_specs@[e]@.len() && 0 <= j < d.basis_specs@[q]@.len() && (i < i_hi || (i
            == i_hi && j < j_hi)) && rc == canon_key(
            (#[trigger] d.basis_specs@[e]@[i]).dof_id as int,
            (#[trigger] d.basis_specs@[q]@[j]).dof_id as int,
        )
}

/// A canonical pair coupling one of elem `e`'s specs with a spec owned by
/// one of `e`'s descendants.
pub open spec fn desc_pair(d: Domain, e: int, rc: (int, int)) -> bool {
    exists|q: int|
        0 <= q < d.mesh.elems@.len() && #[trigger] is_descendant_of(d.mesh.elems@, q, e)
            && cross_pair(d, e, q, rc)
}

/// Every canonical pair one elem contributes: its own pairs, each once,
/// and its pairs with every descendant-owned spec.
pub open spec fn elem_pairs(d: Domain, e: int, rc: (int, int)) -> bool {
    local_pair(d, e, rc) || desc_pair(d, e, rc)
}

/// Every canonical pair the whole domain couples.
pub open spec fn coupled_pair(d: Domain, rc: (int, int)) -> bool {
    exists|e: int| 0 <= e < d.mesh.elems@.len() && #[trigger] elem_pairs(d, e, rc)
}

/// Collects per-element matrix pairs from parallel workers and merges each
/// into the two global system matrices; the merge itself is the only place
/// the global matrices are mutated, by a single consumer.
pub struct DoubleMatrixParCollector {
    pub a: SparseMatrix,
    pub b: SparseMatrix,
}

impl DoubleMatrixParCollector {
    /// Two empty system matrices of the given dimension.
    pub fn new(dimension: usize) -> (r: Self)
        requires
            dimension <= u32::MAX as usize,
        ensures
            r.a.wf(),
            r.b.wf(),
            r.a.dimension == dimension,
            r.b.dimension == dimension,
            r.a.model() == Map::<(int, int), u64>::empty(),
            r.b.model() == Map::<(int, int), u64>::empty(),
    {
        Self { a: SparseMatrix::new(dimension), b: SparseMatrix::new(dimension) }
    }

    /// Merge one element's pair of local contributions into the globals,
    /// draining the locals.
    pub fn collect_pair(&mut self, elem_a: SparseMatrix, elem_b: SparseMatrix)
        requires
            old(self).a.wf(),
            old(self).b.wf(),
            elem_a.wf(),
            elem_b.wf(),
            elem_a.dimension == old(self).a.dimension,
            elem_b.dimension == old(self).b.dimension,
        ensures
            final(self).a.wf(),
            final(self).b.wf(),
            final(self).a.dimension == old(self).a.dimension,
            final(self).b.dimension == old(self).b.dimension,
            final(self).a.model() == spec_merge(old(self).a.model(), elem_a.model()),
            final(self).b.model() == spec_merge(old(self).b.model(), elem_b.model()),
    {
        let mut ea = elem_a;
        let mut eb = elem_b;
        self.a.consume_matrix(&mut ea);
        self.b.consume_matrix(&mut eb);
    }

    /// Hand the two assembled matrices out.
    pub fn yield_matrices(self) -> (r: (SparseMatrix, SparseMatrix))
        ensures
            r.0 == self.a,
            r.1 == self.b,
    {
        (self.a, self.b)
    }
}

/// Integrate every basis-function pair of one elem — its own pairs each
/// once via the `p <= q` canonicalization, then its pairs with every
/// descendant-owned basis — and accumulate both bilinear forms into the two
/// matrices. Exactly the elem's coupled canonical pairs join each matrix's
/// entry domain.
#[verifier::rlimit(60)]
fn integrate_elem_into<AI: Integral, BI: Integral, SF: ShapeFn>(
    domain: &Domain,
    elem_id: usize,
    bs_sampler: &mut BasisFnSampler<SF>,
    a_integrator: &AI,
    b_integrator: &BI,
    a_mat: &mut SparseMatrix,
    b_mat: &mut SparseMatrix,
)
    requires
        domain.wf(),
        elem_id < domain.mesh.elems@.len(),
        old(bs_sampler).cache_wf(),
        old(bs_sampler).i_max < usize::MAX,
        old(bs_sampler).j_max < usize::MAX,
        old(a_mat).wf(),
        old(b_mat).wf(),
        old(a_mat).dimension == domain.dofs@.len(),
        old(b_mat).dimension == domain.dofs@.len(),
    ensures
        final(bs_sampler).cache_wf(),
        final(bs_sampler).i_max == old(bs_sampler).i_max,
        final(bs_sampler).j_max == old(bs_sampler).j_max,
        final(a_mat).wf(),
        final(b_mat).wf(),
        final(a_mat).dimension == old(a_mat).dimension,
        final(b_mat).dimension == old(b_mat).dimension,
        forall|rc: (int, int)|
            #[trigger] final(a_mat).model().dom().contains(rc) <==> old(
                a_mat,
            ).model().dom().contains(rc) || elem_pairs(*domain, elem_id as int, rc),
        forall|rc: (int, int)|
            #[trigger] final(b_mat).model().dom().contains(rc) <==> old(
                b_mat,
            ).model().dom().contains(rc) || elem_pairs(*domain, elem_id as int, rc),
{
    let ghost d = *domain;
    let ghost e = elem_id as int;
    let ghost a0 = a_mat.model().dom();
    let ghost b0 = b_mat.model().dom();
    let elem = &domain.mesh.elems[elem_id];
    let element = &domain.mesh.elements[elem.element_id];
    let bs_local = bs_sampler.sample_basis_fn(element, elem, None);
    let n_local = domain.basis_specs[elem_id].len();

    // local - local: each unordered pair exactly once
    let mut i: usize = 0;
    while i < n_local
        invariant
            domain.wf(),
            d == *domain,
            e == elem_id as int,
            elem_id < domain.mesh.elems@.len(),
            n_local == domain.basis_specs@[e]@.len(),
            bs_sampler.cache_wf(),
            bs_sampler.i_max == old(bs_sampler).i_max,
            bs_sampler.j_max == old(bs_sampler).j_max,
            old(bs_sampler).i_max < usize::MAX,
            old(bs_sampler).j_max < usize::MAX,
            a_mat.wf(),
            b_mat.wf(),
            a_mat.dimension == old(a_mat).dimension,
            b_mat.dimension == old(b_mat).dimension,
            a_mat.dimension == domain.dofs@.len(),
            b_mat.dimension == domain.dofs@.len(),
            0 <= i <= n_local,
            forall|rc: (int, int)|
                #[trigger] a_mat.model().dom().contains(rc) <==> a0.contains(rc)
                    || local_pair_before(d, e, i as int, i as int, rc),
            forall|rc: (int, int)|
                #[trigger] b_mat.model().dom().contains(rc) <==> b0.contains(rc)
                    || local_pair_before(d, e, i as int, i as int, rc),
        decreases n_local - i,
    {
        let (p_orders, p_dir, p_dof_id) = domain.basis_specs[elem_id][i].get_integration_data();
        proof {
            assert(p_dof_id == d.basis_specs@[e]@[i as int].dof_id);
        }
        let mut q: usize = i;
        while q < n_local
            invariant
                domain.wf(),
                d == *domain,
                e == elem_id as int,
                elem_id < domain.mesh.elems@.len(),
                n_local == domain.basis_specs@[e]@.len(),
                i < n_local,
                p_dof_id == d.basis_specs@[e]@[i as int].dof_id,
                bs_sampler.cache_wf(),
                bs_sampler.i_max == old(bs_sampler).i_max,
                bs_sampler.j_max == old(bs_sampler).j_max,
                old(bs_sampler).i_max < usize::MAX,
                old(bs_sampler).j_max < usize::MAX,
                a_mat.wf(),
                b_mat.wf(),
                a_mat.dimension == old(a_mat).dimension,
                b_mat.dimension == old(b_mat).dimension,
                a_mat.dimension == domain.dofs@.len(),
                b_mat.dimension == domain.dofs@.len(),
                i <= q <= n_local,
                forall|rc: (int, int)|
                    #[trigger] a_mat.model().dom().contains(rc) <==> a0.contains(rc)
                        || local_pair_before(d, e, i as int, q as int, rc),
                forall|rc: (int, int)|
                    #[trigger] b_mat.model().dom().contains(rc) <==> b0.contains(rc)
                        || local_pair_before(d, e, i as int, q as int, rc),
            decreases n_local - q,
        {
            let (q_orders, q_dir, q_dof_id) = domain.basis_specs[elem_id][q].get_integration_data();
            proof {
                assert(q_dof_id == d.basis_specs@[e]@[q as int].dof_id);
            }
            let a = a_integrator.integrate(p_dir, q_dir, p_orders, q_orders, &bs_local, &bs_local)
                .surface();
            let b = b_integrator.integrate(p_dir, q_dir, p_orders, q_orders, &bs_local, &bs_local)
                .surface();
            let ghost pre_a = a_mat.model().dom();
            let ghost pre_b = b_mat.model().dom();
            a_mat.insert([p_dof_id, q_dof_id], a);
            b_mat.insert([p_dof_id, q_dof_id], b);
            proof {
                let k = canon_key(p_dof_id as int, q_dof_id as int);
                assert(a_mat.model().dom() =~= pre_a.insert(k));
                assert(b_mat.model().dom() =~= pre_b.insert(k));
                assert forall|rc: (int, int)|
                    local_pair_before(d, e, i as int, q + 1, rc) <==> (local_pair_before(
                        d,
                        e,
                        i as int,
                        q as int,
                        rc,
                    ) || rc == k) by {
                    if rc == k {
                        assert((i as int) <= (q as int) && (q as int)
                            < d.basis_specs@[e]@.len() && rc == canon_key(
                            d.basis_specs@[e]@[i as int].dof_id as int,
                            d.basis_specs@[e]@[q as int].dof_id as int,
                        ));
                    }
                }
            }
            q += 1;
        }
        proof {
            assert forall|rc: (int, int)|
                local_pair_before(d, e, i + 1, i + 1, rc) <==> local_pair_before(
                    d,
                    e,
                    i as int,
                    n_local as int,
                    rc,
                ) by {}
        }
        i += 1;
    }
    proof {
        assert forall|rc: (int, int)|
            local_pair_before(d, e, n_local as int, n_local as int, rc) <==> local_pair(
                d,
                e,
                rc,
            ) by {}
    }

    // local - descendant: the elem's basis sampled over each descendant's
    // window, against the descendant's own basis
    let desc_ids = domain.mesh.descendant_elem_ids(elem_id);
    let mut di: usize = 0;
    while di < desc_ids.len()
        invariant
            domain.wf(),
            d == *domain,
            e == elem_id as int,
            elem_id < domain.mesh.elems@.len(),
            forall|p: int|
                0 <= p < desc_ids@.len() ==> (#[trigger] desc_ids@[p]) < domain.mesh.elems@.len()
                    && is_descendant_of(domain.mesh.elems@, desc_ids@[p] as int, e),
            forall|dd: int|
                0 <= dd < domain.mesh.elems@.len() && is_descendant_of(domain.mesh.elems@, dd, e)
                    ==> desc_ids@.contains(dd as usize),
            bs_sampler.cache_wf(),
            bs_sampler.i_max == old(bs_sampler).i_max,
            bs_sampler.j_max == old(bs_sampler).j_max,
            old(bs_sampler).i_max < usize::MAX,
            old(bs_sampler).j_max < usize::MAX,
            a_mat.wf(),
            b_mat.wf(),
            a_mat.dimension == old(a_mat).dimension,
            b_mat.dimension == old(b_mat).dimension,
            a_mat.dimension == domain.dofs@.len(),
            b_mat.dimension == domain.dofs@.len(),
            0 <= di <= desc_ids@.len(),
            forall|rc: (int, int)|
                #[trigger] a_mat.model().dom().contains(rc) <==> a0.contains(rc) || local_pair(
                    d,
                    e,
                    rc,
                ) || (exists|di2: int|
                    0 <= di2 < di && cross_pair(d, e, (#[trigger] desc_ids@[di2]) as int, rc)),
            forall|rc: (int, int)|
                #[trigger] b_mat.model().dom().contains(rc) <==> b0.contains(rc) || local_pair(
                    d,
                    e,
                    rc,
                ) || (exists|di2: int|
                    0 <= di2 < di && cross_pair(d, e, (#[trigger] desc_ids@[di2]) as int, rc)),
        decreases desc_ids@.len() - di,
    {
        let q_elem_id = desc_ids[di];
        let ghost qe = q_elem_id as int;
        let q_elem = &domain.mesh.elems[q_elem_id];
        let q_element = &domain.mesh.elements[q_elem.element_id];
        let elem_again = &domain.mesh.elems[elem_id];
        let element_again = &domain.mesh.elements[elem_again.element_id];
        let bs_p_sampled = bs_sampler.sample_basis_fn(element_again, elem_again, Some(q_elem));
        let bs_q_local = bs_sampler.sample_basis_fn(q_element, q_elem, None);
        let n_p = domain.basis_specs[elem_id].len();
        let ghost adom_at_desc = a_mat.model().dom();
        let ghost bdom_at_desc = b_mat.model().dom();
        let mut pi: usize = 0;
        while pi < n_p
            invariant
                domain.wf(),
                d == *domain,
                e == elem_id as int,
                elem_id < domain.mesh.elems@.len(),
                qe == q_elem_id as int,
                q_elem_id < domain.mesh.elems@.len(),
                n_p == domain.basis_specs@[e]@.len(),
                bs_sampler.cache_wf(),
                bs_sampler.i_max == old(bs_sampler).i_max,
                bs_sampler.j_max == old(bs_sampler).j_max,
                old(bs_sampler).i_max < usize::MAX,
                old(bs_sampler).j_max < usize::MAX,
                a_mat.wf(),
                b_mat.wf(),
                a_mat.dimension == old(a_mat).dimension,
                b_mat.dimension == old(b_mat).dimension,
                a_mat.dimension == domain.dofs@.len(),
                b_mat.dimension == domain.dofs@.len(),
                0 <= pi <= n_p,
                forall|rc: (int, int)|
                    #[trigger] a_mat.model().dom().contains(rc) <==> adom_at_desc.contains(rc)
                        || cross_pair_before(d, e, qe, pi as int, 0, rc),
                forall|rc: (int, int)|
                    #[trigger] b_mat.model().dom().contains(rc) <==> bdom_at_desc.contains(rc)
                        || cross_pair_before(d, e, qe, pi as int, 0, rc),
            decreases n_p - pi,
        {
            let (p_orders, p_dir, p_dof_id) = domain.basis_specs[elem_id][pi]
                .get_integration_data();
            proof {
                assert(p_dof_id == d.basis_specs@[e]@[pi as int].dof_id);
            }
            let n_q = domain.basis_specs[q_elem_id].len();
            let mut qi: usize = 0;
            while qi < n_q
                invariant
                    domain.wf(),
                    d == *domain,
                    e == elem_id as int,
                    elem_id < domain.mesh.elems@.len(),
                    qe == q_elem_id as int,
                    q_elem_id < domain.mesh.elems@.len(),
                    n_p == domain.basis_specs@[e]@.len(),
                    pi < n_p,
                    p_dof_id == d.basis_specs@[e]@[pi as int].dof_id,
                    n_q == domain.basis_specs@[qe]@.len(),
                    bs_sampler.cache_wf(),
                    bs_sampler.i_max == old(bs_sampler).i_max,
                    bs_sampler.j_max == old(bs_sampler).j_max,
                    old(bs_sampler).i_max < usize::MAX,
                    old(bs_sampler).j_max < usize::MAX,
                    a_mat.wf(),
                    b_mat.wf(),
                    a_mat.dimension == old(a_mat).dimension,
                    b_mat.dimension == old(b_mat).dimension,
                    a_mat.dimension == domain.dofs@.len(),
                    b_mat.dimension == domain.dofs@.len(),
                    0 <= qi <= n_q,
                    forall|rc: (int, int)|
                        #[trigger] a_mat.model().dom().contains(rc) <==> adom_at_desc.contains(rc)
                            || cross_pair_before(d, e, qe, pi as int, qi as int, rc),
                    forall|rc: (int, int)|
                        #[trigger] b_mat.model().dom().contains(rc) <==> bdom_at_desc.contains(rc)
                            || cross_pair_before(d, e, qe, pi as int, qi as int, rc),
                decreases n_q - qi,
            {
                let (q_orders, q_dir, q_dof_id) = domain.basis_specs[q_elem_id][qi]
                    .get_integration_data();
                proof {
                    assert(q_dof_id == d.basis_specs@[qe]@[qi as int].dof_id);
                }
                let a = a_integrator.integrate(
                    p_dir,
                    q_dir,
                    p_orders,
                    q_orders,
                    &bs_p_sampled,
                    &bs_q_local,
                ).surface();
                let b = b_integrator.integrate(
                    p_dir,
                    q_dir,
                    p_orders,
                    q_orders,
                    &bs_p_sampled,
                    &bs_q_local,
                ).surface();
                let ghost pre_a = a_mat.model().dom();
                let ghost pre_b = b_mat.model().dom();
                a_mat.insert([p_dof_id, q_dof_id], a);
                b_mat.insert([p_dof_id, q_dof_id], b);
                proof {
                    let k = canon_key(p_dof_id as int, q_dof_id as int);
                    assert(a_mat.model().dom() =~= pre_a.insert(k));
                    assert(b_mat.model().dom() =~= pre_b.insert(k));
                    assert forall|rc: (int, int)|
                        cross_pair_before(d, e, qe, pi as int, qi + 1, rc) <==> (
                        cross_pair_before(d, e, qe, pi as int, qi as int, rc) || rc == k) by {
                        if rc == k {
                            assert((pi as int) < d.basis_specs@[e]@.len() && (qi as int)
                                < d.basis_specs@[qe]@.len() && rc == canon_key(
                                d.basis_specs@[e]@[pi as int].dof_id as int,
                                d.basis_specs@[qe]@[qi as int].dof_id as int,
                            ));
                        }
                    }
                }
                qi += 1;
            }
            proof {
                assert forall|rc: (int, int)|
                    cross_pair_before(d, e, qe, pi + 1, 0, rc) <==> cross_pair_before(
                        d,
                        e,
                        qe,
                        pi as int,
                        n_q as int,
                        rc,
                    ) by {}
            }
            pi += 1;
        }
        proof {
            assert forall|rc: (int, int)|
                cross_pair_before(d, e, qe, n_p as int, 0, rc) <==> cross_pair(d, e, qe, rc) by {}
            assert forall|rc: (int, int)| #[trigger]
                a_mat.model().dom().contains(rc) <==> a0.contains(rc) || local_pair(d, e, rc) || (
                exists|di2: int|
                    0 <= di2 < di + 1 && cross_pair(
                        d,
                        e,
                        (#[trigger] desc_ids@[di2]) as int,
                        rc,
                    )) by {
                if a_mat.model().dom().contains(rc) {
                    if !adom_at_desc.contains(rc) {
                        assert(cross_pair(d, e, (desc_ids@[di as int]) as int, rc));
                    }
                }
            }
            assert forall|rc: (int, int)| #[trigger]
                b_mat.model().dom().contains(rc) <==> b0.contains(rc) || local_pair(d, e, rc) || (
                exists|di2: int|
                    0 <= di2 < di + 1 && cross_pair(
                        d,
                        e,
                        (#[trigger] desc_ids@[di2]) as int,
                        rc,
                    )) by {
                if b_mat.model().dom().contains(rc) {
                    if !bdom_at_desc.contains(rc) {
                        assert(cross_pair(d, e, (desc_ids@[di as int]) as int, rc));
                    }
                }
            }
        }
        di += 1;
    }
    proof {
        assert forall|rc: (int, int)|
            #[trigger] a_mat.model().dom().contains(rc) <==> a0.contains(rc) || elem_pairs(
                d,
                e,
                rc,
            ) by {
            if a_mat.model().dom().contains(rc) && !a0.contains(rc) && !local_pair(d, e, rc) {
                let di2 = choose|di2: int|
                    0 <= di2 < desc_ids@.len() && cross_pair(
                        d,
                        e,
                        (#[trigger] desc_ids@[di2]) as int,
                        rc,
                    );
                assert(is_descendant_of(d.mesh.elems@, desc_ids@[di2] as int, e));
            }
            if desc_pair(d, e, rc) {
                let q = choose|q: int|
                    0 <= q < d.mesh.elems@.len() && #[trigger] is_descendant_of(d.mesh.elems@, q, e)
                        && cross_pair(d, e, q, rc);
                assert(desc_ids@.contains(q as usize));
                let di2 = choose|di2: int|
                    0 <= di2 < desc_ids@.len() && desc_ids@[di2] == (q as usize);
                assert(cross_pair(d, e, (desc_ids@[di2]) as int, rc));
            }
        }
        assert forall|rc: (int, int)|
            #[trigger] b_mat.model().dom().contains(rc) <==> b0.contains(rc) || elem_pairs(
                d,
                e,
                rc,
            ) by {
            if b_mat.model().dom().contains(rc) && !b0.contains(rc) && !local_pair(d, e, rc) {
                let di2 = choose|di2: int|
                    0 <= di2 < desc_ids@.len() && cross_pair(
                        d,
                        e,
                        (#[trigger] desc_ids@[di2]) as int,
                        rc,
                    );
                assert(is_descendant_of(d.mesh.elems@, desc_ids@[di2] as int, e));
            }
            if desc_pair(d, e, rc) {
                let q = choose|q: int|
                    0 <= q < d.mesh.elems@.len() && #[trigger] is_descendant_of(d.mesh.elems@, q, e)
                        && cross_pair(d, e, q, rc);
                assert(desc_ids@.contains(q as usize));
                let di2 = choose|di2: int|
                    0 <= di2 < desc_ids@.len() && desc_ids@[di2] == (q as usize);
                assert(cross_pair(d, e, (desc_ids@[di2]) as int, rc));
            }
        }
    }
}

/// One element's pair of local contribution matrices, for the parallel
/// assembly path: each worker builds its own pair, and a single consumer
/// merges them through [`DoubleMatrixParCollector`].
pub fn fill_elem_matrices<AI: Integral, BI: Integral, SF: ShapeFn>(
    domain: &Domain,
    elem_id: usize,
    bs_sampler: &mut BasisFnSampler<SF>,
    a_integrator: &AI,
    b_integrator: &BI,
) -> (r: (SparseMatrix, SparseMatrix))
    requires
        domain.wf(),
        elem_id < domain.mesh.elems@.len(),
        domain.dofs@.len() <= u32::MAX as usize,
        old(bs_sampler).cache_wf(),
        old(bs_sampler).i_max < usize::MAX,
        old(bs_sampler).j_max < usize::MAX,
    ensures
        final(bs_sampler).cache_wf(),
        r.0.wf(),
        r.1.wf(),
        r.0.dimension == domain.dofs@.len(),
        r.1.dimension == domain.dofs@.len(),
        forall|rc: (int, int)|
            #[trigger] r.0.model().dom().contains(rc) <==> elem_pairs(
                *domain,
                elem_id as int,
                rc,
            ),
        forall|rc: (int, int)|
            #[trigger] r.1.model().dom().contains(rc) <==> elem_pairs(
                *domain,
                elem_id as int,
                rc,
            ),
{
    let mut local_a = SparseMatrix::new(domain.dofs.len());
    let mut local_b = SparseMatrix::new(domain.dofs.len());
    integrate_elem_into(
        domain,
        elem_id,
        bs_sampler,
        a_integrator,
        b_integrator,
        &mut local_a,
        &mut local_b,
    );
    (local_a, local_b)
}

/// Fill the two global system matrices with the integrals of every pair of
/// overlapping basis functions in the domain: for each elem, its own pairs
/// each exactly once via the `p <= q` canonicalization, and its pairs with
/// every descendant-owned basis over the descendant's parametric window.
pub fn fill_matrices<AI: Integral, BI: Integral, SF: ShapeFn, Q: QuadratureProvider>(
    domain: &Domain,
    quad: &Q,
) -> (r: (SparseMatrix, SparseMatrix))
    requires
        domain.wf(),
        domain.dofs@.len() <= u32::MAX as usize,
        forall|k: int|
            0 <= k < domain.mesh.elems@.len() ==> (#[trigger] domain.mesh.elems@[k]).poly_orders.i
                <= MAX_POLYNOMIAL_ORDER && domain.mesh.elems@[k].poly_orders.j
                <= MAX_POLYNOMIAL_ORDER,
    ensures
        r.0.wf(),
        r.1.wf(),
        r.0.dimension == domain.dofs@.len(),
        r.1.dimension == domain.dofs@.len(),
        forall|rc: (int, int)|
            #[trigger] r.0.model().dom().contains(rc) <==> coupled_pair(*domain, rc),
        forall|rc: (int, int)|
            #[trigger] r.1.model().dom().contains(rc) <==> coupled_pair(*domain, rc),
{
    let mut a_mat = SparseMatrix::new(domain.dofs.len());
    let mut b_mat = SparseMatrix::new(domain.dofs.len());

    let orders = domain.mesh.max_expansion_orders();
    let (mut bs_sampler, weights): (BasisFnSampler<SF>, [Vec<u64>; 2]) = BasisFnSampler::with(
        orders[0] as usize,
        orders[1] as usize,
        None,
        None,
        false,
        quad,
    );
    let a_integrator = AI::with_weights(&weights[0], &weights[1]);
    let b_integrator = BI::with_weights(&weights[0], &weights[1]);

    let mut elem_id: usize = 0;
    while elem_id < domain.mesh.elems.len()
        invariant
            domain.wf(),
            bs_sampler.cache_wf(),
            bs_sampler.i_max < usize::MAX,
            bs_sampler.j_max < usize::MAX,
            a_mat.wf(),
            b_mat.wf(),
            a_mat.dimension == domain.dofs@.len(),
            b_mat.dimension == domain.dofs@.len(),
            0 <= elem_id <= domain.mesh.elems@.len(),
            forall|rc: (int, int)|
                #[trigger] a_mat.model().dom().contains(rc) <==> (exists|e2: int|
                    0 <= e2 < elem_id && #[trigger] elem_pairs(*domain, e2, rc)),
            forall|rc: (int, int)|
                #[trigger] b_mat.model().dom().contains(rc) <==> (exists|e2: int|
                    0 <= e2 < elem_id && #[trigger] elem_pairs(*domain, e2, rc)),
        decreases domain.mesh.elems@.len() - elem_id,
    {
        integrate_elem_into(
            domain,
            elem_id,
            &mut bs_sampler,
            &a_integrator,
            &b_integrator,
            &mut a_mat,
            &mut b_mat,
        );
        elem_id += 1;
    }

    (a_mat, b_mat)
}

} // verus!
