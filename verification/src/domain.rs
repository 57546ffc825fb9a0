//! The discretized domain: a mesh together with its degrees of freedom and
//! per-elem basis specs.
//!
//! Only childless elems own degrees of freedom. Each leaf elem owns one
//! degree of freedom per (direction, mode pair) combination up to its own
//! expansion orders; a basis spec records the mode orders, the parametric
//! direction and the global degree-of-freedom id.

use crate::elem::Elem;
use crate::mesh::Mesh;
use vstd::prelude::*;

verus! {

/// The parametric direction of a basis function.
#[derive(Clone, Copy, Debug, PartialEq, Eq, Structural)]
pub enum BasisDir {
    U,
    V,
}

/// One scalar coefficient of the global solution, tied to one
/// (element, mode, direction) basis function.
#[derive(Clone, Copy, Debug, PartialEq, Eq)]
pub struct DoF {
    pub id: usize,
    pub elem_id: usize,
    pub dir: BasisDir,
    pub orders: [usize; 2],
}

/// A basis function owned by an elem: its mode orders, its direction, and
/// its global degree-of-freedom id.
#[derive(Clone, Copy, Debug, PartialEq, Eq)]
pub struct BasisSpec {
    pub orders: [usize; 2],
    pub dir: BasisDir,
    pub dof_id: usize,
    pub elem_id: usize,
}

impl BasisSpec {
    /// The data an integration kernel needs: mode orders, direction, and
    /// global degree-of-freedom id.
    pub fn get_integration_data(&self) -> (r: ([usize; 2], BasisDir, usize))
        ensures
            r.0 == self.orders,
            r.1 == self.dir,
            r.2 == self.dof_id,
    {
        (self.orders, self.dir, self.dof_id)
    }
}

/// How many degrees of freedom one elem owns: none once refined, otherwise
/// one per direction and mode pair up to its expansion orders.
pub open spec fn elem_dof_count(el: Elem) -> int {
    if el.children is Some {
        0
    } else {
        2 * ((el.poly_orders.i as int + 1) * (el.poly_orders.j as int + 1))
    }
}

/// The degrees of freedom owned by the first `upto` elems.
pub open spec fn total_dof_count(elems: Seq<Elem>, upto: int) -> int
    decreases upto,
{
    if upto <= 0 {
        0
    } else {
        total_dof_count(elems, upto - 1) + elem_dof_count(elems[upto - 1])
    }
}

/// A mesh with its degrees of freedom and per-elem basis specs.
pub struct Domain {
    pub mesh: Mesh,
    pub dofs: Vec<DoF>,
    /// The basis specs owned by each elem, indexed by elem id.
    pub basis_specs: Vec<Vec<BasisSpec>>,
}

impl Domain {
    /// Mesh cross-references hold and every basis spec names its own elem
    /// and a valid degree of freedom.
    pub open spec fn wf(self) -> bool {
        &&& self.mesh.wf()
        &&& self.mesh.children_linked()
        &&& self.basis_specs@.len() == self.mesh.elems@.len()
        &&& forall|k: int, s: int|
            0 <= k < self.basis_specs@.len() && 0 <= s < self.basis_specs@[k]@.len() ==> (
            #[trigger] self.basis_specs@[k]@[s]).elem_id == k && self.basis_specs@[k]@[s].dof_id
                < self.dofs@.len()
    }

    /// A domain over a mesh, with no degrees of freedom generated yet.
    pub fn from_mesh(mesh: Mesh) -> (r: Domain)
        requires
            mesh.wf(),
        ensures
            r.mesh == mesh,
            r.dofs@.len() == 0,
            r.basis_specs@.len() == 0,
    {
        Domain { mesh, dofs: Vec::new(), basis_specs: Vec::new() }
    }

    /// Generate the degrees of freedom and basis specs: for each childless
    /// elem, one per direction and mode pair up to its expansion orders,
    /// with sequential global ids; refined elems own none.
    pub fn gen_dofs(&mut self)
        requires
            old(self).mesh.wf(),
            old(self).mesh.children_linked(),
        ensures
            final(self).mesh == old(self).mesh,
            final(self).wf(),
            final(self).basis_specs@.len() == old(self).mesh.elems@.len(),
            final(self).dofs@.len() == total_dof_count(
                old(self).mesh.elems@,
                old(self).mesh.elems@.len() as int,
            ),
            forall|d: int|
                0 <= d < final(self).dofs@.len() ==> (#[trigger] final(self).dofs@[d]).id == d,
            forall|k: int|
                0 <= k < final(self).basis_specs@.len() ==> (#[trigger] final(self).basis_specs@[k])@.len() == elem_dof_count(old(self).mesh.elems@[k]),
            forall|k: int, s: int|
                0 <= k < final(self).basis_specs@.len() && 0 <= s < final(self).basis_specs@[k]@.len() ==> {
                    let bs = #[trigger] final(self).basis_specs@[k]@[s];
                    &&& bs.elem_id == k
                    &&& bs.dof_id < final(self).dofs@.len()
                    &&& final(self).dofs@[bs.dof_id as int] == (DoF {
                        id: bs.dof_id,
                        elem_id: k as usize,
                        dir: bs.dir,
                        orders: bs.orders,
                    })
                },
    {
        self.dofs = Vec::new();
        self.basis_specs = Vec::new();
        let n_elems = self.mesh.elems.len();
        let mut k: usize = 0;
        while k < n_elems
            invariant
                self.mesh == old(self).mesh,
                self.mesh.wf(),
                n_elems == self.mesh.elems@.len(),
                0 <= k <= n_elems,
                self.basis_specs@.len() == k,
                self.dofs@.len() == total_dof_count(self.mesh.elems@, k as int),
                forall|d: int|
                    0 <= d < self.dofs@.len() ==> (#[trigger] self.dofs@[d]).id == d,
                forall|p: int|
                    0 <= p < k ==> (#[trigger] self.basis_specs@[p])@.len() == elem_dof_count(
                        self.mesh.elems@[p],
                    ),
                forall|p: int, s: int|
                    0 <= p < k && 0 <= s < self.basis_specs@[p]@.len() ==> {
                        let bs = #[trigger] self.basis_specs@[p]@[s];
                        &&& bs.elem_id == p
                        &&& bs.dof_id < self.dofs@.len()
                        &&& self.dofs@[bs.dof_id as int] == (DoF {
                            id: bs.dof_id,
                            elem_id: p as usize,
                            dir: bs.dir,
                            orders: bs.orders,
                        })
                    },
            decreases n_elems - k,
        {
            let specs = self.gen_elem_dofs(k);
            self.basis_specs.push(specs);
            k += 1;
        }
    }

    /// Generate one elem's degrees of freedom, appending to the global
    /// list, and hand back its basis specs.
    fn gen_elem_dofs(&mut self, k: usize) -> (specs: Vec<BasisSpec>)
        requires
            old(self).mesh.wf(),
            k < old(self).mesh.elems@.len(),
            forall|d: int|
                0 <= d < old(self).dofs@.len() ==> (#[trigger] old(self).dofs@[d]).id == d,
        ensures
            final(self).mesh == old(self).mesh,
            final(self).basis_specs == old(self).basis_specs,
            final(self).dofs@.len() == old(self).dofs@.len() + elem_dof_count(
                old(self).mesh.elems@[k as int],
            ),
            forall|d: int|
                0 <= d < old(self).dofs@.len() ==> final(self).dofs@[d] == old(self).dofs@[d],
            forall|d: int|
                0 <= d < final(self).dofs@.len() ==> (#[trigger] final(self).dofs@[d]).id == d,
            specs@.len() == elem_dof_count(old(self).mesh.elems@[k as int]),
            forall|s: int|
                0 <= s < specs@.len() ==> {
                    let bs = #[trigger] specs@[s];
                    &&& bs.elem_id == k
                    &&& old(self).dofs@.len() <= bs.dof_id < final(self).dofs@.len()
                    &&& final(self).dofs@[bs.dof_id as int] == (DoF {
                        id: bs.dof_id,
                        elem_id: k as usize,
                        dir: bs.dir,
                        orders: bs.orders,
                    })
                },
    {
        let mut specs: Vec<BasisSpec> = Vec::new();
        if self.mesh.elems[k].has_children() {
            return specs;
        }
        let imax = self.mesh.elems[k].poly_orders.i as usize;
        let jmax = self.mesh.elems[k].poly_orders.j as usize;
        let ghost base = self.dofs@.len() as int;
        let ghost per_dir = (imax as int + 1) * (jmax as int + 1);
        let mut d: usize = 0;
        while d < 2
            invariant
                self.mesh == old(self).mesh,
                self.basis_specs == old(self).basis_specs,
                k < self.mesh.elems@.len(),
                imax == self.mesh.elems@[k as int].poly_orders.i as int,
                jmax == self.mesh.elems@[k as int].poly_orders.j as int,
                base == old(self).dofs@.len() as int,
                per_dir == (imax as int + 1) * (jmax as int + 1),
                0 <= d <= 2,
                self.dofs@.len() == base + d * per_dir,
                specs@.len() == d * per_dir,
                forall|q: int| 0 <= q < base ==> #[trigger] self.dofs@[q] == old(self).dofs@[q],
                forall|q: int|
                    0 <= q < self.dofs@.len() ==> (#[trigger] self.dofs@[q]).id == q,
                forall|s: int|
                    0 <= s < specs@.len() ==> {
                        let bs = #[trigger] specs@[s];
                        &&& bs.elem_id == k
                        &&& base <= bs.dof_id < self.dofs@.len()
                        &&& self.dofs@[bs.dof_id as int] == (DoF {
                            id: bs.dof_id,
                            elem_id: k,
                            dir: bs.dir,
                            orders: bs.orders,
                        })
                    },
                forall|q: int|
                    0 <= q < old(self).dofs@.len() ==> (#[trigger] old(self).dofs@[q]).id == q,
            decreases 2 - d,
        {
            let dir = if d == 0 {
                BasisDir::U
            } else {
                BasisDir::V
            };
            let ghost dir_base = self.dofs@.len() as int;
            let mut i: usize = 0;
            while i <= imax
                invariant
                    self.mesh == old(self).mesh,
                    self.basis_specs == old(self).basis_specs,
                    k < self.mesh.elems@.len(),
                    imax == self.mesh.elems@[k as int].poly_orders.i as int,
                    jmax == self.mesh.elems@[k as int].poly_orders.j as int,
                    base == old(self).dofs@.len() as int,
                    per_dir == (imax as int + 1) * (jmax as int + 1),
                    base <= dir_base,
                    0 <= i <= imax + 1,
                    self.dofs@.len() == dir_base + i * (jmax as int + 1),
                    specs@.len() == self.dofs@.len() - base,
                    forall|q: int| 0 <= q < base ==> #[trigger] self.dofs@[q] == old(self).dofs@[q],
                    forall|q: int|
                        0 <= q < self.dofs@.len() ==> (#[trigger] self.dofs@[q]).id == q,
                    forall|s: int|
                        0 <= s < specs@.len() ==> {
                            let bs = #[trigger] specs@[s];
                            &&& bs.elem_id == k
                            &&& base <= bs.dof_id < self.dofs@.len()
                            &&& self.dofs@[bs.dof_id as int] == (DoF {
                                id: bs.dof_id,
                                elem_id: k,
                                dir: bs.dir,
                                orders: bs.orders,
                            })
                        },
                    forall|q: int|
                        0 <= q < old(self).dofs@.len() ==> (#[trigger] old(self).dofs@[q]).id == q,
                decreases imax + 1 - i,
            {
                let mut j: usize = 0;
                while j <= jmax
                    invariant
                        self.mesh == old(self).mesh,
                        self.basis_specs == old(self).basis_specs,
                        k < self.mesh.elems@.len(),
                        imax == self.mesh.elems@[k as int].poly_orders.i as int,
                        jmax == self.mesh.elems@[k as int].poly_orders.j as int,
                        base == old(self).dofs@.len() as int,
                        i <= imax,
                        base <= dir_base,
                        0 <= j <= jmax + 1,
                        self.dofs@.len() == dir_base + i * (jmax as int + 1) + j,
                        specs@.len() == self.dofs@.len() - base,
                        forall|q: int| 0 <= q < base ==> #[trigger] self.dofs@[q] == old(self).dofs@[q],
                        forall|q: int|
                            0 <= q < self.dofs@.len() ==> (#[trigger] self.dofs@[q]).id == q,
                        forall|s: int|
                            0 <= s < specs@.len() ==> {
                                let bs = #[trigger] specs@[s];
                                &&& bs.elem_id == k
                                &&& base <= bs.dof_id < self.dofs@.len()
                                &&& self.dofs@[bs.dof_id as int] == (DoF {
                                    id: bs.dof_id,
                                    elem_id: k,
                                    dir: bs.dir,
                                    orders: bs.orders,
                                })
                            },
                        forall|q: int|
                            0 <= q < old(self).dofs@.len() ==> (#[trigger] old(self).dofs@[q]).id == q,
                    decreases jmax + 1 - j,
                {
                    let dof_id = self.dofs.len();
                    self.dofs.push(DoF { id: dof_id, elem_id: k, dir, orders: [i, j] });
                    specs.push(BasisSpec { orders: [i, j], dir, dof_id, elem_id: k });
                    j += 1;
                }
                proof {
                    assert((i as int + 1) * (jmax as int + 1) == i as int * (jmax as int + 1) + (
                    jmax as int + 1)) by (nonlinear_arith);
                }
                i += 1;
            }
            proof {
                assert((imax as int + 1) * (jmax as int + 1) == per_dir);
                assert((d as int + 1) * per_dir == d as int * per_dir + per_dir) by (
                nonlinear_arith);
                assert(self.dofs@.len() == dir_base + per_dir);
            }
            d += 1;
        }
        proof {
            assert(elem_dof_count(self.mesh.elems@[k as int]) == 2 * per_dir);
        }
        specs
    }
}

} // verus!
