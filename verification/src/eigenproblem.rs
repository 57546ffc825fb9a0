//! The generalized eigenproblem handed to an external sparse solver.

use crate::aij::AIJMatrix;
use vstd::prelude::*;

verus! {

/// Generalized eigenproblem `A u = lambda B u`, held as a pair of
/// compressed-row system matrices of identical dimension.
pub struct GEP {
    pub a: AIJMatrix,
    pub b: AIJMatrix,
}

impl GEP {
    /// Pair two system matrices of identical dimension.
    pub fn new(a: AIJMatrix, b: AIJMatrix) -> (r: GEP)
        requires
            a.dim == b.dim,
        ensures
            r.a == a,
            r.b == b,
    {
        GEP { a, b }
    }
}

} // verus!
