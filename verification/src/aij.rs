//! Compressed-row forms of a symmetric sparse matrix.
//!
//! [`AIJMatrix`] materializes both triangles of a [`SparseMatrix`] in
//! row-offset / column-index / value form, sorted by row and then column,
//! as consumed by an external sparse eigensolver. [`AIJMatrixBinary`]
//! carries per-row entry counts instead of offsets, for file export.

use crate::scalar::ZERO_BITS;
use crate::sparse_matrix::canon_key;
use crate::sparse_matrix::grid_cells;
use crate::sparse_matrix::lemma_symmetric_cell_count;
use crate::sparse_matrix::row_cells;
use crate::sparse_matrix::spec_diag_count;
use crate::sparse_matrix::sym_spec;
use crate::sparse_matrix::SparseMatrix;
use vstd::prelude::*;

verus! {

/// Compressed-row form: row offsets `i` (length `dim + 1`), column indices
/// `j`, values `a` as IEEE-754 bit patterns, both triangles present.
pub struct AIJMatrix {
    pub a: Vec<u64>,
    pub i: Vec<i32>,
    pub j: Vec<i32>,
    pub dim: usize,
}

/// Compressed-row layout for binary export: `i` holds the per-row entry
/// counts rather than running offsets.
pub struct AIJMatrixBinary {
    pub a: Vec<u64>,
    pub i: Vec<i32>,
    pub j: Vec<i32>,
    pub dim: usize,
}

/// Scanning the column indices `j[lo..hi]` for column `c`: the first
/// matching value of `a`, or zero where none matches.
pub open spec fn aij_row_lookup(j: Seq<i32>, a: Seq<u64>, lo: int, hi: int, c: int) -> u64
    decreases hi - lo,
{
    if lo < 0 || lo >= hi || hi > j.len() || hi > a.len() {
        ZERO_BITS
    } else if j[lo] as int == c {
        a[lo]
    } else {
        aij_row_lookup(j, a, lo + 1, hi, c)
    }
}

/// The value the compressed-row structure holds at `(r, c)`.
pub open spec fn aij_cell(m: AIJMatrix, r: int, c: int) -> u64 {
    aij_row_lookup(m.j@, m.a@, m.i@[r] as int, m.i@[r + 1] as int, c)
}

/// Offsets are monotone, bracket the value list, and column indices are in
/// range.
pub open spec fn aij_wf(m: AIJMatrix) -> bool {
    &&& m.dim <= i32::MAX as usize
    &&& m.i@.len() == m.dim + 1
    &&& m.a@.len() == m.j@.len()
    &&& m.i@[0] == 0
    &&& forall|t: int| 0 <= t < m.dim ==> (#[trigger] m.i@[t]) as int <= m.i@[t + 1] as int
    &&& forall|t: int| 0 <= t <= m.dim ==> 0 <= (#[trigger] m.i@[t]) as int <= m.a@.len()
    &&& m.i@[m.dim as int] as int == m.a@.len()
    &&& forall|k: int| 0 <= k < m.j@.len() ==> 0 <= ((#[trigger] m.j@[k]) as int) && ((#[trigger] m.j@[k]) as int) < m.dim
}

/// A lookup only reads `j[lo..hi]` and `a[lo..hi]`, so extending both lists
/// past `hi` leaves its result unchanged.
proof fn lemma_lookup_extend(
    j1: Seq<i32>,
    a1: Seq<u64>,
    j2: Seq<i32>,
    a2: Seq<u64>,
    lo: int,
    hi: int,
    c: int,
)
    requires
        hi <= j1.len(),
        hi <= a1.len(),
        j1.len() <= j2.len(),
        a1.len() <= a2.len(),
        forall|k: int| 0 <= k < j1.len() ==> j2[k] == j1[k],
        forall|k: int| 0 <= k < a1.len() ==> a2[k] == a1[k],
    ensures
        aij_row_lookup(j2, a2, lo, hi, c) == aij_row_lookup(j1, a1, lo, hi, c),
    decreases hi - lo,
{
    if lo >= 0 && lo < hi {
        lemma_lookup_extend(j1, a1, j2, a2, lo + 1, hi, c);
    }
}

/// Where no column in the range matches, the lookup is zero.
proof fn lemma_lookup_absent(j: Seq<i32>, a: Seq<u64>, lo: int, hi: int, c: int)
    requires
        hi <= j.len(),
        hi <= a.len(),
        forall|k: int| lo <= k < hi ==> (#[trigger] j[k]) as int != c,
    ensures
        aij_row_lookup(j, a, lo, hi, c) == ZERO_BITS,
    decreases hi - lo,
{
    if lo >= 0 && lo < hi {
        lemma_lookup_absent(j, a, lo + 1, hi, c);
    }
}

/// The lookup returns the value at the first matching column.
proof fn lemma_lookup_found(j: Seq<i32>, a: Seq<u64>, lo: int, hi: int, k: int, c: int)
    requires
        hi <= j.len(),
        hi <= a.len(),
        0 <= lo <= k < hi,
        j[k] as int == c,
        forall|p: int| lo <= p < k ==> (#[trigger] j[p]) as int != c,
    ensures
        aij_row_lookup(j, a, lo, hi, c) == a[k],
    decreases hi - lo,
{
    if lo < k {
        lemma_lookup_found(j, a, lo + 1, hi, k, c);
    }
}

impl SparseMatrix {
    /// Convert to compressed-row form with both triangles materialized and
    /// entries sorted by row and then column.
    ///
    /// The format's offsets and column indices are 32-bit, so the dimension
    /// is required to be small enough for every cell count to fit.
    pub fn to_aij(&self) -> (m: AIJMatrix)
        requires
            self.wf(),
            self.dimension * self.dimension <= i32::MAX as usize,
        ensures
            m.dim == self.dimension,
            aij_wf(m),
            forall|r: int, c: int|
                0 <= r < m.dim && 0 <= c < m.dim ==> #[trigger] aij_cell(m, r, c) == sym_spec(
                    self.model(),
                    r,
                    c,
                ),
            m.a@.len() as int == 2 * self.entries_seq().len() - spec_diag_count(
                self.entries_seq(),
            ),
            forall|rr: int|
                0 <= rr < m.dim ==> (#[trigger] m.i@[rr + 1]) as int - m.i@[rr] as int
                    == row_cells(self.model(), rr, m.dim as int),
            forall|rr: int, k1: int, k2: int|
                0 <= rr < m.dim && (#[trigger] m.i@[rr]) as int <= k1 < k2 < m.i@[rr + 1] as int
                    ==> ((#[trigger] m.j@[k1]) as int) < ((#[trigger] m.j@[k2]) as int),
    {
        let dim = self.dimension;
        let ghost md = self.model();
        let mut a: Vec<u64> = Vec::new();
        let mut j: Vec<i32> = Vec::new();
        let mut ioff: Vec<i32> = Vec::new();
        ioff.push(0);
        let mut r: usize = 0;
        while r < dim
            invariant
                self.wf(),
                md == self.model(),
                dim == self.dimension,
                dim * dim <= i32::MAX as usize,
                0 <= r <= dim,
                a@.len() == j@.len(),
                a@.len() <= r * dim,
                ioff@.len() == r + 1,
                ioff@[0] == 0,
                forall|t: int| 0 <= t <= r ==> 0 <= (#[trigger] ioff@[t]) as int <= a@.len(),
                forall|t: int| 0 <= t < r ==> (#[trigger] ioff@[t]) as int <= ioff@[t + 1] as int,
                ioff@[r as int] as int == a@.len(),
                a@.len() as int == grid_cells(md, dim as int, r as int),
                forall|rr: int|
                    0 <= rr < r ==> (#[trigger] ioff@[rr + 1]) as int - ioff@[rr] as int
                        == row_cells(md, rr, dim as int),
                forall|rr: int, k1: int, k2: int|
                    0 <= rr < r && (#[trigger] ioff@[rr]) as int <= k1 < k2 < ioff@[rr + 1] as int
                        ==> ((#[trigger] j@[k1]) as int) < ((#[trigger] j@[k2]) as int),
                forall|k: int| 0 <= k < j@.len() ==> 0 <= ((#[trigger] j@[k]) as int) && ((#[trigger] j@[k]) as int) < dim,
                forall|rr: int, cc: int|
                    0 <= rr < r && 0 <= cc < dim ==> #[trigger] aij_row_lookup(
                        j@,
                        a@,
                        ioff@[rr] as int,
                        ioff@[rr + 1] as int,
                        cc,
                    ) == sym_spec(md, rr, cc),
            decreases dim - r,
        {
            proof {
                assert((dim as int) <= i32::MAX as int) by (nonlinear_arith)
                    requires
                        (dim as int) * (dim as int) <= i32::MAX as int,
                        dim as int >= 1,
                ;
            }
            let ghost j_before = j@;
            let ghost a_before = a@;
            let row_start = a.len();
            let mut c: usize = 0;
            while c < dim
                invariant
                    self.wf(),
                    md == self.model(),
                    dim == self.dimension,
                    dim * dim <= i32::MAX as usize,
                    dim <= i32::MAX as usize,
                    0 <= r < dim,
                    0 <= c <= dim,
                    a@.len() == j@.len(),
                    row_start <= a@.len() <= row_start + c,
                    row_start == a_before.len(),
                    ioff@.len() == r + 1,
                    ioff@[r as int] as int == row_start as int,
                    forall|t: int| 0 <= t <= r ==> 0 <= (#[trigger] ioff@[t]) as int <= row_start,
                    forall|t: int| 0 <= t < r ==> (#[trigger] ioff@[t]) as int <= ioff@[t + 1] as int,
                    forall|rr: int|
                        0 <= rr < r ==> (#[trigger] ioff@[rr + 1]) as int - ioff@[rr] as int
                            == row_cells(md, rr, dim as int),
                    forall|rr: int, k1: int, k2: int|
                        0 <= rr < r && (#[trigger] ioff@[rr]) as int <= k1 < k2 < ioff@[rr + 1] as int
                            ==> ((#[trigger] j@[k1]) as int) < ((#[trigger] j@[k2]) as int),
                    a@.len() as int == grid_cells(md, dim as int, r as int) + row_cells(
                        md,
                        r as int,
                        c as int,
                    ),
                    j_before.len() == a_before.len(),
                    j@.len() >= j_before.len(),
                    forall|k: int| 0 <= k < j_before.len() ==> j@[k] == j_before[k],
                    forall|k: int| 0 <= k < a_before.len() ==> a@[k] == a_before[k],
                    forall|k: int| 0 <= k < j@.len() ==> 0 <= ((#[trigger] j@[k]) as int) && ((#[trigger] j@[k]) as int) < dim,
                    forall|k: int|
                        row_start <= k < j@.len() ==> 0 <= ((#[trigger] j@[k]) as int) && ((#[trigger] j@[k]) as int) < c,
                    forall|k1: int, k2: int|
                        row_start <= k1 < k2 < j@.len() ==> (j@[k1] as int) < j@[k2] as int,
                    forall|k: int|
                        row_start <= k < j@.len() ==> md.dom().contains(
                            canon_key(r as int, (#[trigger] j@[k]) as int),
                        ) && a@[k] == md[canon_key(r as int, j@[k] as int)],
                    forall|cc: int|
                        0 <= cc < c && md.dom().contains(canon_key(r as int, cc))
                            ==> exists|k: int|
                            row_start <= k < j@.len() && (#[trigger] j@[k]) as int == cc,
                decreases dim - c,
            {
                let ghost j_prev = j@;
                match self.get_entry_canon(r, c) {
                    Some(v) => {
                        a.push(v);
                        j.push(#[verifier::truncate] (c as i32));
                        proof {
                            assert(j@ == j_prev.push(c as i32));
                            assert(j@[j@.len() - 1] as int == c as int);
                            assert forall|cc: int|
                                0 <= cc < c + 1 && md.dom().contains(
                                    canon_key(r as int, cc),
                                ) implies exists|k: int|
                                row_start <= k < j@.len() && (#[trigger] j@[k]) as int == cc by {
                                if cc == c as int {
                                    assert((j@[j@.len() - 1]) as int == cc);
                                } else {
                                    let k = choose|k: int|
                                        row_start <= k < j_prev.len() && (#[trigger] j_prev[k])
                                            as int == cc;
                                    assert(j@[k] as int == cc);
                                }
                            }
                        }
                    },
                    None => {
                        proof {
                            assert forall|cc: int|
                                0 <= cc < c + 1 && md.dom().contains(
                                    canon_key(r as int, cc),
                                ) implies exists|k: int|
                                row_start <= k < j@.len() && (#[trigger] j@[k]) as int == cc by {
                                if cc == c as int {
                                    assert(!md.dom().contains(canon_key(r as int, c as int)));
                                }
                            }
                        }
                    },
                }
                c += 1;
            }
            proof {
                // this row's block answers every column lookup
                assert forall|cc: int| 0 <= cc < dim implies #[trigger] aij_row_lookup(
                    j@,
                    a@,
                    row_start as int,
                    a@.len() as int,
                    cc,
                ) == sym_spec(md, r as int, cc) by {
                    if md.dom().contains(canon_key(r as int, cc)) {
                        let k = choose|k: int|
                            row_start <= k < j@.len() && (#[trigger] j@[k]) as int == cc;
                        assert forall|p: int| row_start <= p < k implies (#[trigger] j@[p]) as int
                            != cc by {
                            assert((j@[p] as int) < j@[k] as int);
                        }
                        lemma_lookup_found(j@, a@, row_start as int, a@.len() as int, k, cc);
                    } else {
                        assert forall|k: int| row_start <= k < a@.len() implies (
                        #[trigger] j@[k]) as int != cc by {
                            if j@[k] as int == cc {
                                assert(md.dom().contains(canon_key(r as int, cc)));
                            }
                        }
                        lemma_lookup_absent(j@, a@, row_start as int, a@.len() as int, cc);
                    }
                }
                // earlier rows are untouched
                assert forall|rr: int, cc: int| 0 <= rr < r && 0 <= cc < dim implies
                    #[trigger] aij_row_lookup(
                    j@,
                    a@,
                    ioff@[rr] as int,
                    ioff@[rr + 1] as int,
                    cc,
                ) == sym_spec(md, rr, cc) by {
                    lemma_lookup_extend(
                        j_before,
                        a_before,
                        j@,
                        a@,
                        ioff@[rr] as int,
                        ioff@[rr + 1] as int,
                        cc,
                    );
                }
                assert(a@.len() <= (r + 1) * dim) by (nonlinear_arith)
                    requires
                        a@.len() <= r * dim + dim,
                ;
                assert((r + 1) * dim <= dim * dim) by (nonlinear_arith)
                    requires
                        r + 1 <= dim,
                        dim >= 0,
                ;
            }
            ioff.push(#[verifier::truncate] (a.len() as i32));
            proof {
                assert(ioff@[r + 1] as int == a@.len() as int);
            }
            r += 1;
        }
        proof {
            lemma_symmetric_cell_count(*self);
        }
        let m = AIJMatrix { a, i: ioff, j, dim };
        proof {
            if dim >= 1 {
                assert((dim as int) <= i32::MAX as int) by (nonlinear_arith)
                    requires
                        (dim as int) * (dim as int) <= i32::MAX as int,
                        dim as int >= 1,
                ;
            }
            assert forall|rr: int, cc: int| 0 <= rr < m.dim && 0 <= cc < m.dim implies
                #[trigger] aij_cell(m, rr, cc) == sym_spec(self.model(), rr, cc) by {
                assert(aij_cell(m, rr, cc) == aij_row_lookup(
                    m.j@,
                    m.a@,
                    m.i@[rr] as int,
                    m.i@[rr + 1] as int,
                    cc,
                ));
            }
        }
        m
    }
}

impl AIJMatrix {
    /// The value stored for row `r` at column `c`, scanning the row's block.
    fn row_value(&self, lo: usize, hi: usize, c: i32) -> (v: u64)
        requires
            hi <= self.j@.len(),
            hi <= self.a@.len(),
        ensures
            v == aij_row_lookup(self.j@, self.a@, lo as int, hi as int, c as int),
    {
        let mut k = lo;
        while k < hi
            invariant
                hi <= self.j@.len(),
                hi <= self.a@.len(),
                lo <= k <= hi || (k == lo && lo > hi),
                k >= lo,
                aij_row_lookup(self.j@, self.a@, lo as int, hi as int, c as int)
                    == aij_row_lookup(self.j@, self.a@, k as int, hi as int, c as int),
            decreases hi - k,
        {
            if self.j[k] == c {
                return self.a[k];
            }
            k += 1;
        }
        ZERO_BITS
    }

    /// Expand back to a dense square structure, cell by cell.
    pub fn to_dense(&self) -> (d: Vec<Vec<u64>>)
        requires
            aij_wf(*self),
        ensures
            d@.len() == self.dim,
            forall|r: int| 0 <= r < self.dim ==> (#[trigger] d@[r])@.len() == self.dim,
            forall|r: int, c: int|
                0 <= r < self.dim && 0 <= c < self.dim ==> (#[trigger] d@[r]@[c]) == aij_cell(
                    *self,
                    r,
                    c,
                ),
    {
        let mut d: Vec<Vec<u64>> = Vec::new();
        let mut r: usize = 0;
        while r < self.dim
            invariant
                aij_wf(*self),
                0 <= r <= self.dim,
                d@.len() == r,
                forall|rr: int| 0 <= rr < r ==> (#[trigger] d@[rr])@.len() == self.dim,
                forall|rr: int, cc: int|
                    0 <= rr < r && 0 <= cc < self.dim ==> (#[trigger] d@[rr]@[cc]) == aij_cell(
                        *self,
                        rr,
                        cc,
                    ),
            decreases self.dim - r,
        {
            let lo_i = self.i[r];
            let hi_i = self.i[r + 1];
            let lo = lo_i as usize;
            let hi = hi_i as usize;
            let mut row: Vec<u64> = Vec::new();
            let mut c: usize = 0;
            while c < self.dim
                invariant
                    aij_wf(*self),
                    0 <= r < self.dim,
                    0 <= c <= self.dim,
                    lo == self.i@[r as int] as int,
                    hi == self.i@[r as int + 1] as int,
                    row@.len() == c,
                    forall|cc: int|
                        0 <= cc < c ==> (#[trigger] row@[cc]) == aij_cell(*self, r as int, cc),
                decreases self.dim - c,
            {
                let v = self.row_value(lo, hi, #[verifier::truncate] (c as i32));
                row.push(v);
                proof {
                    assert(c as i32 as int == c as int);
                }
                c += 1;
            }
            d.push(row);
            r += 1;
        }
        d
    }

    /// Replace the running row offsets by per-row entry counts.
    pub fn to_binary(self) -> (b: AIJMatrixBinary)
        requires
            aij_wf(self),
        ensures
            b.dim == self.dim,
            b.a@ == self.a@,
            b.j@ == self.j@,
            b.i@.len() == self.dim,
            forall|t: int|
                0 <= t < self.dim ==> (#[trigger] b.i@[t]) as int == self.i@[t + 1] as int
                    - self.i@[t] as int,
    {
        let mut counts: Vec<i32> = Vec::new();
        let mut t: usize = 0;
        while t < self.dim
            invariant
                aij_wf(self),
                0 <= t <= self.dim,
                counts@.len() == t,
                forall|p: int|
                    0 <= p < t ==> (#[trigger] counts@[p]) as int == self.i@[p + 1] as int
                        - self.i@[p] as int,
            decreases self.dim - t,
        {
            counts.push(self.i[t + 1] - self.i[t]);
            t += 1;
        }
        AIJMatrixBinary { a: self.a, i: counts, j: self.j, dim: self.dim }
    }
}

/// Format tag of the binary sparse-matrix layout.
pub const PETSC_MAT_TAG: u32 = 1211216;

/// Big-endian bytes of a 32-bit field.
pub open spec fn be32(v: u32) -> Seq<u8> {
    seq![
        ((v >> 24) & 0xFF) as u8,
        ((v >> 16) & 0xFF) as u8,
        ((v >> 8) & 0xFF) as u8,
        (v & 0xFF) as u8,
    ]
}

/// Big-endian bytes of a 64-bit field.
pub open spec fn be64(v: u64) -> Seq<u8> {
    seq![
        ((v >> 56) & 0xFF) as u8,
        ((v >> 48) & 0xFF) as u8,
        ((v >> 40) & 0xFF) as u8,
        ((v >> 32) & 0xFF) as u8,
        ((v >> 24) & 0xFF) as u8,
        ((v >> 16) & 0xFF) as u8,
        ((v >> 8) & 0xFF) as u8,
        (v & 0xFF) as u8,
    ]
}

/// Each 32-bit field of `s`, big-endian, in order.
pub open spec fn fields32_bytes(s: Seq<i32>) -> Seq<u8>
    decreases s.len(),
{
    if s.len() == 0 {
        Seq::<u8>::empty()
    } else {
        fields32_bytes(s.drop_last()) + be32(s.last() as u32)
    }
}

/// Each 64-bit field of `s`, big-endian, in order.
pub open spec fn fields64_bytes(s: Seq<u64>) -> Seq<u8>
    decreases s.len(),
{
    if s.len() == 0 {
        Seq::<u8>::empty()
    } else {
        fields64_bytes(s.drop_last()) + be64(s.last())
    }
}

/// The whole binary layout: a four-field 32-bit header (format tag, row
/// count, column count, non-zero count), then per-row counts, column
/// indices, and values, each as a fixed-width big-endian field.
pub open spec fn spec_petsc_bytes(m: AIJMatrixBinary) -> Seq<u8> {
    be32(PETSC_MAT_TAG) + be32(m.dim as u32) + be32(m.dim as u32) + be32(m.a@.len() as u32)
        + fields32_bytes(m.i@) + fields32_bytes(m.j@) + fields64_bytes(m.a@)
}

/// Append the big-endian bytes of one 32-bit field.
fn push_u32_be(buf: &mut Vec<u8>, v: u32)
    ensures
        final(buf)@ == old(buf)@ + be32(v),
{
    buf.push(((v >> 24) & 0xFF) as u8);
    buf.push(((v >> 16) & 0xFF) as u8);
    buf.push(((v >> 8) & 0xFF) as u8);
    buf.push((v & 0xFF) as u8);
    proof {
        assert(buf@ =~= old(buf)@ + be32(v));
    }
}

/// Append the big-endian bytes of one 64-bit field.
fn push_u64_be(buf: &mut Vec<u8>, v: u64)
    ensures
        final(buf)@ == old(buf)@ + be64(v),
{
    buf.push(((v >> 56) & 0xFF) as u8);
    buf.push(((v >> 48) & 0xFF) as u8);
    buf.push(((v >> 40) & 0xFF) as u8);
    buf.push(((v >> 32) & 0xFF) as u8);
    buf.push(((v >> 24) & 0xFF) as u8);
    buf.push(((v >> 16) & 0xFF) as u8);
    buf.push(((v >> 8) & 0xFF) as u8);
    buf.push((v & 0xFF) as u8);
    proof {
        assert(buf@ =~= old(buf)@ + be64(v));
    }
}

impl AIJMatrixBinary {
    /// Lay the matrix out in its fixed-width binary interchange form. The
    /// caller writes the returned bytes to a file.
    pub fn to_petsc_binary_format(&self) -> (bytes: Vec<u8>)
        requires
            self.dim <= u32::MAX as usize,
            self.a@.len() <= u32::MAX as usize,
            forall|t: int| 0 <= t < self.i@.len() ==> (#[trigger] self.i@[t]) >= 0,
            forall|t: int| 0 <= t < self.j@.len() ==> (#[trigger] self.j@[t]) >= 0,
        ensures
            bytes@ == spec_petsc_bytes(*self),
    {
        let mut buf: Vec<u8> = Vec::new();
        push_u32_be(&mut buf, PETSC_MAT_TAG);
        push_u32_be(&mut buf, self.dim as u32);
        push_u32_be(&mut buf, self.dim as u32);
        push_u32_be(&mut buf, self.a.len() as u32);
        let ghost header = buf@;

        let mut t: usize = 0;
        while t < self.i.len()
            invariant
                forall|p: int| 0 <= p < self.i@.len() ==> (#[trigger] self.i@[p]) >= 0,
                0 <= t <= self.i@.len(),
                buf@ == header + fields32_bytes(self.i@.take(t as int)),
            decreases self.i@.len() - t,
        {
            push_u32_be(&mut buf, self.i[t] as u32);
            proof {
                assert(self.i@.take(t + 1).drop_last() =~= self.i@.take(t as int));
                assert(buf@ =~= header + fields32_bytes(self.i@.take(t + 1)));
            }
            t += 1;
        }
        proof {
            assert(self.i@.take(self.i@.len() as int) =~= self.i@);
        }
        let ghost with_counts = buf@;

        let mut t2: usize = 0;
        while t2 < self.j.len()
            invariant
                forall|p: int| 0 <= p < self.j@.len() ==> (#[trigger] self.j@[p]) >= 0,
                0 <= t2 <= self.j@.len(),
                buf@ == with_counts + fields32_bytes(self.j@.take(t2 as int)),
            decreases self.j@.len() - t2,
        {
            push_u32_be(&mut buf, self.j[t2] as u32);
            proof {
                assert(self.j@.take(t2 + 1).drop_last() =~= self.j@.take(t2 as int));
                assert(buf@ =~= with_counts + fields32_bytes(self.j@.take(t2 + 1)));
            }
            t2 += 1;
        }
        proof {
            assert(self.j@.take(self.j@.len() as int) =~= self.j@);
        }
        let ghost with_cols = buf@;

        let mut t3: usize = 0;
        while t3 < self.a.len()
            invariant
                0 <= t3 <= self.a@.len(),
                buf@ == with_cols + fields64_bytes(self.a@.take(t3 as int)),
            decreases self.a@.len() - t3,
        {
            push_u64_be(&mut buf, self.a[t3]);
            proof {
                assert(self.a@.take(t3 + 1).drop_last() =~= self.a@.take(t3 as int));
                assert(buf@ =~= with_cols + fields64_bytes(self.a@.take(t3 + 1)));
            }
            t3 += 1;
        }
        proof {
            assert(self.a@.take(self.a@.len() as int) =~= self.a@);
            assert(buf@ =~= spec_petsc_bytes(*self));
        }
        buf
    }
}

/// Round trip: expanding a matrix's compressed-row form cell by cell gives
/// exactly the dense expansion of the matrix itself. The two dense
/// structures here stand for the results of [`AIJMatrix::to_dense`] on
/// [`SparseMatrix::to_aij`] and of [`SparseMatrix::to_dense`], each pinned
/// by its function's contract.
pub proof fn lemma_aij_round_trip(
    sm: SparseMatrix,
    m: AIJMatrix,
    d_direct: Seq<Seq<u64>>,
    d_via_aij: Seq<Seq<u64>>,
)
    requires
        sm.wf(),
        m.dim == sm.dimension,
        forall|r: int, c: int|
            0 <= r < m.dim && 0 <= c < m.dim ==> #[trigger] aij_cell(m, r, c) == sym_spec(
                sm.model(),
                r,
                c,
            ),
        d_direct.len() == sm.dimension,
        forall|r: int| 0 <= r < sm.dimension ==> (#[trigger] d_direct[r]).len() == sm.dimension,
        forall|r: int, c: int|
            0 <= r < sm.dimension && 0 <= c < sm.dimension ==> (#[trigger] d_direct[r][c])
                == sym_spec(sm.model(), r, c),
        d_via_aij.len() == m.dim,
        forall|r: int| 0 <= r < m.dim ==> (#[trigger] d_via_aij[r]).len() == m.dim,
        forall|r: int, c: int|
            0 <= r < m.dim && 0 <= c < m.dim ==> (#[trigger] d_via_aij[r][c]) == aij_cell(
                m,
                r,
                c,
            ),
    ensures
        d_direct == d_via_aij,
{
    assert forall|r: int| 0 <= r < d_direct.len() implies d_direct[r] == d_via_aij[r] by {
        assert forall|c: int| 0 <= c < d_direct[r].len() implies d_direct[r][c]
            == d_via_aij[r][c] by {
            assert(d_direct[r][c] == sym_spec(sm.model(), r, c));
        }
        assert(d_direct[r] =~= d_via_aij[r]);
    }
    assert(d_direct =~= d_via_aij);
}

} // verus!
