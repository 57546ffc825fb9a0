//! Symmetric sparse matrices stored as an ordered upper triangle.
//!
//! A [`SparseMatrix`] keeps one entry per canonical `(row <= col)` index
//! pair, ordered by row and then column, and accumulates values on repeated
//! insertion. The mathematical model of a matrix is a finite map from
//! canonical index pairs to stored bit patterns; every operation's contract
//! is stated against that map.

use crate::scalar::add_bits;
use crate::scalar::add_f;
use vstd::map::*;
use vstd::prelude::*;

verus! {

/// One stored entry of the upper triangle: `row <= col`, with the value
/// carried as an IEEE-754 bit pattern.
#[derive(Clone, Copy, Debug)]
pub struct MatrixEntry {
    pub row: u32,
    pub col: u32,
    pub value: u64,
}

/// The index pair of an entry, as mathematical integers.
pub open spec fn entry_key(e: MatrixEntry) -> (int, int) {
    (e.row as int, e.col as int)
}

/// Row-major order on index pairs.
pub open spec fn key_lt(a: (int, int), b: (int, int)) -> bool {
    a.0 < b.0 || (a.0 == b.0 && a.1 < b.1)
}

/// The canonical (upper-triangle) form of an index pair.
pub open spec fn canon_key(r: int, c: int) -> (int, int) {
    if r <= c {
        (r, c)
    } else {
        (c, r)
    }
}

/// The entries of `s`, read as a map from index pairs to values.
pub open spec fn seq_model(s: Seq<MatrixEntry>) -> Map<(int, int), u64> {
    Map::new(
        |k: (int, int)| exists|i: int| 0 <= i < s.len() && entry_key(#[trigger] s[i]) == k,
        |k: (int, int)|
            {
                let i = choose|i: int| 0 <= i < s.len() && entry_key(#[trigger] s[i]) == k;
                s[i].value
            },
    )
}

/// Entries lie in the upper triangle of a `dim`-sized square and are strictly
/// ordered, so every index pair occurs at most once.
pub open spec fn entries_wf(s: Seq<MatrixEntry>, dim: int) -> bool {
    &&& forall|i: int|
        0 <= i < s.len() ==> (#[trigger] s[i]).row <= s[i].col && (s[i].col as int) < dim
    &&& forall|i: int, j: int|
        0 <= i < j < s.len() ==> key_lt(entry_key(#[trigger] s[i]), entry_key(#[trigger] s[j]))
}

/// How many entries of `s` lie on the diagonal.
pub open spec fn spec_diag_count(s: Seq<MatrixEntry>) -> int
    decreases s.len(),
{
    if s.len() == 0 {
        0
    } else {
        spec_diag_count(s.drop_last()) + if s.last().row == s.last().col {
            1int
        } else {
            0int
        }
    }
}

/// Inserting `(r, c, v)`: the pair is canonicalized to the upper triangle and
/// `v` is added to an existing value, or stored as a new entry.
pub open spec fn spec_insert(m: Map<(int, int), u64>, r: int, c: int, v: u64) -> Map<
    (int, int),
    u64,
> {
    let k = canon_key(r, c);
    if m.dom().contains(k) {
        m.insert(k, add_bits(m[k], v))
    } else {
        m.insert(k, v)
    }
}

/// The element-wise accumulation of two entry maps.
pub open spec fn spec_merge(a: Map<(int, int), u64>, b: Map<(int, int), u64>) -> Map<
    (int, int),
    u64,
> {
    Map::new(
        |k: (int, int)| a.dom().contains(k) || b.dom().contains(k),
        |k: (int, int)|
            if a.dom().contains(k) && b.dom().contains(k) {
                add_bits(a[k], b[k])
            } else if b.dom().contains(k) {
                b[k]
            } else {
                a[k]
            },
    )
}

/// Strict order is irreflexive and total, so ordered entries have unique keys.
proof fn lemma_key_unique(s: Seq<MatrixEntry>, i: int, j: int)
    requires
        forall|p: int, q: int|
            0 <= p < q < s.len() ==> key_lt(
                entry_key(#[trigger] s[p]),
                entry_key(#[trigger] s[q]),
            ),
        0 <= i < s.len(),
        0 <= j < s.len(),
        entry_key(s[i]) == entry_key(s[j]),
    ensures
        i == j,
{
    if i < j {
        assert(key_lt(entry_key(s[i]), entry_key(s[j])));
    } else if j < i {
        assert(key_lt(entry_key(s[j]), entry_key(s[i])));
    }
}

/// The model of an ordered entry sequence holds exactly the listed pairs,
/// each at its listed value.
proof fn lemma_model_at(s: Seq<MatrixEntry>, i: int)
    requires
        forall|p: int, q: int|
            0 <= p < q < s.len() ==> key_lt(
                entry_key(#[trigger] s[p]),
                entry_key(#[trigger] s[q]),
            ),
        0 <= i < s.len(),
    ensures
        seq_model(s).dom().contains(entry_key(s[i])),
        seq_model(s)[entry_key(s[i])] == s[i].value,
{
    let k = entry_key(s[i]);
    assert(seq_model(s).dom().contains(k));
    let j = choose|j: int| 0 <= j < s.len() && entry_key(#[trigger] s[j]) == k;
    lemma_key_unique(s, i, j);
}

/// Wrapper around an ordered upper-triangle entry list, storing a square
/// symmetric matrix in a sparse data structure.
pub struct SparseMatrix {
    /// Size of the square matrix.
    pub dimension: usize,
    /// Matrix entries, ordered by row and then column.
    pub entries: Vec<MatrixEntry>,
}

impl SparseMatrix {
    /// The stored upper-triangle entries, in storage order.
    pub open spec fn entries_seq(self) -> Seq<MatrixEntry> {
        self.entries@
    }

    /// The matrix as a map from canonical index pairs to values.
    pub open spec fn model(self) -> Map<(int, int), u64> {
        seq_model(self.entries_seq())
    }

    /// Dimension fits a `u32` index and the entry list is ordered upper-triangle.
    pub open spec fn wf(self) -> bool {
        &&& self.dimension <= u32::MAX as usize
        &&& entries_wf(self.entries_seq(), self.dimension as int)
    }

    /// An empty matrix of the given dimension.
    pub fn new(dimension: usize) -> (r: Self)
        requires
            dimension <= u32::MAX as usize,
        ensures
            r.wf(),
            r.dimension == dimension,
            r.entries_seq().len() == 0,
            r.model() == Map::<(int, int), u64>::empty(),
    {
        let r = Self { dimension, entries: Vec::new() };
        proof {
            assert(r.model() =~= Map::<(int, int), u64>::empty());
        }
        r
    }

    /// Insert a value into the matrix. Assumes symmetry: row/column order
    /// does not matter; the value accumulates into any existing entry.
    pub fn insert(&mut self, coordinates: [usize; 2], value: u64)
        requires
            old(self).wf(),
            coordinates[0] < old(self).dimension,
            coordinates[1] < old(self).dimension,
        ensures
            final(self).wf(),
            final(self).dimension == old(self).dimension,
            final(self).model() == spec_insert(
                old(self).model(),
                coordinates[0] as int,
                coordinates[1] as int,
                value,
            ),
    {
        let row_idx = coordinates[0];
        let col_idx = coordinates[1];
        let (r, c): (u32, u32) = if row_idx <= col_idx {
            (row_idx as u32, col_idx as u32)
        } else {
            (col_idx as u32, row_idx as u32)
        };
        let ghost target = canon_key(row_idx as int, col_idx as int);
        assert(target == (r as int, c as int));

        let mut i: usize = 0;
        while i < self.entries.len() && (self.entries[i].row < r || (self.entries[i].row == r
            && self.entries[i].col < c))
            invariant
                *self == *old(self),
                target == (r as int, c as int),
                0 <= i <= self.entries@.len(),
                forall|j: int|
                    0 <= j < i ==> key_lt(entry_key(#[trigger] self.entries@[j]), target),
            decreases self.entries@.len() - i,
        {
            i += 1;
        }

        let ghost s0 = self.entries@;
        if i < self.entries.len() && self.entries[i].row == r && self.entries[i].col == c {
            let e = self.entries.remove(i);
            let updated = MatrixEntry { row: e.row, col: e.col, value: add_f(e.value, value) };
            self.entries.insert(i, updated);
            proof {
                assert(self.entries@ =~= s0.update(i as int, updated));
                let s1 = self.entries@;
                assert(entries_wf(s1, self.dimension as int)) by {
                    assert(forall|p: int|
                        0 <= p < s1.len() ==> entry_key(#[trigger] s1[p]) == entry_key(s0[p]));
                }
                lemma_model_at(s0, i as int);
                assert(seq_model(s1) =~= spec_insert(
                    seq_model(s0),
                    row_idx as int,
                    col_idx as int,
                    value,
                )) by {
                    let m0 = seq_model(s0);
                    let m1 = seq_model(s1);
                    assert forall|k: (int, int)| m1.dom().contains(k) implies spec_insert(
                        m0,
                        row_idx as int,
                        col_idx as int,
                        value,
                    ).dom().contains(k) by {
                        let p = choose|p: int|
                            0 <= p < s1.len() && entry_key(#[trigger] s1[p]) == k;
                        assert(entry_key(s0[p]) == k);
                    }
                    assert forall|k: (int, int)|
                        spec_insert(m0, row_idx as int, col_idx as int, value).dom().contains(
                            k,
                        ) implies m1.dom().contains(k) by {
                        if k == target {
                            assert(entry_key(s1[i as int]) == k);
                        } else {
                            let p = choose|p: int|
                                0 <= p < s0.len() && entry_key(#[trigger] s0[p]) == k;
                            assert(entry_key(s1[p]) == k);
                        }
                    }
                    assert forall|k: (int, int)| m1.dom().contains(k) implies m1[k] == spec_insert(
                        m0,
                        row_idx as int,
                        col_idx as int,
                        value,
                    )[k] by {
                        let p = choose|p: int|
                            0 <= p < s1.len() && entry_key(#[trigger] s1[p]) == k;
                        lemma_model_at(s1, p);
                        if p == i as int {
                            assert(k == target);
                            assert(m1[k] == add_bits(e.value, value));
                        } else {
                            assert(s1[p] == s0[p]);
                            lemma_model_at(s0, p);
                            assert(k != target) by {
                                if k == target {
                                    lemma_key_unique(s1, p, i as int);
                                }
                            }
                        }
                    }
                }
            }
        } else {
            let entry = MatrixEntry { row: r, col: c, value };
            self.entries.insert(i, entry);
            proof {
                let s1 = self.entries@;
                assert(s1 == s0.insert(i as int, entry));
                // everything at or after the insertion point is strictly greater
                assert forall|j: int| i <= j < s0.len() implies key_lt(
                    target,
                    entry_key(#[trigger] s0[j]),
                ) by {
                    assert(!(key_lt(entry_key(s0[i as int]), target)));
                    assert(entry_key(s0[i as int]) != target);
                    if j > i {
                        assert(key_lt(entry_key(s0[i as int]), entry_key(s0[j])));
                    }
                }
                assert(entries_wf(s1, self.dimension as int)) by {
                    assert(forall|p: int| 0 <= p < i ==> s1[p] == s0[p]);
                    assert(forall|p: int| i < p < s1.len() ==> s1[p] == s0[p - 1]);
                }
                assert(!seq_model(s0).dom().contains(target)) by {
                    if seq_model(s0).dom().contains(target) {
                        let p = choose|p: int|
                            0 <= p < s0.len() && entry_key(#[trigger] s0[p]) == target;
                        if p < i {
                            assert(key_lt(entry_key(s0[p]), target));
                        }
                    }
                }
                assert(seq_model(s1) =~= spec_insert(
                    seq_model(s0),
                    row_idx as int,
                    col_idx as int,
                    value,
                )) by {
                    let m0 = seq_model(s0);
                    let m1 = seq_model(s1);
                    assert forall|k: (int, int)| m1.dom().contains(k) implies
                        m0.insert(target, value).dom().contains(k) by {
                        let p = choose|p: int|
                            0 <= p < s1.len() && entry_key(#[trigger] s1[p]) == k;
                        if p < i {
                            assert(entry_key(s0[p]) == k);
                        } else if p > i {
                            assert(entry_key(s0[p - 1]) == k);
                        }
                    }
                    assert forall|k: (int, int)| m0.insert(target, value).dom().contains(
                        k,
                    ) implies m1.dom().contains(k) by {
                        if k == target {
                            assert(entry_key(s1[i as int]) == k);
                        } else {
                            let p = choose|p: int|
                                0 <= p < s0.len() && entry_key(#[trigger] s0[p]) == k;
                            if p < i {
                                assert(entry_key(s1[p]) == k);
                            } else {
                                assert(entry_key(s1[p + 1]) == k);
                            }
                        }
                    }
                    assert forall|k: (int, int)| m1.dom().contains(k) implies m1[k] == m0.insert(
                        target,
                        value,
                    )[k] by {
                        let p = choose|p: int|
                            0 <= p < s1.len() && entry_key(#[trigger] s1[p]) == k;
                        lemma_model_at(s1, p);
                        if p == i as int {
                            assert(k == target);
                        } else {
                            assert(k != target) by {
                                if k == target {
                                    lemma_key_unique(s1, p, i as int);
                                }
                            }
                            if p < i {
                                assert(s1[p] == s0[p]);
                                lemma_model_at(s0, p);
                            } else {
                                assert(s1[p] == s0[p - 1]);
                                lemma_model_at(s0, p - 1);
                            }
                        }
                    }
                }
            }
        }
    }

    /// The full symmetric entry count: both triangles, diagonal counted once.
    pub fn num_entries(&self) -> (r: usize)
        requires
            self.wf(),
            2 * self.entries_seq().len() - spec_diag_count(self.entries_seq()) <= usize::MAX,
        ensures
            r == 2 * self.entries_seq().len() - spec_diag_count(self.entries_seq()),
    {
        let ghost s = self.entries@;
        let mut num_diag: usize = 0;
        let mut i: usize = 0;
        while i < self.entries.len()
            invariant
                s == self.entries@,
                0 <= i <= s.len(),
                num_diag == spec_diag_count(s.take(i as int)),
                num_diag <= i,
            decreases s.len() - i,
        {
            proof {
                assert(s.take(i + 1).drop_last() =~= s.take(i as int));
                assert(s.take(i + 1).last() == s[i as int]);
            }
            if self.entries[i].row == self.entries[i].col {
                num_diag += 1;
            }
            i += 1;
        }
        proof {
            assert(s.take(s.len() as int) =~= s);
        }
        (self.entries.len() - num_diag) + self.entries.len()
    }

    /// Hand back the ordered entry list, leaving the matrix empty.
    pub fn take_entries(&mut self) -> (r: Vec<MatrixEntry>)
        requires
            old(self).wf(),
        ensures
            r@ == old(self).entries_seq(),
            final(self).wf(),
            final(self).dimension == old(self).dimension,
            final(self).entries_seq().len() == 0,
            final(self).model() == Map::<(int, int), u64>::empty(),
    {
        let mut out: Vec<MatrixEntry> = Vec::new();
        core::mem::swap(&mut out, &mut self.entries);
        proof {
            assert(self.model() =~= Map::<(int, int), u64>::empty());
        }
        out
    }

    /// Batched insertion with the same accumulation semantics as [`Self::insert`].
    pub fn insert_group(&mut self, entry_group: Vec<([usize; 2], u64)>)
        requires
            old(self).wf(),
            forall|k: int|
                0 <= k < entry_group@.len() ==> (#[trigger] entry_group@[k]).0[0] < old(
                    self,
                ).dimension && entry_group@[k].0[1] < old(self).dimension,
        ensures
            final(self).wf(),
            final(self).dimension == old(self).dimension,
            final(self).model() == spec_insert_seq(old(self).model(), entry_group@),
    {
        let ghost g = entry_group@;
        let ghost m0 = self.model();
        let mut idx: usize = 0;
        while idx < entry_group.len()
            invariant
                old(self).wf(),
                self.wf(),
                self.dimension == old(self).dimension,
                g == entry_group@,
                m0 == old(self).model(),
                0 <= idx <= g.len(),
                forall|k: int|
                    0 <= k < g.len() ==> (#[trigger] g[k]).0[0] < self.dimension
                        && g[k].0[1] < self.dimension,
                self.model() == spec_insert_seq(m0, g.take(idx as int)),
            decreases g.len() - idx,
        {
            let (rc, value) = entry_group[idx];
            self.insert(rc, value);
            proof {
                assert(g.take(idx + 1).drop_last() =~= g.take(idx as int));
                lemma_insert_seq_snoc(m0, g.take(idx as int), g[idx as int]);
                assert(g.take(idx as int).push(g[idx as int]) =~= g.take(idx + 1));
            }
            idx += 1;
        }
        proof {
            assert(g.take(g.len() as int) =~= g);
        }
    }

    /// Consume the entries of another matrix of the same dimension, adding
    /// them into this one and leaving the other empty.
    pub fn consume_matrix(&mut self, other: &mut SparseMatrix)
        requires
            old(self).wf(),
            old(other).wf(),
            old(self).dimension == old(other).dimension,
        ensures
            final(self).wf(),
            final(other).wf(),
            final(self).dimension == old(self).dimension,
            final(other).dimension == old(other).dimension,
            final(other).entries_seq().len() == 0,
            final(other).model() == Map::<(int, int), u64>::empty(),
            final(self).model() == spec_merge(old(self).model(), old(other).model()),
    {
        let moved = other.take_entries();
        let ghost ms = moved@;
        let ghost m0 = self.model();
        proof {
            assert(spec_merge(m0, seq_model(ms.take(0))) =~= m0) by {
                assert(ms.take(0).len() == 0);
            }
        }
        let mut idx: usize = 0;
        while idx < moved.len()
            invariant
                old(self).wf(),
                self.wf(),
                self.dimension == old(self).dimension,
                ms == moved@,
                m0 == old(self).model(),
                entries_wf(ms, old(other).dimension as int),
                old(other).dimension == old(self).dimension,
                0 <= idx <= ms.len(),
                self.model() == spec_merge(m0, seq_model(ms.take(idx as int))),
            decreases ms.len() - idx,
        {
            let e = moved[idx];
            self.insert([e.row as usize, e.col as usize], e.value);
            proof {
                lemma_take_model_step(ms, idx as int);
                assert(canon_key(e.row as int, e.col as int) == entry_key(e));
                lemma_merge_insert(
                    m0,
                    seq_model(ms.take(idx as int)),
                    e.row as int,
                    e.col as int,
                    e.value,
                );
            }
            idx += 1;
        }
        proof {
            assert(ms.take(ms.len() as int) =~= ms);
        }
    }

    /// How many stored upper-triangle entries each row holds, for the text
    /// header of the file export.
    pub fn row_nonzero_counts(&self) -> (r: Vec<usize>)
        requires
            self.wf(),
        ensures
            r@.len() == self.dimension,
            forall|rr: int|
                0 <= rr < self.dimension ==> (#[trigger] r@[rr]) as int == upper_row_count(
                    self.entries_seq(),
                    rr,
                    self.entries_seq().len() as int,
                ),
    {
        let ghost s = self.entries@;
        let mut counts: Vec<usize> = Vec::new();
        let mut z: usize = 0;
        while z < self.dimension
            invariant
                0 <= z <= self.dimension,
                counts@.len() == z,
                forall|rr: int| 0 <= rr < z ==> (#[trigger] counts@[rr]) == 0,
            decreases self.dimension - z,
        {
            counts.push(0);
            z += 1;
        }
        let mut i: usize = 0;
        while i < self.entries.len()
            invariant
                self.wf(),
                s == self.entries@,
                counts@.len() == self.dimension,
                0 <= i <= s.len(),
                forall|rr: int|
                    0 <= rr < self.dimension ==> (#[trigger] counts@[rr]) as int
                        == upper_row_count(s, rr, i as int) && counts@[rr] <= i,
            decreases s.len() - i,
        {
            let e = self.entries[i];
            counts[e.row as usize] = counts[e.row as usize] + 1;
            i += 1;
        }
        counts
    }

    /// The upper triangle as a list of `([row, col], value)` items, in
    /// storage order.
    pub fn iter_upper_tri(&self) -> (r: Vec<([usize; 2], u64)>)
        requires
            self.wf(),
        ensures
            r@.len() == self.entries_seq().len(),
            forall|i: int|
                0 <= i < r@.len() ==> (#[trigger] r@[i]).0[0] == self.entries_seq()[i].row as usize
                    && r@[i].0[1] == self.entries_seq()[i].col as usize && r@[i].1
                    == self.entries_seq()[i].value,
    {
        let mut out: Vec<([usize; 2], u64)> = Vec::new();
        let mut i: usize = 0;
        while i < self.entries.len()
            invariant
                self.wf(),
                0 <= i <= self.entries@.len(),
                out@.len() == i,
                forall|j: int|
                    0 <= j < i ==> (#[trigger] out@[j]).0[0] == self.entries@[j].row as usize
                        && out@[j].0[1] == self.entries@[j].col as usize && out@[j].1
                        == self.entries@[j].value,
            decreases self.entries@.len() - i,
        {
            let e = self.entries[i];
            out.push(([e.row as usize, e.col as usize], e.value));
            i += 1;
        }
        out
    }
}

/// The value of the symmetric matrix `m` represents at `(r, c)`: the stored
/// value at the canonical pair, or zero where none is stored.
pub open spec fn sym_spec(m: Map<(int, int), u64>, r: int, c: int) -> u64 {
    if m.dom().contains(canon_key(r, c)) {
        m[canon_key(r, c)]
    } else {
        crate::scalar::ZERO_BITS
    }
}

impl SparseMatrix {
    /// The stored value at the canonical form of `(r, c)`, if any.
    pub fn get_entry_canon(&self, r: usize, c: usize) -> (res: Option<u64>)
        requires
            self.wf(),
        ensures
            match res {
                Some(v) => self.model().dom().contains(canon_key(r as int, c as int)) && v
                    == self.model()[canon_key(r as int, c as int)],
                None => !self.model().dom().contains(canon_key(r as int, c as int)),
            },
    {
        let (rr, cc): (usize, usize) = if r <= c {
            (r, c)
        } else {
            (c, r)
        };
        let ghost k = canon_key(r as int, c as int);
        assert(k == (rr as int, cc as int));
        let mut i: usize = 0;
        while i < self.entries.len()
            invariant
                self.wf(),
                k == (rr as int, cc as int),
                k == canon_key(r as int, c as int),
                0 <= i <= self.entries@.len(),
                forall|j: int| 0 <= j < i ==> entry_key(#[trigger] self.entries@[j]) != k,
            decreases self.entries@.len() - i,
        {
            let e = self.entries[i];
            if e.row as usize == rr && e.col as usize == cc {
                proof {
                    assert(e == self.entries@[i as int]);
                    assert(entry_key(e) == k);
                    lemma_model_at(self.entries@, i as int);
                }
                return Some(e.value);
            }
            i += 1;
        }
        proof {
            if self.model().dom().contains(k) {
                let p = choose|p: int|
                    0 <= p < self.entries@.len() && entry_key(#[trigger] self.entries@[p]) == k;
                assert(entry_key(self.entries@[p]) != k);
            }
        }
        None
    }

    /// Expand to a dense square structure, materializing both triangles.
    pub fn to_dense(&self) -> (d: Vec<Vec<u64>>)
        requires
            self.wf(),
        ensures
            d@.len() == self.dimension,
            forall|r: int| 0 <= r < self.dimension ==> (#[trigger] d@[r])@.len() == self.dimension,
            forall|r: int, c: int|
                0 <= r < self.dimension && 0 <= c < self.dimension ==> (#[trigger] d@[r]@[c])
                    == sym_spec(self.model(), r, c),
    {
        let mut d: Vec<Vec<u64>> = Vec::new();
        let mut r: usize = 0;
        while r < self.dimension
            invariant
                self.wf(),
                0 <= r <= self.dimension,
                d@.len() == r,
                forall|rr: int| 0 <= rr < r ==> (#[trigger] d@[rr])@.len() == self.dimension,
                forall|rr: int, cc: int|
                    0 <= rr < r && 0 <= cc < self.dimension ==> (#[trigger] d@[rr]@[cc])
                        == sym_spec(self.model(), rr, cc),
            decreases self.dimension - r,
        {
            let mut row: Vec<u64> = Vec::new();
            let mut c: usize = 0;
            while c < self.dimension
                invariant
                    self.wf(),
                    0 <= c <= self.dimension,
                    row@.len() == c,
                    forall|cc: int|
                        0 <= cc < c ==> (#[trigger] row@[cc]) == sym_spec(
                            self.model(),
                            r as int,
                            cc,
                        ),
                decreases self.dimension - c,
            {
                match self.get_entry_canon(r, c) {
                    Some(v) => row.push(v),
                    None => row.push(crate::scalar::ZERO_BITS),
                }
                c += 1;
            }
            d.push(row);
            r += 1;
        }
        d
    }
}

/// How many of the first `upto` stored entries lie in row `rr`.
pub open spec fn upper_row_count(s: Seq<MatrixEntry>, rr: int, upto: int) -> int
    decreases upto,
{
    if upto <= 0 {
        0
    } else {
        upper_row_count(s, rr, upto - 1) + if s[upto - 1].row as int == rr {
            1int
        } else {
            0int
        }
    }
}

/// Folding a list of insertions into a matrix model, front to back.
pub open spec fn spec_insert_seq(m: Map<(int, int), u64>, g: Seq<([usize; 2], u64)>) -> Map<
    (int, int),
    u64,
>
    decreases g.len(),
{
    if g.len() == 0 {
        m
    } else {
        spec_insert_seq(spec_insert(m, (g[0].0)[0] as int, (g[0].0)[1] as int, g[0].1), g.drop_first())
    }
}

proof fn lemma_insert_seq_snoc(m: Map<(int, int), u64>, s: Seq<([usize; 2], u64)>, x: ([usize; 2], u64))
    ensures
        spec_insert_seq(m, s.push(x)) == spec_insert(
            spec_insert_seq(m, s),
            (x.0)[0] as int,
            (x.0)[1] as int,
            x.1,
        ),
    decreases s.len(),
{
    let sp = s.push(x);
    if s.len() == 0 {
        assert(sp.len() == 1);
        assert(sp[0] == x);
        assert(sp.drop_first() =~= Seq::<([usize; 2], u64)>::empty());
        let mx = spec_insert(m, (x.0)[0] as int, (x.0)[1] as int, x.1);
        assert(spec_insert_seq(m, sp) == spec_insert_seq(mx, sp.drop_first()));
        assert(spec_insert_seq(mx, sp.drop_first()) == mx);
        assert(spec_insert_seq(m, s) == m);
    } else {
        assert(sp[0] == s[0]);
        assert(sp.drop_first() =~= s.drop_first().push(x));
        let m1 = spec_insert(m, (s[0].0)[0] as int, (s[0].0)[1] as int, s[0].1);
        lemma_insert_seq_snoc(m1, s.drop_first(), x);
        assert(spec_insert_seq(m, sp) == spec_insert_seq(m1, sp.drop_first()));
        assert(spec_insert_seq(m, s) == spec_insert_seq(m1, s.drop_first()));
    }
}

/// Extending an ordered entry prefix by one entry adds one fresh pair to its model.
proof fn lemma_take_model_step(s: Seq<MatrixEntry>, i: int)
    requires
        forall|p: int, q: int|
            0 <= p < q < s.len() ==> key_lt(
                entry_key(#[trigger] s[p]),
                entry_key(#[trigger] s[q]),
            ),
        0 <= i < s.len(),
    ensures
        !seq_model(s.take(i)).dom().contains(entry_key(s[i])),
        seq_model(s.take(i + 1)) == seq_model(s.take(i)).insert(entry_key(s[i]), s[i].value),
{
    let t0 = s.take(i);
    let t1 = s.take(i + 1);
    let k = entry_key(s[i]);
    assert(!seq_model(t0).dom().contains(k)) by {
        if seq_model(t0).dom().contains(k) {
            let p = choose|p: int| 0 <= p < t0.len() && entry_key(#[trigger] t0[p]) == k;
            assert(t0[p] == s[p]);
            assert(key_lt(entry_key(s[p]), entry_key(s[i])));
        }
    }
    assert(seq_model(t1) =~= seq_model(t0).insert(k, s[i].value)) by {
        assert forall|kk: (int, int)| seq_model(t1).dom().contains(kk) implies seq_model(
            t0,
        ).insert(k, s[i].value).dom().contains(kk) by {
            let p = choose|p: int| 0 <= p < t1.len() && entry_key(#[trigger] t1[p]) == kk;
            if p < i {
                assert(t0[p] == t1[p]);
            }
        }
        assert forall|kk: (int, int)| seq_model(t0).insert(k, s[i].value).dom().contains(
            kk,
        ) implies seq_model(t1).dom().contains(kk) by {
            if kk == k {
                assert(entry_key(t1[i]) == kk);
            } else {
                let p = choose|p: int| 0 <= p < t0.len() && entry_key(#[trigger] t0[p]) == kk;
                assert(entry_key(t1[p]) == kk);
            }
        }
        assert forall|kk: (int, int)| seq_model(t1).dom().contains(kk) implies seq_model(t1)[kk]
            == seq_model(t0).insert(k, s[i].value)[kk] by {
            let p = choose|p: int| 0 <= p < t1.len() && entry_key(#[trigger] t1[p]) == kk;
            assert(forall|a: int, b: int|
                0 <= a < b < t1.len() ==> key_lt(
                    entry_key(#[trigger] t1[a]),
                    entry_key(#[trigger] t1[b]),
                ));
            lemma_model_at(t1, p);
            if p == i {
                assert(kk == k);
            } else {
                assert(kk != k) by {
                    if kk == k {
                        lemma_key_unique(t1, p, i);
                    }
                }
                assert(t1[p] == t0[p]);
                assert(forall|a: int, b: int|
                    0 <= a < b < t0.len() ==> key_lt(
                        entry_key(#[trigger] t0[a]),
                        entry_key(#[trigger] t0[b]),
                    ));
                lemma_model_at(t0, p);
            }
        }
    }
}

/// Inserting a pair that the second operand does not yet hold commutes with
/// element-wise accumulation.
proof fn lemma_merge_insert(a: Map<(int, int), u64>, b: Map<(int, int), u64>, r: int, c: int, v: u64)
    requires
        r <= c,
        !b.dom().contains((r, c)),
    ensures
        spec_insert(spec_merge(a, b), r, c, v) == spec_merge(a, b.insert((r, c), v)),
{
    let k = canon_key(r, c);
    assert(k == (r, c));
    let lhs = spec_insert(spec_merge(a, b), r, c, v);
    let rhs = spec_merge(a, b.insert((r, c), v));
    assert(lhs =~= rhs) by {
        assert forall|kk: (int, int)| lhs.dom().contains(kk) implies rhs.dom().contains(kk) by {}
        assert forall|kk: (int, int)| rhs.dom().contains(kk) implies lhs.dom().contains(kk) by {}
        assert forall|kk: (int, int)| lhs.dom().contains(kk) implies lhs[kk] == rhs[kk] by {
            if kk == k {
                if a.dom().contains(k) {
                    assert(lhs[kk] == add_bits(a[k], v));
                } else {
                    assert(lhs[kk] == v);
                }
            }
        }
    }
}

/// How many of the first `upto` columns of row `rr` the symmetric matrix
/// `md` represents hold a stored value.
pub open spec fn row_cells(md: Map<(int, int), u64>, rr: int, upto: int) -> int
    decreases upto,
{
    if upto <= 0 {
        0
    } else {
        row_cells(md, rr, upto - 1) + if md.dom().contains(canon_key(rr, upto - 1)) {
            1int
        } else {
            0int
        }
    }
}

/// The stored cells of the first `upto` rows, each row scanned across all
/// `dim` columns.
pub open spec fn grid_cells(md: Map<(int, int), u64>, dim: int, upto: int) -> int
    decreases upto,
{
    if upto <= 0 {
        0
    } else {
        grid_cells(md, dim, upto - 1) + row_cells(md, upto - 1, dim)
    }
}

proof fn lemma_row_cells_none(md: Map<(int, int), u64>, rr: int, upto: int)
    requires
        forall|k: (int, int)| !md.dom().contains(k),
    ensures
        row_cells(md, rr, upto) == 0,
    decreases upto,
{
    if upto > 0 {
        lemma_row_cells_none(md, rr, upto - 1);
    }
}

proof fn lemma_grid_cells_none(md: Map<(int, int), u64>, dim: int, upto: int)
    requires
        forall|k: (int, int)| !md.dom().contains(k),
    ensures
        grid_cells(md, dim, upto) == 0,
    decreases upto,
{
    if upto > 0 {
        lemma_grid_cells_none(md, dim, upto - 1);
        lemma_row_cells_none(md, upto - 1, dim);
    }
}

/// Adding one fresh canonical pair adds its mirror cells to one or two rows.
proof fn lemma_row_cells_insert(md: Map<(int, int), u64>, k: (int, int), v: u64, rr: int, upto: int)
    requires
        !md.dom().contains(k),
        k.0 <= k.1,
    ensures
        row_cells(md.insert(k, v), rr, upto) == row_cells(md, rr, upto) + (if rr == k.0 && k.1
            < upto && 0 <= k.1 {
            1int
        } else {
            0int
        }) + (if rr == k.1 && rr != k.0 && k.0 < upto && 0 <= k.0 {
            1int
        } else {
            0int
        }),
    decreases upto,
{
    if upto > 0 {
        lemma_row_cells_insert(md, k, v, rr, upto - 1);
        assert(md.insert(k, v).dom().contains(canon_key(rr, upto - 1)) == (md.dom().contains(
            canon_key(rr, upto - 1),
        ) || canon_key(rr, upto - 1) == k));
    }
}

/// Adding one fresh canonical pair inside the square adds one cell for a
/// diagonal pair and two for an off-diagonal pair.
proof fn lemma_grid_cells_insert(md: Map<(int, int), u64>, k: (int, int), v: u64, dim: int, upto: int)
    requires
        !md.dom().contains(k),
        0 <= k.0 <= k.1 < dim,
    ensures
        grid_cells(md.insert(k, v), dim, upto) == grid_cells(md, dim, upto) + (if k.0 < upto {
            1int
        } else {
            0int
        }) + (if k.1 < upto && k.1 != k.0 {
            1int
        } else {
            0int
        }),
    decreases upto,
{
    if upto > 0 {
        lemma_grid_cells_insert(md, k, v, dim, upto - 1);
        lemma_row_cells_insert(md, k, v, upto - 1, dim);
    }
}

proof fn lemma_cell_count_prefix(s: Seq<MatrixEntry>, dim: int, i: int)
    requires
        entries_wf(s, dim),
        0 <= i <= s.len(),
    ensures
        grid_cells(seq_model(s.take(i)), dim, dim) == 2 * i - spec_diag_count(s.take(i)),
    decreases i,
{
    if i == 0 {
        assert(s.take(0).len() == 0);
        assert forall|k: (int, int)| !seq_model(s.take(0)).dom().contains(k) by {}
        lemma_grid_cells_none(seq_model(s.take(0)), dim, dim);
    } else {
        lemma_cell_count_prefix(s, dim, i - 1);
        assert(forall|p: int, q: int|
            0 <= p < q < s.len() ==> key_lt(
                entry_key(#[trigger] s[p]),
                entry_key(#[trigger] s[q]),
            ));
        lemma_take_model_step(s, i - 1);
        let k = entry_key(s[i - 1]);
        lemma_grid_cells_insert(seq_model(s.take(i - 1)), k, s[i - 1].value, dim, dim);
        assert(s.take(i).drop_last() =~= s.take(i - 1));
        assert(s.take(i).last() == s[i - 1]);
        assert(spec_diag_count(s.take(i)) == spec_diag_count(s.take(i - 1)) + if s[i - 1].row
            == s[i - 1].col {
            1int
        } else {
            0int
        });
    }
}

/// The symmetric matrix a well-formed entry list represents holds exactly
/// `2 * upper_triangle_len - diagonal_count` cells: both triangles, the
/// diagonal counted once.
pub proof fn lemma_symmetric_cell_count(m: SparseMatrix)
    requires
        m.wf(),
    ensures
        grid_cells(m.model(), m.dimension as int, m.dimension as int) == 2 * m.entries_seq().len()
            - spec_diag_count(m.entries_seq()),
{
    lemma_cell_count_prefix(m.entries_seq(), m.dimension as int, m.entries_seq().len() as int);
    assert(m.entries_seq().take(m.entries_seq().len() as int) =~= m.entries_seq());
}

/// Inserting a value at `(r, c)` and inserting it at `(c, r)` build the same
/// matrix: accumulation is symmetric in the index pair.
pub proof fn lemma_insert_symmetric(m: Map<(int, int), u64>, r: int, c: int, v: u64)
    ensures
        spec_insert(m, r, c, v) == spec_insert(m, c, r, v),
{
    assert(canon_key(r, c) == canon_key(c, r));
}

/// At a pair the matrix does not yet hold, inserting `v1` at `(r, c)` and
/// then `v2` at `(c, r)` equals inserting their IEEE-754 sum once. (At a
/// pair already stored, the two sides differ by the association order of
/// the floating-point additions, so the law is stated for fresh pairs.)
pub proof fn lemma_insert_accumulates(
    m: Map<(int, int), u64>,
    r: int,
    c: int,
    v1: u64,
    v2: u64,
)
    requires
        !m.dom().contains(canon_key(r, c)),
    ensures
        spec_insert(spec_insert(m, r, c, v1), c, r, v2) == spec_insert(
            m,
            r,
            c,
            add_bits(v1, v2),
        ),
{
    let k = canon_key(r, c);
    assert(canon_key(c, r) == k);
    assert(spec_insert(m, r, c, v1) == m.insert(k, v1));
    assert(m.insert(k, v1).dom().contains(k));
    assert(m.insert(k, v1)[k] == v1);
    assert(spec_insert(m.insert(k, v1), c, r, v2) =~= m.insert(k, add_bits(v1, v2)));
}

} // verus!
