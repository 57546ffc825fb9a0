use fem_2d::aij::AIJMatrix;
use fem_2d::eigenproblem::GEP;
use fem_2d::aij::AIJMatrixBinary;
use fem_2d::sparse_matrix::MatrixEntry;
use fem_2d::sparse_matrix::SparseMatrix;

fn bits(x: f64) -> u64 {
    x.to_bits()
}

fn val(x: u64) -> f64 {
    f64::from_bits(x)
}

fn get(entries: &[MatrixEntry], r: u32, c: u32) -> Option<f64> {
    for e in entries {
        if e.row == r && e.col == c {
            return Some(val(e.value));
        }
    }
    None
}

#[test]
fn petsc_binary_format() {
    let mut sm = SparseMatrix::new(10);

    sm.insert([0, 0], bits(1.0));
    sm.insert([0, 0], bits(1.0));
    sm.insert([9, 9], bits(10.0));
    sm.insert([4, 3], bits(0.25));
    sm.insert([0, 8], bits(0.125));
    sm.insert([8, 0], bits(0.125));

    let sm_bin: AIJMatrixBinary = sm.to_aij().to_binary();

    let bytes = sm_bin.to_petsc_binary_format();
    // four 32-bit header fields, per-row counts, column indices, values
    let nnz = sm_bin.a.len();
    assert_eq!(bytes.len(), 16 + 4 * 10 + 4 * nnz + 8 * nnz);
    // the format tag, big-endian
    assert_eq!(&bytes[0..4], &[0x00, 0x12, 0x7B, 0x50]);
    // the two dimension fields
    assert_eq!(&bytes[4..8], &[0, 0, 0, 10]);
    assert_eq!(&bytes[8..12], &[0, 0, 0, 10]);
}

#[test]
fn value_insertion() {
    let mut sm = SparseMatrix::new(10);

    sm.insert([0, 0], bits(1.0));
    sm.insert([0, 0], bits(1.0));
    sm.insert([9, 9], bits(10.0));
    sm.insert([4, 3], bits(0.25));
    sm.insert([0, 8], bits(0.125));
    sm.insert([8, 0], bits(0.125));

    let raw_entries = sm.take_entries();

    assert!((get(&raw_entries, 0, 0).unwrap() - 2.0).abs() < 1e-15);
    assert!((get(&raw_entries, 9, 9).unwrap() - 10.0).abs() < 1e-15);
    assert!((get(&raw_entries, 3, 4).unwrap() - 0.25).abs() < 1e-15);
    assert!((get(&raw_entries, 0, 8).unwrap() - 0.25).abs() < 1e-15);

    assert!(get(&raw_entries, 4, 3).is_none());
    assert!(get(&raw_entries, 8, 0).is_none());
}

#[test]
fn consume_another_matrix() {
    let mut sm_a = SparseMatrix::new(5);
    let mut sm_b = SparseMatrix::new(5);

    sm_a.insert([0, 0], bits(1.0));
    sm_a.insert([1, 1], bits(2.0));
    sm_a.insert([2, 2], bits(3.0));
    sm_a.insert([3, 3], bits(4.0));
    sm_a.insert([4, 4], bits(5.0));
    sm_a.insert([0, 4], bits(0.5));
    sm_a.insert([3, 1], bits(0.5));

    sm_b.insert([0, 0], bits(5.0));
    sm_b.insert([1, 1], bits(4.0));
    sm_b.insert([2, 2], bits(3.0));
    sm_b.insert([3, 3], bits(2.0));
    sm_b.insert([4, 4], bits(1.0));
    sm_b.insert([4, 0], bits(-0.5));
    sm_b.insert([2, 3], bits(-0.5));

    sm_a.consume_matrix(&mut sm_b);

    assert_eq!(sm_b.num_entries(), 0);

    let sm_a_entries = sm_a.take_entries();

    for i in 0..5 {
        assert!((get(&sm_a_entries, i, i).unwrap() - 6.0).abs() < 1e-15);
    }

    assert!((get(&sm_a_entries, 0, 4).unwrap()).abs() < 1e-15);
    assert!((get(&sm_a_entries, 1, 3).unwrap() - 0.5).abs() < 1e-15);
    assert!((get(&sm_a_entries, 2, 3).unwrap() + 0.5).abs() < 1e-15);

    assert!(get(&sm_a_entries, 4, 0).is_none());
    assert!(get(&sm_a_entries, 3, 1).is_none());
}

const AIJ_TEST_A: [f64; 11] = [
    1.0, 0.05125, 0.25, 2.0, 0.125, 0.05125, 3.0, 0.125, 4.0, 0.25, 5.0,
];
const AIJ_TEST_J: [i32; 11] = [0, 2, 4, 1, 3, 0, 2, 1, 3, 0, 4];
const AIJ_TEST_I: [i32; 6] = [0, 3, 5, 7, 9, 11];

#[test]
fn into_aij_format() {
    let mut sm = SparseMatrix::new(5);
    sm.insert([0, 0], bits(1.0));
    sm.insert([1, 1], bits(2.0));
    sm.insert([2, 2], bits(3.0));
    sm.insert([3, 3], bits(4.0));
    sm.insert([4, 4], bits(5.0));

    sm.insert([0, 4], bits(0.25));
    sm.insert([1, 3], bits(0.125));
    sm.insert([2, 0], bits(0.05125));

    let aij: AIJMatrix = sm.to_aij();

    for (a, a_cmp) in aij.a.iter().zip(AIJ_TEST_A.iter()) {
        assert!((val(*a) - a_cmp).abs() < 1e-15);
    }

    for (j, j_cmp) in aij.j.iter().zip(AIJ_TEST_J.iter()) {
        assert_eq!(j, j_cmp);
    }

    for (i, i_cmp) in aij.i.iter().zip(AIJ_TEST_I.iter()) {
        assert_eq!(i, i_cmp);
    }

    assert_eq!(aij.a.len(), 11);
    assert_eq!(aij.j.len(), 11);
    assert_eq!(aij.i.len(), 6);
}

#[test]
fn insert_is_symmetric_and_accumulates() {
    // inserting (r, c, v1) then (c, r, v2) equals inserting (r, c, v1 + v2)
    // once at a pair not yet present
    let mut first = SparseMatrix::new(4);
    first.insert([1, 2], bits(0.75));
    first.insert([2, 1], bits(0.5));

    let mut second = SparseMatrix::new(4);
    second.insert([1, 2], bits(0.75 + 0.5));

    let e1 = first.take_entries();
    let e2 = second.take_entries();
    assert_eq!(e1.len(), 1);
    assert_eq!(e2.len(), 1);
    assert_eq!(e1[0].row, e2[0].row);
    assert_eq!(e1[0].col, e2[0].col);
    assert_eq!(e1[0].value, e2[0].value);
}

#[test]
fn num_entries_counts_both_triangles() {
    let mut sm = SparseMatrix::new(6);
    sm.insert([0, 0], bits(1.0));
    sm.insert([1, 1], bits(1.0));
    sm.insert([0, 3], bits(2.0));
    sm.insert([2, 5], bits(3.0));
    // two diagonal entries and two off-diagonal pairs:
    // 2 * 4 - 2 = 6
    assert_eq!(sm.num_entries(), 6);
}

#[test]
fn aij_round_trip_reproduces_dense() {
    let mut sm = SparseMatrix::new(5);
    sm.insert([0, 0], bits(1.5));
    sm.insert([2, 2], bits(-3.25));
    sm.insert([0, 4], bits(0.25));
    sm.insert([3, 1], bits(0.125));
    sm.insert([1, 3], bits(0.0625));

    let direct = sm.to_dense();
    let via_aij = sm.to_aij().to_dense();

    assert_eq!(direct.len(), 5);
    assert_eq!(via_aij.len(), 5);
    for r in 0..5 {
        for c in 0..5 {
            assert_eq!(direct[r][c], via_aij[r][c]);
            // the expansion is symmetric
            assert_eq!(direct[r][c], direct[c][r]);
        }
    }
    assert!((val(direct[0][0]) - 1.5).abs() < 1e-15);
    assert!((val(direct[3][1]) - 0.1875).abs() < 1e-15);
    assert!((val(direct[1][3]) - 0.1875).abs() < 1e-15);
    assert!(val(direct[4][2]).abs() < 1e-15);
}

#[test]
fn petsc_bytes_carry_counts_columns_and_values() {
    let mut sm = SparseMatrix::new(2);
    sm.insert([0, 1], bits(2.5));
    let bin = sm.to_aij().to_binary();
    assert_eq!(bin.i, vec![1, 1]);
    assert_eq!(bin.j, vec![1, 0]);
    let bytes = bin.to_petsc_binary_format();
    // header: tag, rows, cols, nnz
    assert_eq!(&bytes[12..16], &[0, 0, 0, 2]);
    // per-row counts
    assert_eq!(&bytes[16..20], &[0, 0, 0, 1]);
    assert_eq!(&bytes[20..24], &[0, 0, 0, 1]);
    // column indices
    assert_eq!(&bytes[24..28], &[0, 0, 0, 1]);
    assert_eq!(&bytes[28..32], &[0, 0, 0, 0]);
    // values, big-endian doubles
    assert_eq!(&bytes[32..40], &2.5f64.to_be_bytes());
    assert_eq!(&bytes[40..48], &2.5f64.to_be_bytes());
}

#[test]
fn eigenproblem_pairs_matrices_of_equal_dimension() {
    let mut a = SparseMatrix::new(4);
    a.insert([0, 0], bits(2.0));
    let mut b = SparseMatrix::new(4);
    b.insert([0, 0], bits(1.0));
    b.insert([1, 1], bits(1.0));

    let gep = GEP::new(a.to_aij(), b.to_aij());
    assert_eq!(gep.a.dim, 4);
    assert_eq!(gep.b.dim, 4);
    assert_eq!(gep.a.a.len(), 1);
    assert_eq!(gep.b.a.len(), 2);
}
