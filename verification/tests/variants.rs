use nnfw_matrix::MatrixError;
use nnfw_matrix::NnfwMatrix;
use nnfw_matrix::def;

fn as_f64(b: u64) -> f64 {
    f64::from_bits(b)
}

#[test]
fn compact_widens_every_alternative() {
    assert_eq!(as_f64(NnfwMatrix::compact(def::I1(-5))), -5.0);
    assert_eq!(as_f64(NnfwMatrix::compact(def::I2(-300))), -300.0);
    assert_eq!(as_f64(NnfwMatrix::compact(def::I4(70_000))), 70_000.0);
    assert_eq!(as_f64(NnfwMatrix::compact(def::I8(-1_234_567_890_123))), -1_234_567_890_123.0);
    assert_eq!(as_f64(NnfwMatrix::compact(def::I16(1_i128 << 100))), (1_i128 << 100) as f64);
    assert_eq!(as_f64(NnfwMatrix::compact(def::U1(200))), 200.0);
    assert_eq!(as_f64(NnfwMatrix::compact(def::U2(60_000))), 60_000.0);
    assert_eq!(as_f64(NnfwMatrix::compact(def::U4(4_000_000_000))), 4_000_000_000.0);
    assert_eq!(as_f64(NnfwMatrix::compact(def::U8(u64::MAX))), u64::MAX as f64);
    assert_eq!(as_f64(NnfwMatrix::compact(def::U16(u128::MAX))), u128::MAX as f64);
    assert_eq!(as_f64(NnfwMatrix::compact(def::U(123_456))), 123_456.0);
    assert_eq!(as_f64(NnfwMatrix::compact(def::I(-9_876))), -9_876.0);
    assert_eq!(as_f64(NnfwMatrix::compact(def::F4(1.5_f32.to_bits()))), 1.5);
    assert_eq!(as_f64(NnfwMatrix::compact(def::F4((-0.1_f32).to_bits()))), -0.1_f32 as f64);
    assert_eq!(as_f64(NnfwMatrix::compact(def::F8(6.25_f64.to_bits()))), 6.25);
}

#[test]
fn compact_matches_lossy_hardware_widening() {
    // Above 2^53 the widening rounds; it must round as the hardware cast does.
    let big: i64 = (1_i64 << 60) + 12_345;
    assert_eq!(as_f64(NnfwMatrix::compact(def::I8(big))), big as f64);
    let big_u: u128 = (1_u128 << 100) + (1_u128 << 47);
    assert_eq!(as_f64(NnfwMatrix::compact(def::U16(big_u))), big_u as f64);
    assert_eq!(as_f64(NnfwMatrix::compact(def::I16(i128::MIN))), i128::MIN as f64);
}

#[test]
fn claim_matrix_populates_row_major() {
    let mut m = NnfwMatrix::new(2, 2, 0).unwrap();
    m.claim_matrix(vec![def::I1(1), def::I1(2), def::I1(3), def::I1(4)]).unwrap();
    assert_eq!(as_f64(m.retrive(0, 0).unwrap()), 1.0);
    assert_eq!(as_f64(m.retrive(0, 1).unwrap()), 2.0);
    assert_eq!(as_f64(m.retrive(1, 0).unwrap()), 3.0);
    assert_eq!(as_f64(m.retrive(1, 1).unwrap()), 4.0);
}

#[test]
fn claim_matrix_rejects_a_wrong_length() {
    let mut m = NnfwMatrix::new(2, 2, 1.5_f64.to_bits()).unwrap();
    assert_eq!(
        m.claim_matrix(vec![def::I1(1), def::I1(2), def::I1(3)]).unwrap_err(),
        MatrixError::ShapeMismatch {
            expected_rows: 2,
            expected_cols: 2,
            found_rows: 1,
            found_cols: 3,
        }
    );
    // The failed ingestion left the matrix unchanged.
    assert_eq!(as_f64(m.retrive(0, 0).unwrap()), 1.5);
}

#[test]
fn assemble_one_by_three_from_variants() {
    let mut m = NnfwMatrix::new(1, 3, 0).unwrap();
    m.claim_matrix(vec![def::I2(1), def::I4(2), def::U16(3)]).unwrap();
    let flat: Vec<f64> = m.to_flat_sequence().into_iter().map(as_f64).collect();
    assert_eq!(flat, vec![1.0, 2.0, 3.0]);
}
