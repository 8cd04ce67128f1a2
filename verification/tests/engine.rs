use nnfw_matrix::MatrixError;
use nnfw_matrix::NnfwMatrix;
use nnfw_matrix::def;

fn bits(x: f64) -> u64 {
    x.to_bits()
}

fn val(b: u64) -> f64 {
    f64::from_bits(b)
}

fn cell(m: &NnfwMatrix, r: usize, c: usize) -> f64 {
    val(m.retrive(r, c).unwrap())
}

#[test]
fn create_fills_every_cell() {
    let m = NnfwMatrix::new(2, 3, bits(1.25)).unwrap();
    for r in 0..2 {
        for c in 0..3 {
            assert_eq!(cell(&m, r, c), 1.25);
        }
    }
}

#[test]
fn create_rejects_zero_dimension() {
    assert_eq!(
        NnfwMatrix::new(0, 3, bits(1.0)).unwrap_err(),
        MatrixError::InvalidShape { rows: 0, cols: 3 }
    );
    assert_eq!(
        NnfwMatrix::new(4, 0, bits(1.0)).unwrap_err(),
        MatrixError::InvalidShape { rows: 4, cols: 0 }
    );
}

#[test]
fn retrive_rejects_out_of_range() {
    let m = NnfwMatrix::new(2, 3, bits(0.0)).unwrap();
    assert_eq!(
        m.retrive(2, 0).unwrap_err(),
        MatrixError::IndexOutOfBounds { row: 2, col: 0, rows: 2, cols: 3 }
    );
    assert_eq!(
        m.retrive(0, 3).unwrap_err(),
        MatrixError::IndexOutOfBounds { row: 0, col: 3, rows: 2, cols: 3 }
    );
}

#[test]
fn merge_ethernal_checks_the_length() {
    let buf: Vec<u64> = vec![bits(1.0), bits(2.0), bits(3.0), bits(4.0), bits(5.0)];
    assert_eq!(
        NnfwMatrix::merge_ethernal(buf, 2, 3).unwrap_err(),
        MatrixError::ShapeMismatch {
            expected_rows: 2,
            expected_cols: 3,
            found_rows: 1,
            found_cols: 5,
        }
    );
    let buf: Vec<u64> = (1..=6).map(|i| bits(i as f64)).collect();
    let m = NnfwMatrix::merge_ethernal(buf.clone(), 2, 3).unwrap();
    assert_eq!(m.to_flat_sequence(), buf);
    assert_eq!(cell(&m, 1, 0), 4.0);
}

#[test]
fn merge_ethernal_rejects_zero_dimension() {
    let buf: Vec<u64> = vec![];
    assert_eq!(
        NnfwMatrix::merge_ethernal(buf, 0, 0).unwrap_err(),
        MatrixError::InvalidShape { rows: 0, cols: 0 }
    );
}

#[test]
fn reclaim_writes_one_cell() {
    let mut m = NnfwMatrix::new(2, 2, bits(0.0)).unwrap();
    m.reclaim(1, 0, def::I4(7)).unwrap();
    assert_eq!(cell(&m, 1, 0), 7.0);
    assert_eq!(cell(&m, 0, 0), 0.0);
    assert_eq!(
        m.reclaim(9, 9, def::I4(7)).unwrap_err(),
        MatrixError::IndexOutOfBounds { row: 9, col: 9, rows: 2, cols: 2 }
    );
}

#[test]
fn add_of_uniform_matrices() {
    // 3.3 + 5.7 is exactly 9.0 in binary64.
    let mut a = NnfwMatrix::new(4, 5, bits(3.3)).unwrap();
    let b = NnfwMatrix::new(4, 5, bits(5.7)).unwrap();
    a.add(&b).unwrap();
    for r in 0..4 {
        for c in 0..5 {
            assert_eq!(cell(&a, r, c), 9.0);
        }
    }
}

#[test]
fn subtract_of_uniform_matrices() {
    let mut a = NnfwMatrix::new(4, 5, bits(3.3)).unwrap();
    let b = NnfwMatrix::new(4, 5, bits(5.7)).unwrap();
    a.subtract(&b).unwrap();
    for r in 0..4 {
        for c in 0..5 {
            assert_eq!(cell(&a, r, c), 3.3 - 5.7);
            assert!((cell(&a, r, c) - (-2.4)).abs() < 1e-9);
        }
    }
}

#[test]
fn add_then_subtract_restores_these_values() {
    let mut a = NnfwMatrix::new(4, 5, bits(3.3)).unwrap();
    let b = NnfwMatrix::new(4, 5, bits(5.7)).unwrap();
    a.add(&b).unwrap();
    a.subtract(&b).unwrap();
    for r in 0..4 {
        for c in 0..5 {
            assert_eq!(cell(&a, r, c), 3.3);
        }
    }
}

#[test]
fn add_rejects_a_different_shape() {
    let mut a = NnfwMatrix::new(2, 3, bits(1.0)).unwrap();
    let b = NnfwMatrix::new(3, 2, bits(1.0)).unwrap();
    assert_eq!(
        a.add(&b).unwrap_err(),
        MatrixError::ShapeMismatch {
            expected_rows: 2,
            expected_cols: 3,
            found_rows: 3,
            found_cols: 2,
        }
    );
    // The failed operation left the operand unchanged.
    assert_eq!(cell(&a, 0, 0), 1.0);
}

#[test]
fn hadamard_multiplies_cell_by_cell() {
    let mut a = NnfwMatrix::new(2, 2, bits(1.5)).unwrap();
    let b = NnfwMatrix::new(2, 2, bits(2.0)).unwrap();
    a.hadamard(&b).unwrap();
    for r in 0..2 {
        for c in 0..2 {
            assert_eq!(cell(&a, r, c), 3.0);
        }
    }
}

#[test]
fn divide_scalar_divides_every_cell() {
    let mut a = NnfwMatrix::new(2, 2, bits(9.0)).unwrap();
    a.divide_scalar(bits(4.5)).unwrap();
    for r in 0..2 {
        for c in 0..2 {
            assert_eq!(cell(&a, r, c), 2.0);
        }
    }
}

#[test]
fn divide_scalar_rejects_either_zero() {
    let mut a = NnfwMatrix::new(2, 2, bits(9.0)).unwrap();
    assert_eq!(a.divide_scalar(bits(0.0)).unwrap_err(), MatrixError::DivisionByZero);
    assert_eq!(a.divide_scalar(bits(-0.0)).unwrap_err(), MatrixError::DivisionByZero);
    // The failed operations left the operand unchanged.
    assert_eq!(cell(&a, 1, 1), 9.0);
}

#[test]
fn matmul_of_uniform_matrices() {
    let mut a = NnfwMatrix::new(4, 5, bits(3.3)).unwrap();
    let b = NnfwMatrix::new(5, 5, bits(4.5)).unwrap();
    a.matmul(&b).unwrap();
    // Five products accumulated in order, as the engine sums them.
    let p = 3.3f64 * 4.5f64;
    let mut expected = 0.0f64;
    for _ in 0..5 {
        expected += p;
    }
    assert!((expected - 74.25).abs() < 1e-9);
    for r in 0..4 {
        for c in 0..5 {
            assert_eq!(cell(&a, r, c), expected);
        }
    }
    assert!(a.retrive(4, 0).is_err());
    assert!(a.retrive(0, 4).is_ok());
}

#[test]
fn matmul_general_shapes() {
    // (2x3) . (3x2): distinct values, checked against a plain f64 fold.
    let av: Vec<f64> = vec![1.5, -2.0, 3.25, 0.5, 4.0, -1.25];
    let bv: Vec<f64> = vec![2.0, 0.25, -1.5, 3.0, 0.75, -2.25];
    let mut a = NnfwMatrix::merge_ethernal(av.iter().map(|x| bits(*x)).collect(), 2, 3).unwrap();
    let b = NnfwMatrix::merge_ethernal(bv.iter().map(|x| bits(*x)).collect(), 3, 2).unwrap();
    a.matmul(&b).unwrap();
    for r in 0..2 {
        for c in 0..2 {
            let mut expected = 0.0f64;
            for k in 0..3 {
                expected += av[r * 3 + k] * bv[k * 2 + c];
            }
            assert_eq!(cell(&a, r, c), expected);
        }
    }
    assert!(a.retrive(0, 2).is_err());
}

#[test]
fn matmul_rejects_incompatible_inner_dimensions() {
    let mut a = NnfwMatrix::new(4, 5, bits(1.0)).unwrap();
    let b = NnfwMatrix::new(4, 5, bits(1.0)).unwrap();
    assert_eq!(
        a.matmul(&b).unwrap_err(),
        MatrixError::ShapeMismatch {
            expected_rows: 4,
            expected_cols: 5,
            found_rows: 4,
            found_cols: 5,
        }
    );
    assert_eq!(cell(&a, 3, 4), 1.0);
}

#[test]
fn dot_product_sums_pairwise_products() {
    let av: Vec<f64> = vec![1.5, -2.0, 3.25, 0.5];
    let bv: Vec<f64> = vec![2.0, 0.25, -1.5, 3.0];
    let a = NnfwMatrix::merge_ethernal(av.iter().map(|x| bits(*x)).collect(), 2, 2).unwrap();
    let b = NnfwMatrix::merge_ethernal(bv.iter().map(|x| bits(*x)).collect(), 2, 2).unwrap();
    let mut expected = 0.0f64;
    for i in 0..4 {
        expected += av[i] * bv[i];
    }
    assert_eq!(val(a.dot_product(&b).unwrap()), expected);
    // Neither operand changed.
    assert_eq!(cell(&a, 0, 0), 1.5);
    assert_eq!(cell(&b, 0, 0), 2.0);
}

#[test]
fn dot_product_is_symmetric() {
    let av: Vec<f64> = vec![1.5, -2.0, 3.25, 0.5, 1e300, -7.125];
    let bv: Vec<f64> = vec![2.0, 0.25, -1.5, 3.0, 1e-300, 42.0];
    let a = NnfwMatrix::merge_ethernal(av.iter().map(|x| bits(*x)).collect(), 2, 3).unwrap();
    let b = NnfwMatrix::merge_ethernal(bv.iter().map(|x| bits(*x)).collect(), 2, 3).unwrap();
    assert_eq!(a.dot_product(&b).unwrap(), b.dot_product(&a).unwrap());
}

#[test]
fn dot_product_rejects_a_different_shape() {
    let a = NnfwMatrix::new(2, 3, bits(1.0)).unwrap();
    let b = NnfwMatrix::new(3, 2, bits(1.0)).unwrap();
    assert_eq!(
        a.dot_product(&b).unwrap_err(),
        MatrixError::ShapeMismatch {
            expected_rows: 2,
            expected_cols: 3,
            found_rows: 3,
            found_cols: 2,
        }
    );
    let c = NnfwMatrix::new(2, 4, bits(1.0)).unwrap();
    assert!(a.dot_product(&c).is_err());
}

#[test]
fn transpose_moves_each_cell() {
    let buf: Vec<u64> = (1..=6).map(|i| bits(i as f64)).collect();
    let mut m = NnfwMatrix::merge_ethernal(buf, 2, 3).unwrap();
    m.transpose();
    for r in 0..2 {
        for c in 0..3 {
            assert_eq!(cell(&m, c, r), (r * 3 + c + 1) as f64);
        }
    }
    assert!(m.retrive(0, 2).is_err());
    assert!(m.retrive(2, 0).is_ok());
}

#[test]
fn transpose_twice_restores_the_matrix() {
    let buf: Vec<u64> = (1..=6).map(|i| bits(i as f64 * 1.5)).collect();
    let mut m = NnfwMatrix::merge_ethernal(buf.clone(), 2, 3).unwrap();
    m.transpose();
    m.transpose();
    assert_eq!(m.to_flat_sequence(), buf);
    assert!(m.retrive(1, 2).is_ok());
    assert!(m.retrive(2, 1).is_err());
}

#[test]
fn zeros_and_ones_buffers() {
    let z = NnfwMatrix::zero_mat(2, 3);
    assert_eq!(z.len(), 6);
    for b in z {
        assert_eq!(val(b), 0.0);
    }
    let o = NnfwMatrix::ones_mat(3, 2);
    assert_eq!(o.len(), 6);
    for b in o {
        assert_eq!(val(b), 1.0);
    }
}

#[test]
fn elementwise_ops_match_hardware_arithmetic() {
    // Varied magnitudes, signs, a denormal and an infinity: every element-wise
    // result must be bit-identical to the hardware IEEE operation.
    let av: Vec<f64> = vec![3.3, -0.0, 5e-324, f64::INFINITY, -2.5e17, 0.1];
    let bv: Vec<f64> = vec![5.7, 4.25, 2.0, -3.0, 1.0 / 3.0, -0.1];
    let to_bits = |v: &Vec<f64>| v.iter().map(|x| x.to_bits()).collect::<Vec<u64>>();

    let mut a = NnfwMatrix::merge_ethernal(to_bits(&av), 2, 3).unwrap();
    let b = NnfwMatrix::merge_ethernal(to_bits(&bv), 2, 3).unwrap();
    a.add(&b).unwrap();
    for i in 0..6 {
        assert_eq!(a.to_flat_sequence()[i], (av[i] + bv[i]).to_bits());
    }

    let mut a = NnfwMatrix::merge_ethernal(to_bits(&av), 2, 3).unwrap();
    a.subtract(&b).unwrap();
    for i in 0..6 {
        assert_eq!(a.to_flat_sequence()[i], (av[i] - bv[i]).to_bits());
    }

    let mut a = NnfwMatrix::merge_ethernal(to_bits(&av), 2, 3).unwrap();
    a.hadamard(&b).unwrap();
    for i in 0..6 {
        assert_eq!(a.to_flat_sequence()[i], (av[i] * bv[i]).to_bits());
    }

    let mut a = NnfwMatrix::merge_ethernal(to_bits(&av), 2, 3).unwrap();
    a.divide_scalar(0.7f64.to_bits()).unwrap();
    for i in 0..6 {
        assert_eq!(a.to_flat_sequence()[i], (av[i] / 0.7).to_bits());
    }
}
