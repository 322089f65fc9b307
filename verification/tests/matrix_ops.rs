use matrix::Matrix;

#[test]
fn from_vec() {
    let mat = Matrix::from_vec(2, 3, vec![(0, 0), (0, 1), (0, 2), (1, 0), (1, 1), (1, 2)]);
    for i in 0..mat.row() {
        for j in 0..mat.column() {
            assert_eq!((i, j), *mat.index(i, j));
        }
    }
}

#[test]
fn index() {
    let mat = Matrix::from_fn(3, 5, |i, j| (i, j));
    for i in 0..mat.row() {
        for j in 0..mat.column() {
            assert_eq!((i, j), *mat.index(i, j));
        }
    }
}

#[test]
fn mul() {
    let m1 = Matrix::from_vec(1, 3, vec![1.0f64, 2.0, 3.0]);
    let m2 = Matrix::from_vec(3, 1, vec![1.0, 2.0, 3.0]);
    assert_eq!(Matrix::from_vec(1, 1, vec![14.0]), m1.mul(&m2));
    assert_eq!(
        Matrix::from_vec(3, 1, vec![1.0f64, 4.0, 7.0]),
        Matrix::from_vec(3, 3, vec![1.0, 2.0, 3.0, 4.0, 5.0, 6.0, 7.0, 8.0, 9.0])
            .mul(&Matrix::from_vec(3, 1, vec![1.0, 0.0, 0.0]))
    );
    assert_eq!(
        Matrix::from_vec(3, 2, vec![1.0f64, 3.0, 4.0, 6.0, 7.0, 9.0]),
        Matrix::from_vec(3, 3, vec![1.0, 2.0, 3.0, 4.0, 5.0, 6.0, 7.0, 8.0, 9.0])
            .mul(&Matrix::from_vec(3, 2, vec![1.0, 0.0, 0.0, 0.0, 0.0, 1.0]))
    );
}

#[test]
fn mul_integer_column() {
    let m = Matrix::from_vec(3, 3, vec![1i64, 2, 3, 4, 5, 6, 7, 8, 9]);
    let v = Matrix::from_vec(3, 1, vec![1i64, 0, 0]);
    assert_eq!(Matrix::from_vec(3, 1, vec![1i64, 4, 7]), m.mul(&v));
}

#[test]
fn mul_integer_rectangular() {
    let m = Matrix::from_vec(3, 3, vec![1i64, 2, 3, 4, 5, 6, 7, 8, 9]);
    let p = Matrix::from_vec(3, 2, vec![1i64, 0, 0, 0, 0, 1]);
    assert_eq!(Matrix::from_vec(3, 2, vec![1i64, 3, 4, 6, 7, 9]), m.mul(&p));
}

#[test]
fn from_vec_flat_layout() {
    let data = vec![10i64, 20, 30, 40, 50, 60];
    let mat = Matrix::from_vec(2, 3, data.clone());
    for i in 0..2 {
        for j in 0..3 {
            assert_eq!(data[i * 3 + j], *mat.index(i, j));
        }
    }
}

#[test]
fn size_accessors() {
    let mat = Matrix::from_vec(2, 3, vec![0i64; 6]);
    assert_eq!((2, 3), mat.size());
    assert_eq!(2, mat.row());
    assert_eq!(3, mat.column());
}

#[test]
fn trans_rectangular() {
    let mat = Matrix::from_vec(2, 3, vec![1i64, 2, 3, 4, 5, 6]);
    let t = mat.trans();
    assert_eq!(Matrix::from_vec(3, 2, vec![1i64, 4, 2, 5, 3, 6]), t);
}

#[test]
fn trans_involution() {
    let mat = Matrix::from_vec(2, 3, vec![1i64, 2, 3, 4, 5, 6]);
    assert_eq!(mat, mat.trans().trans());
}

#[test]
fn trans_empty() {
    let mat: Matrix<i64> = Matrix::from_vec(0, 3, vec![]);
    let t = mat.trans();
    assert_eq!((3, 0), t.size());
}

#[test]
fn add_elementwise() {
    let a = Matrix::from_vec(2, 2, vec![1i64, 2, 3, 4]);
    let b = Matrix::from_vec(2, 2, vec![10i64, 20, 30, 40]);
    assert_eq!(Matrix::from_vec(2, 2, vec![11i64, 22, 33, 44]), a.add(&b));
}

#[test]
fn add_zero_identity() {
    let m = Matrix::from_vec(2, 3, vec![1i64, -2, 3, -4, 5, -6]);
    assert_eq!(m, m.add(&Matrix::zero(2, 3)));
}

#[test]
fn sub_elementwise() {
    let a = Matrix::from_vec(2, 2, vec![10i64, 20, 30, 40]);
    let b = Matrix::from_vec(2, 2, vec![1i64, 2, 3, 4]);
    assert_eq!(Matrix::from_vec(2, 2, vec![9i64, 18, 27, 36]), a.sub(&b));
}

#[test]
fn mul_one_identity() {
    let m = Matrix::from_vec(3, 3, vec![1i64, 2, 3, 4, 5, 6, 7, 8, 9]);
    assert_eq!(m, m.mul(&Matrix::one(3, 3)));
}

#[test]
fn zero_contents() {
    let z: Matrix<i64> = Matrix::zero(2, 3);
    assert_eq!((2, 3), z.size());
    for i in 0..2 {
        for j in 0..3 {
            assert_eq!(0, *z.index(i, j));
        }
    }
}

#[test]
fn one_contents_non_square() {
    let e: Matrix<i64> = Matrix::one(2, 3);
    assert_eq!(Matrix::from_vec(2, 3, vec![1i64, 0, 0, 0, 1, 0]), e);
}

#[test]
fn render_grid() {
    let m = Matrix::from_vec(2, 2, vec![1i64, 2, 3, 4]);
    let text = m.render(|x: &i64| x.to_string());
    assert_eq!("1 2 \n3 4 \n", text);
}

#[test]
fn render_empty() {
    let m: Matrix<i64> = Matrix::from_vec(0, 3, vec![]);
    assert_eq!("", m.render(|x: &i64| x.to_string()));
}

#[test]
fn mul_to_empty() {
    let a = Matrix::from_vec(2, 2, vec![1i64, 2, 3, 4]);
    let b: Matrix<i64> = Matrix::from_vec(2, 0, vec![]);
    assert_eq!((2, 0), a.mul(&b).size());
}

#[test]
fn from_fn_generator_values() {
    let m = Matrix::from_fn(2, 3, |i, j| (10 * i + j) as i64);
    assert_eq!(Matrix::from_vec(2, 3, vec![0i64, 1, 2, 10, 11, 12]), m);
}

#[test]
fn from_fn_empty() {
    let m: Matrix<i64> = Matrix::from_fn(0, 0, |_, _| 7);
    assert_eq!((0, 0), m.size());
}
