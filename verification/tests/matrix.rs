use raytrace::matrix::Matrix;

// Equality of two matrices of doubles, entry by entry, up to a small epsilon.
fn same(a: &Matrix<f64>, b: &Matrix<f64>) -> bool {
    if a.rows != b.rows || a.cols != b.cols || a.m.len() != b.m.len() {
        return false;
    }
    for n in 0..a.m.len() {
        if a.m[n].len() != b.m[n].len() {
            return false;
        }
        for m in 0..a.m[n].len() {
            if (a.m[n][m] - b.m[n][m]).abs() >= 0.00001 {
                return false;
            }
        }
    }
    true
}

#[test]
fn matrix_has_cols_and_rows() {
    let m = Matrix { cols: 4, rows: 4, m: vec![vec![0.0]] };
    assert!((m.cols == 4) && (m.rows == 4));
}

#[test]
fn matrix_created_with_new() {
    let m = Matrix::new(4, 4, 0.0);
    assert!(same(&m, &Matrix { cols: 4, rows: 4, m: vec![vec![0.0; 4]; 4] }));
}

#[test]
fn matrix_inspection() {
    let m = Matrix {
        cols: 4,
        rows: 4,
        m: vec![
            vec![1.0, 2.0, 3.0, 4.0],
            vec![5.5, 6.5, 7.5, 8.5],
            vec![9.0, 10.0, 11.0, 12.0],
            vec![13.5, 14.5, 15.5, 16.5],
        ],
    };
    assert!(
        m.m[0][0] == 1.0
            && m.m[0][3] == 4.0
            && m.m[1][0] == 5.5
            && m.m[1][2] == 7.5
            && m.m[2][2] == 11.0
            && m.m[3][0] == 13.5
            && m.m[3][2] == 15.5
    );
}

#[test]
fn two_by_two_matrix() {
    let m = Matrix { cols: 2, rows: 2, m: vec![vec![-3.0, 5.0], vec![1.0, -2.0]] };
    assert!(m.m[0][0] == -3.0 && m.m[0][1] == 5.0 && m.m[1][0] == 1.0 && m.m[1][1] == -2.0);
}

#[test]
fn three_by_three_matrix() {
    let m = Matrix {
        cols: 3,
        rows: 3,
        m: vec![vec![-3.0, 5.0, 0.0], vec![1.0, -2.0, -7.0], vec![0.0, 1.0, 1.0]],
    };
    assert!(m.m[0][0] == -3.0 && m.m[1][1] == -2.0 && m.m[2][2] == 1.0);
}

#[test]
fn matrix_getter() {
    let m = Matrix {
        cols: 4,
        rows: 4,
        m: vec![
            vec![1.0, 2.0, 3.0, 4.0],
            vec![5.0, 6.0, 7.0, 8.0],
            vec![9.0, 8.0, 7.0, 6.0],
            vec![5.0, 4.0, 3.0, 2.0],
        ],
    };
    assert!(m.get(1, 1) == 6.0);
    assert!(m.get(0, 2) == 3.0);
}

#[test]
fn matrix_identity() {
    let identity = Matrix {
        cols: 4,
        rows: 4,
        m: vec![
            vec![1.0, 0.0, 0.0, 0.0],
            vec![0.0, 1.0, 0.0, 0.0],
            vec![0.0, 0.0, 1.0, 0.0],
            vec![0.0, 0.0, 0.0, 1.0],
        ],
    };

    assert!(same(&Matrix::identity(0.0, 1.0), &identity));
}

#[test]
fn matrix_setter() {
    let mut m = Matrix {
        cols: 4,
        rows: 4,
        m: vec![
            vec![1.0, 2.0, 3.0, 4.0],
            vec![5.0, 6.0, 7.0, 8.0],
            vec![9.0, 8.0, 7.0, 6.0],
            vec![5.0, 4.0, 3.0, 2.0],
        ],
    };
    m.set(1, 1, 12.0);
    assert!(m.get(1, 1) == 12.0);
}

#[test]
fn matrix_transpose() {
    let m = Matrix {
        cols: 4,
        rows: 4,
        m: vec![
            vec![0.0, 9.0, 3.0, 0.0],
            vec![9.0, 8.0, 0.0, 8.0],
            vec![1.0, 8.0, 5.0, 3.0],
            vec![0.0, 0.0, 5.0, 8.0],
        ],
    };

    let result = Matrix {
        cols: 4,
        rows: 4,
        m: vec![
            vec![0.0, 9.0, 1.0, 0.0],
            vec![9.0, 8.0, 8.0, 0.0],
            vec![3.0, 0.0, 5.0, 5.0],
            vec![0.0, 8.0, 3.0, 8.0],
        ],
    };

    assert!(same(&m.transpose(), &result));
}

#[test]
fn matrix_transpose_identity() {
    assert!(same(&Matrix::identity(0.0, 1.0).transpose(), &Matrix::identity(0.0, 1.0)));
}

#[test]
fn submatrix_of_3_by_3() {
    let m = Matrix {
        cols: 3,
        rows: 3,
        m: vec![vec![1.0, 5.0, 0.0], vec![-3.0, 2.0, 7.0], vec![0.0, 6.0, -3.0]],
    };

    let sub = Matrix { cols: 2, rows: 2, m: vec![vec![-3.0, 2.0], vec![0.0, 6.0]] };

    assert!(same(&m.submatrix(0, 2), &sub));
}

#[test]
fn submatrix_of_4_by_4() {
    let m = Matrix {
        cols: 4,
        rows: 4,
        m: vec![
            vec![-6.0, 1.0, 1.0, 6.0],
            vec![-8.0, 5.0, 8.0, 6.0],
            vec![-1.0, 0.0, 8.0, 2.0],
            vec![-7.0, 1.0, -1.0, 1.0],
        ],
    };

    let sub = Matrix {
        cols: 3,
        rows: 3,
        m: vec![vec![-6.0, 1.0, 6.0], vec![-8.0, 8.0, 6.0], vec![-7.0, -1.0, 1.0]],
    };

    assert!(same(&m.submatrix(2, 1), &sub));
}

#[test]
fn transpose_of_a_matrix_that_is_not_square() {
    let m = Matrix { rows: 2, cols: 3, m: vec![vec![1, 2, 3], vec![4, 5, 6]] };
    let t = m.transpose();
    assert_eq!((t.rows, t.cols), (3, 2));
    assert_eq!(t.m, vec![vec![1, 4], vec![2, 5], vec![3, 6]]);
    let back = t.transpose();
    assert_eq!((back.rows, back.cols), (2, 3));
    assert_eq!(back.m, m.m);
}

#[test]
fn submatrix_at_the_edges() {
    let m = Matrix { rows: 3, cols: 3, m: vec![vec![1, 2, 3], vec![4, 5, 6], vec![7, 8, 9]] };
    assert_eq!(m.submatrix(0, 0).m, vec![vec![5, 6], vec![8, 9]]);
    assert_eq!(m.submatrix(2, 2).m, vec![vec![1, 2], vec![4, 5]]);
    assert_eq!(m.submatrix(1, 1).m, vec![vec![1, 3], vec![7, 9]]);
    let one = Matrix { rows: 1, cols: 1, m: vec![vec![7]] };
    let none = one.submatrix(0, 0);
    assert_eq!((none.rows, none.cols, none.m.len()), (0, 0, 0));
}

#[test]
fn new_fills_every_place() {
    let m = Matrix::new(3, 2, 'x');
    assert_eq!((m.rows, m.cols), (2, 3));
    assert_eq!(m.m, vec![vec!['x'; 3]; 2]);
}

#[test]
fn cofactor_sign_alternates() {
    for r in 0..4usize {
        for c in 0..4usize {
            assert_eq!(Matrix::<i32>::cofactor_negates(r, c), (r + c) % 2 != 0);
        }
    }
    assert!(Matrix::<i32>::cofactor_negates(usize::MAX, 0));
    assert!(!Matrix::<i32>::cofactor_negates(usize::MAX, usize::MAX));
}
