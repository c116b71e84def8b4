use renormalization_group::linalg::{is_square_system, transpose};

#[test]
fn transpose_rectangular() {
    let a = vec![vec![1.0, 2.0, 3.0], vec![4.0, 5.0, 6.0]];
    let t = transpose(&a);
    assert_eq!(t, vec![vec![1.0, 4.0], vec![2.0, 5.0], vec![3.0, 6.0]]);
}

#[test]
fn transpose_twice_is_identity() {
    let a = vec![vec![1, 2], vec![3, 4], vec![5, 6]];
    assert_eq!(transpose(&transpose(&a)), a);
}

#[test]
fn transpose_empty() {
    let a: Vec<Vec<f64>> = vec![];
    assert!(transpose(&a).is_empty());
    let b: Vec<Vec<f64>> = vec![vec![], vec![]];
    assert!(transpose(&b).is_empty());
}

#[test]
fn transpose_ignores_extra_columns_of_later_rows() {
    let a = vec![vec![1, 2], vec![3, 4, 9]];
    assert_eq!(transpose(&a), vec![vec![1, 3], vec![2, 4]]);
}

#[test]
fn square_system_shapes() {
    let a = vec![vec![1.0, 0.0], vec![0.0, 1.0]];
    assert!(is_square_system(&a, 2));
    assert!(!is_square_system(&a, 3));
    let ragged = vec![vec![1.0, 0.0], vec![0.0]];
    assert!(!is_square_system(&ragged, 2));
    let empty: Vec<Vec<f64>> = vec![];
    assert!(is_square_system(&empty, 0));
}
