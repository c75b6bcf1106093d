use strided_array::{ArrayError, Matrix};

#[test]
fn zero_fills_every_cell_with_zero() {
    let z: Matrix<i64> = Matrix::zero([2, 3]);
    assert_eq!(z.shape(), [2, 3]);
    assert_eq!(z.stride(), 3);
    for i in 0..2 {
        for j in 0..3 {
            assert_eq!(z.get(i, j), Ok(&0));
        }
    }
}

#[test]
fn zero_of_an_empty_shape_has_no_cells() {
    let z: Matrix<i64> = Matrix::zero([0, 5]);
    assert_eq!(z.shape(), [0, 5]);
    assert_eq!(z.get(0, 0), Err(ArrayError::OutOfBounds));
    let z: Matrix<i64> = Matrix::zero([5, 0]);
    assert_eq!(z.shape(), [5, 0]);
    assert_eq!(z.get(0, 0), Err(ArrayError::OutOfBounds));
}

#[test]
fn id_is_one_on_the_diagonal_and_zero_elsewhere() {
    let e: Matrix<i64> = Matrix::id(4);
    assert_eq!(e.shape(), [4, 4]);
    for i in 0..4 {
        for j in 0..4 {
            let want = if i == j { 1 } else { 0 };
            assert_eq!(e.get(i, j), Ok(&want));
        }
    }
}

#[test]
fn id_of_size_zero_is_empty() {
    let e: Matrix<i64> = Matrix::id(0);
    assert_eq!(e.shape(), [0, 0]);
}

#[test]
fn from_fn_calls_the_generator_on_each_cell() {
    let a: Matrix<i64> = Matrix::from_fn([2, 3], |i, j| (i * 3 + j) as i64);
    assert_eq!(a.get(0, 0), Ok(&0));
    assert_eq!(a.get(0, 2), Ok(&2));
    assert_eq!(a.get(1, 0), Ok(&3));
    assert_eq!(a.get(1, 2), Ok(&5));
}

#[test]
fn from_fn_fills_in_row_major_order() {
    let seen = std::cell::RefCell::new(Vec::new());
    let a: Matrix<i64> = Matrix::from_fn([2, 2], |i, j| {
        seen.borrow_mut().push((i, j));
        0
    });
    assert_eq!(a.shape(), [2, 2]);
    assert_eq!(seen.into_inner(), vec![(0, 0), (0, 1), (1, 0), (1, 1)]);
}

#[test]
fn from_fn_works_for_any_element_type() {
    let a: Matrix<String> = Matrix::from_fn([1, 2], |i, j| format!("{}{}", i, j));
    assert_eq!(a.get(0, 1).map(|s| s.as_str()), Ok("01"));
}

#[test]
fn from_literal_flattens_row_by_row() {
    let a = Matrix::from_literal(vec![
        vec![1.0, 2.0, 7.0, 9.0],
        vec![3.0, 4.0, 8.0, 5.0],
        vec![5.0, 6.0, 4.0, 3.0],
    ])
    .unwrap();
    assert_eq!(a.shape(), [3, 4]);
    assert_eq!(a.stride(), 4);
    assert_eq!(a.get(0, 3), Ok(&9.0));
    assert_eq!(a.get(1, 0), Ok(&3.0));
    assert_eq!(a.get(2, 2), Ok(&4.0));
}

#[test]
fn from_literal_rejects_ragged_rows() {
    let r = Matrix::from_literal(vec![vec![1, 2, 3], vec![4, 5, 6, 7]]);
    assert_eq!(r.err(), Some(ArrayError::RaggedRows));
    let r = Matrix::from_literal(vec![vec![1, 2, 3], vec![4, 5, 6], vec![]]);
    assert_eq!(r.err(), Some(ArrayError::RaggedRows));
}

#[test]
fn from_literal_of_nothing_is_empty() {
    let a = Matrix::<i64>::from_literal(vec![]).unwrap();
    assert_eq!(a.shape(), [0, 0]);
    let b = Matrix::<i64>::from_literal(vec![vec![], vec![]]).unwrap();
    assert_eq!(b.shape(), [2, 0]);
}
