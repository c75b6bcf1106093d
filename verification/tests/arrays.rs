use strided_array::{ArrayError, Matrix};

fn grid() -> Matrix<i64> {
    // 3 x 4, cell (i, j) holds 10 * i + j
    Matrix::from_fn([3, 4], |i, j| (10 * i + j) as i64)
}

#[test]
fn shape_and_stride_of_an_owned_array() {
    let a = grid();
    assert_eq!(a.rows(), 3);
    assert_eq!(a.cols(), 4);
    assert_eq!(a.shape(), [3, 4]);
    assert_eq!(a.stride(), 4);
}

#[test]
fn get_reads_each_cell() {
    let a = grid();
    for i in 0..3 {
        for j in 0..4 {
            assert_eq!(a.get(i, j), Ok(&((10 * i + j) as i64)));
        }
    }
}

#[test]
fn get_outside_the_shape_is_out_of_bounds() {
    let a = grid();
    assert_eq!(a.get(3, 0), Err(ArrayError::OutOfBounds));
    assert_eq!(a.get(0, 4), Err(ArrayError::OutOfBounds));
    assert_eq!(a.get(usize::MAX, usize::MAX), Err(ArrayError::OutOfBounds));
}

#[test]
fn set_writes_one_cell_and_no_other() {
    let mut a = grid();
    assert_eq!(a.set(1, 2, -7), Ok(()));
    for i in 0..3 {
        for j in 0..4 {
            let want = if (i, j) == (1, 2) { -7 } else { (10 * i + j) as i64 };
            assert_eq!(a.get(i, j), Ok(&want));
        }
    }
}

#[test]
fn set_outside_the_shape_changes_nothing() {
    let mut a = grid();
    assert_eq!(a.set(3, 0, 99), Err(ArrayError::OutOfBounds));
    assert_eq!(a.set(0, 4, 99), Err(ArrayError::OutOfBounds));
    for i in 0..3 {
        for j in 0..4 {
            assert_eq!(a.get(i, j), Ok(&((10 * i + j) as i64)));
        }
    }
}

#[test]
fn slice_is_a_pure_reindexing() {
    let a = grid();
    let v = a.slice(1..3, 1..4).unwrap();
    assert_eq!(v.shape(), [2, 3]);
    assert_eq!(v.stride(), 4);
    for i in 0..2 {
        for j in 0..3 {
            assert_eq!(v.get(i, j), a.get(1 + i, 1 + j));
        }
    }
    assert_eq!(v.get(0, 0), Ok(&11));
    assert_eq!(v.get(1, 2), Ok(&23));
    assert_eq!(v.get(2, 0), Err(ArrayError::OutOfBounds));
    assert_eq!(v.get(0, 3), Err(ArrayError::OutOfBounds));
}

#[test]
fn slice_accepts_every_range_form() {
    let a = grid();
    let all = a.slice(.., ..).unwrap();
    assert_eq!(all.shape(), [3, 4]);
    let tail = a.slice(1.., 2..).unwrap();
    assert_eq!(tail.shape(), [2, 2]);
    assert_eq!(tail.get(0, 0), Ok(&12));
    let head = a.slice(..2, ..3).unwrap();
    assert_eq!(head.shape(), [2, 3]);
    assert_eq!(head.get(1, 2), Ok(&12));
    let row = a.slice(2usize, ..).unwrap();
    assert_eq!(row.shape(), [1, 4]);
    assert_eq!(row.get(0, 3), Ok(&23));
    let cell = a.slice(1usize, 3usize).unwrap();
    assert_eq!(cell.shape(), [1, 1]);
    assert_eq!(cell.get(0, 0), Ok(&13));
}

#[test]
fn slice_of_a_slice_keeps_the_stride() {
    let a = grid();
    let v = a.slice(1..3, 1..4).unwrap();
    let w = v.slice(1.., 1..3).unwrap();
    assert_eq!(w.shape(), [1, 2]);
    assert_eq!(w.stride(), 4);
    assert_eq!(w.get(0, 0), Ok(&22));
    assert_eq!(w.get(0, 1), Ok(&23));
    assert_eq!(w.get(0, 2), Err(ArrayError::OutOfBounds));
}

#[test]
fn empty_ranges_give_empty_views() {
    let a = grid();
    let v = a.slice(0..0, 0..4).unwrap();
    assert_eq!(v.rows(), 0);
    assert_eq!(v.cols(), 4);
    for i in 0..5 {
        for j in 0..5 {
            assert_eq!(v.get(i, j), Err(ArrayError::OutOfBounds));
        }
    }
    let w = a.slice(3..3, 4..4).unwrap();
    assert_eq!(w.shape(), [0, 0]);
    assert_eq!(w.get(0, 0), Err(ArrayError::OutOfBounds));
    let x = a.slice(1..2, 2..2).unwrap();
    assert_eq!(x.shape(), [1, 0]);
    assert_eq!(x.slice(.., ..).unwrap().shape(), [1, 0]);
}

#[test]
fn a_range_that_starts_after_its_end_is_invalid() {
    let a = grid();
    assert_eq!(a.slice(2..1, ..).err(), Some(ArrayError::InvalidRange));
    assert_eq!(a.slice(.., 3..2).err(), Some(ArrayError::InvalidRange));
    assert_eq!(a.slice(4.., ..).err(), Some(ArrayError::InvalidRange));
    assert_eq!(a.slice(usize::MAX, ..).err(), Some(ArrayError::InvalidRange));
}

#[test]
fn a_range_that_leaves_the_shape_is_out_of_bounds() {
    let a = grid();
    assert_eq!(a.slice(0..4, ..).err(), Some(ArrayError::OutOfBounds));
    assert_eq!(a.slice(.., ..5).err(), Some(ArrayError::OutOfBounds));
    assert_eq!(a.slice(3usize, ..).err(), Some(ArrayError::OutOfBounds));
}

#[test]
fn the_row_range_is_judged_first() {
    let a = grid();
    assert_eq!(a.slice(0..4, 3..2).err(), Some(ArrayError::OutOfBounds));
    assert_eq!(a.slice(2..1, ..5).err(), Some(ArrayError::InvalidRange));
}

#[test]
fn writes_through_a_mutable_view_reach_the_source() {
    let mut a = grid();
    {
        let mut v = a.slice_mut(1..3, 1..4).unwrap();
        assert_eq!(v.shape(), [2, 3]);
        assert_eq!(v.stride(), 4);
        assert_eq!(v.get(1, 1), Ok(&22));
        assert_eq!(v.set(1, 1, 500), Ok(()));
        assert_eq!(v.get(1, 1), Ok(&500));
        assert_eq!(v.set(2, 0, 1), Err(ArrayError::OutOfBounds));
    }
    for i in 0..3 {
        for j in 0..4 {
            let want = if (i, j) == (2, 2) { 500 } else { (10 * i + j) as i64 };
            assert_eq!(a.get(i, j), Ok(&want));
        }
    }
}

#[test]
fn writes_through_nested_mutable_views_reach_the_source() {
    let mut a = grid();
    {
        let mut v = a.slice_mut(1.., 1..).unwrap();
        {
            let mut w = v.slice_mut(1usize, 1..).unwrap();
            assert_eq!(w.shape(), [1, 2]);
            assert_eq!(w.set(0, 1, -1), Ok(()));
        }
        assert_eq!(v.get(1, 2), Ok(&-1));
        assert_eq!(v.set(0, 0, -2), Ok(()));
    }
    assert_eq!(a.get(2, 3), Ok(&-1));
    assert_eq!(a.get(1, 1), Ok(&-2));
    assert_eq!(a.get(0, 0), Ok(&0));
    assert_eq!(a.get(2, 2), Ok(&22));
}

#[test]
fn a_mutable_view_can_be_read_through_a_shared_one() {
    let mut a = grid();
    let mut v = a.slice_mut(..2, ..2).unwrap();
    v.set(0, 1, 8).unwrap();
    let r = v.slice(.., 1usize).unwrap();
    assert_eq!(r.shape(), [2, 1]);
    assert_eq!(r.get(0, 0), Ok(&8));
    assert_eq!(r.get(1, 0), Ok(&11));
}

#[test]
fn slice_mut_reports_the_same_failures_as_slice() {
    let mut a = grid();
    assert_eq!(a.slice_mut(2..1, ..).err(), Some(ArrayError::InvalidRange));
    assert_eq!(a.slice_mut(.., ..5).err(), Some(ArrayError::OutOfBounds));
    let mut v = a.slice_mut(.., ..).unwrap();
    assert_eq!(v.slice_mut(4.., ..).err(), Some(ArrayError::InvalidRange));
    assert_eq!(v.slice_mut(..4, ..).err(), Some(ArrayError::OutOfBounds));
    assert_eq!(a.get(2, 3), Ok(&23));
}

#[test]
fn span_is_the_stretch_from_first_cell_to_last() {
    let a = grid();
    assert_eq!(a.span(), &[0, 1, 2, 3, 10, 11, 12, 13, 20, 21, 22, 23]);
    let v = a.slice(1..3, 1..3).unwrap();
    assert_eq!(v.span(), &[11, 12, 13, 20, 21, 22]);
    for i in 0..2 {
        for j in 0..2 {
            assert_eq!(Ok(&v.span()[i * v.stride() + j]), v.get(i, j));
        }
    }
    let row = a.slice(2usize, 1..).unwrap();
    assert_eq!(row.span(), &[21, 22, 23]);
}

#[test]
fn span_of_an_empty_view_is_empty() {
    let a = grid();
    assert!(a.slice(3.., ..).unwrap().span().is_empty());
    assert!(a.slice(1..2, 4..).unwrap().span().is_empty());
    let mut b = grid();
    assert!(b.slice_mut(0..0, ..).unwrap().span().is_empty());
}
