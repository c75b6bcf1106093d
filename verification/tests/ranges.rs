use strided_array::{ArrayError, ArrayRange};

#[test]
fn closed_range_keeps_both_ends() {
    let r = ArrayRange::from(1..3);
    assert_eq!(r, ArrayRange { start: 1, end: Some(3) });
}

#[test]
fn open_forms_leave_the_end_open() {
    assert_eq!(ArrayRange::from(..), ArrayRange { start: 0, end: None });
    assert_eq!(ArrayRange::from(2..), ArrayRange { start: 2, end: None });
    assert_eq!(ArrayRange::from(..5), ArrayRange { start: 0, end: Some(5) });
}

#[test]
fn single_index_is_width_one() {
    assert_eq!(ArrayRange::from(4usize), ArrayRange { start: 4, end: Some(5) });
    assert_eq!(ArrayRange::from(usize::MAX), ArrayRange { start: usize::MAX, end: Some(0) });
    assert_eq!(ArrayRange::from(usize::MAX).resolve(usize::MAX), Err(ArrayError::InvalidRange));
}

#[test]
fn resolution_reports_each_failure() {
    assert_eq!(ArrayRange::from(1..3).resolve(4), Ok((1, 3)));
    assert_eq!(ArrayRange::from(2..).resolve(4), Ok((2, 4)));
    assert_eq!(ArrayRange::from(3..3).resolve(3), Ok((3, 3)));
    assert_eq!(ArrayRange::from(3..1).resolve(4), Err(ArrayError::InvalidRange));
    assert_eq!(ArrayRange::from(5..).resolve(4), Err(ArrayError::InvalidRange));
    assert_eq!(ArrayRange::from(1..5).resolve(4), Err(ArrayError::OutOfBounds));
    assert_eq!(ArrayRange::from(6..5).resolve(4), Err(ArrayError::InvalidRange));
}
