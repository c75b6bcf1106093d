use strided_array::{ArrayView, ArrayViewMut, Data, DataMut, Matrix};

fn total(v: &ArrayView<i64>) -> i64 {
    let mut sum = 0;
    for i in 0..v.rows() {
        for j in 0..v.cols() {
            sum += *v.get(i, j).unwrap();
        }
    }
    sum
}

fn fill(v: &mut ArrayViewMut<i64>, value: i64) {
    for i in 0..v.rows() {
        for j in 0..v.cols() {
            v.set(i, j, value).unwrap();
        }
    }
}

#[test]
fn every_store_can_be_read() {
    let owned = vec![1, 2, 3];
    assert_eq!(owned.as_elems(), &[1, 2, 3]);
    let shared: &[i32] = &owned;
    assert_eq!(shared.as_elems(), &[1, 2, 3]);
    let mut other = vec![4, 5];
    let exclusive: &mut [i32] = &mut other;
    assert_eq!(exclusive.as_elems(), &[4, 5]);
}

#[test]
fn owned_and_exclusive_stores_can_be_written() {
    let mut owned = vec![1, 2, 3];
    owned.as_elems_mut()[1] = 20;
    assert_eq!(owned, vec![1, 20, 3]);
    {
        let mut exclusive: &mut [i32] = &mut owned;
        exclusive.as_elems_mut()[2] = 30;
        exclusive.as_elems_mut()[0] = 10;
    }
    assert_eq!(owned, vec![10, 20, 30]);
}

#[test]
fn views_pass_as_values_of_their_own_types() {
    let mut a: Matrix<i64> = Matrix::from_fn([3, 3], |i, j| (3 * i + j) as i64);
    assert_eq!(total(&a.slice(.., ..).unwrap()), 36);
    assert_eq!(total(&a.slice(1.., 1..).unwrap()), 4 + 5 + 7 + 8);
    fill(&mut a.slice_mut(..2, ..2).unwrap(), 0);
    assert_eq!(total(&a.slice(.., ..).unwrap()), 36 - (0 + 1 + 3 + 4));
}
