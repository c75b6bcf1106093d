use strided_array::Ring;

#[test]
fn integer_ring_has_zero_and_one() {
    assert_eq!(<i64 as Ring>::zero(), 0);
    assert_eq!(<i64 as Ring>::one(), 1);
}

#[test]
fn integer_ring_operations() {
    assert_eq!(Ring::add(&3i64, &4), 7);
    assert_eq!(Ring::mul(&3i64, &-4), -12);
    assert_eq!(Ring::neg(&3i64), -3);
    assert_eq!(Ring::neg(&0i64), 0);
}

#[test]
fn integer_ring_wraps_around() {
    assert_eq!(Ring::add(&i64::MAX, &1), i64::MIN);
    assert_eq!(Ring::add(&i64::MIN, &-1), i64::MAX);
    assert_eq!(Ring::mul(&i64::MAX, &2), -2);
    assert_eq!(Ring::neg(&i64::MIN), i64::MIN);
    assert_eq!(Ring::mul(&(1i64 << 32), &(1i64 << 32)), 0);
}

#[test]
fn integer_ring_laws_on_samples() {
    let xs = [0i64, 1, -1, 7, i64::MAX, i64::MIN, 1 << 40, -(1 << 33) + 5];
    for a in xs {
        assert_eq!(a.add(&0), a);
        assert_eq!(a.add(&a.neg()), 0);
        assert_eq!(a.mul(&1), a);
        assert_eq!(1i64.mul(&a), a);
        assert_eq!(a.mul(&0), 0);
        for b in xs {
            assert_eq!(a.add(&b), b.add(&a));
            for c in xs {
                assert_eq!(a.add(&b).add(&c), a.add(&b.add(&c)));
                assert_eq!(a.mul(&b).mul(&c), a.mul(&b.mul(&c)));
                assert_eq!(a.mul(&b.add(&c)), a.mul(&b).add(&a.mul(&c)));
                assert_eq!(a.add(&b).mul(&c), a.mul(&c).add(&b.mul(&c)));
            }
        }
    }
}
