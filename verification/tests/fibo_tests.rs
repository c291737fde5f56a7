use led_matrix::fibo::fibo;

#[test]
fn fibo_small_values() {
    assert_eq!(fibo(0), Some(0));
    assert_eq!(fibo(1), Some(1));
    assert_eq!(fibo(2), Some(1));
    assert_eq!(fibo(3), Some(2));
    assert_eq!(fibo(10), Some(55));
    assert_eq!(fibo(20), Some(6765));
}

#[test]
fn fibo_largest_that_fits() {
    assert_eq!(fibo(46), Some(1_836_311_903));
    assert_eq!(fibo(47), Some(2_971_215_073));
}

#[test]
fn fibo_overflow_is_none() {
    assert_eq!(fibo(48), None);
    assert_eq!(fibo(100), None);
    assert_eq!(fibo(u32::MAX), None);
}
