use mathlab::math::fact;
use mathlab::math::fact_vec;
use mathlab::math::gamma;
use mathlab::math::gamma_vec;

#[test]
fn fact_boundary() {
    assert_eq!(fact(0), 1);
    assert_eq!(fact(1), 1);
    assert_eq!(fact(2), 2);
    assert_eq!(fact(3), 6);
    assert_eq!(fact(5), 120);
    assert_eq!(fact(16), 20922789888000);
    assert_eq!(fact(18), 6402373705728000);
}

#[test]
fn fact_largest_exact() {
    // 20! is the largest factorial a u64 can hold exactly.
    assert_eq!(fact(20), 2432902008176640000);
}

#[test]
fn fact_wraps_past_twenty() {
    // 21! exceeds u64::MAX; the product wraps modulo 2^64.
    assert_eq!(fact(21), 51090942171709440000u128 as u64);
    assert_eq!(fact(21), 14197454024290336768);
}

#[test]
fn gamma_is_shifted_factorial() {
    assert_eq!(gamma(1), 1);
    assert_eq!(gamma(2), 1);
    assert_eq!(gamma(3), 2);
    assert_eq!(gamma(4), 6);
    assert_eq!(gamma(6), 120);
    assert_eq!(gamma(17), 20922789888000);
    assert_eq!(gamma(19), 6402373705728000);
}

#[test]
fn fact_vec_maps_each_element() {
    let xs = [0u64, 1, 2, 3, 16, 18];
    assert_eq!(
        fact_vec(&xs),
        vec![1, 1, 2, 6, 20922789888000, 6402373705728000]
    );
}

#[test]
fn fact_vec_empty() {
    let xs: [u64; 0] = [];
    assert_eq!(fact_vec(&xs), Vec::<u64>::new());
}

#[test]
fn gamma_vec_maps_each_element() {
    let xs = [1u64, 2, 3, 4, 17, 19];
    assert_eq!(
        gamma_vec(&xs),
        vec![1, 1, 2, 6, 20922789888000, 6402373705728000]
    );
}
