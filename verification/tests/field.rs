use air_components::field::{Scalar, MODULUS};

#[test]
fn modulus_is_two_to_64_minus_two_to_32_plus_one() {
    assert_eq!(MODULUS, 18_446_744_069_414_584_321);
}

#[test]
fn new_reduces() {
    assert_eq!(Scalar::new(5).value(), 5);
    assert_eq!(Scalar::new(MODULUS).value(), 0);
    assert_eq!(Scalar::new(MODULUS + 7).value(), 7);
    assert_eq!(Scalar::new(u64::MAX).value(), 4_294_967_294);
    assert_eq!(Scalar::new(MODULUS), Scalar::zero());
}

#[test]
fn zero_and_one() {
    assert_eq!(Scalar::zero().value(), 0);
    assert_eq!(Scalar::one().value(), 1);
    assert!(Scalar::zero().is_zero());
    assert!(!Scalar::one().is_zero());
    assert!(Scalar::new(MODULUS).is_zero());
}

#[test]
fn add_wraps_at_the_modulus() {
    assert_eq!(Scalar::new(2).add(&Scalar::new(3)).value(), 5);
    assert_eq!(Scalar::new(MODULUS - 1).add(&Scalar::new(2)).value(), 1);
    assert_eq!(Scalar::new(MODULUS - 1).add(&Scalar::new(MODULUS - 1)).value(), MODULUS - 2);
    assert_eq!(Scalar::new(9).add(&Scalar::zero()), Scalar::new(9));
}

#[test]
fn mul_reduces_the_product() {
    assert_eq!(Scalar::new(6).mul(&Scalar::new(7)).value(), 42);
    // 2^32 * 2^32 = 2^64 = 2^32 - 1 modulo 2^64 - 2^32 + 1
    let two_to_32 = Scalar::new(1 << 32);
    assert_eq!(two_to_32.mul(&two_to_32).value(), 4_294_967_295);
    // (-1) * (-1) = 1
    let minus_one = Scalar::new(MODULUS - 1);
    assert_eq!(minus_one.mul(&minus_one).value(), 1);
    assert_eq!(Scalar::new(12345).mul(&Scalar::zero()), Scalar::zero());
    assert_eq!(Scalar::new(12345).mul(&Scalar::one()), Scalar::new(12345));
}

#[test]
fn neg_is_the_additive_inverse() {
    assert_eq!(Scalar::new(1).neg().value(), MODULUS - 1);
    assert_eq!(Scalar::zero().neg(), Scalar::zero());
    assert_eq!(Scalar::new(MODULUS - 1).neg().value(), 1);
    let a = Scalar::new(0xDEAD_BEEF_0BAD_F00D);
    assert!(a.add(&a.neg()).is_zero());
}
