use halo2_learn::field::Fp;

#[test]
fn field_addition_wraps_at_the_modulus() {
    let minus_one = Fp::zero().sub(&Fp::one());
    assert_eq!(minus_one.add(&Fp::one()), Fp::zero());
    assert_eq!(minus_one.neg(), Fp::one());
}

#[test]
fn field_product_and_inverse() {
    let seven = Fp::from_u64(7);
    let inverse = seven.invert().unwrap();
    assert_eq!(seven.mul(&inverse), Fp::one());
    assert_eq!(Fp::zero().invert(), None);
    assert_eq!(Fp::from_u64(6).mul(&Fp::from_u64(7)), Fp::from_u64(42));
    assert_eq!(Fp::from_u128(1u128 << 100).mul(&Fp::from_u128(1u128 << 27)), Fp::from_u128(1u128 << 127));
}
