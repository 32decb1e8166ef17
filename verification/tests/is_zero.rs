use halo2_learn::constraint_system::{Constraint, ConstraintSystem};
use halo2_learn::expression::{Column, Rotation, Selector};
use halo2_learn::failure::{FailureLocation, Named, VerifyFailure};
use halo2_learn::field::Fp;
use halo2_learn::is_zero::{IsZeroChip, IsZeroConfig};
use halo2_learn::layouter::Layouter;
use halo2_learn::session::{Error, Reason};
use halo2_learn::value::Value;

/// A circuit of one row: a value, the gadget's witness for it, and a cell
/// that is constrained to hold the gadget's expression.
fn gadget() -> (ConstraintSystem, Selector, Column, Column, IsZeroConfig) {
    let mut cs = ConstraintSystem::new();
    let q = cs.selector();
    let value = cs.advice_column();
    let flag = cs.advice_column();
    let value_inv = cs.advice_column();
    let q_enable = cs.query_selector(q);
    let value_query = cs.query_advice(value, Rotation::cur());
    let config = IsZeroChip::configure(&mut cs, q_enable, value_query, value_inv);
    // q * (flag - is_zero)
    let poly = cs
        .query_selector(q)
        .times(cs.query_advice(flag, Rotation::cur()).minus(config.expr()));
    cs.create_gate("flag", vec![Constraint::new("flag", poly)]);
    (cs, q, value, flag, config)
}

fn check(value: Fp, flag: u64, witness: Option<Fp>) -> Result<(), Vec<VerifyFailure>> {
    let (cs, q, value_column, flag_column, config) = gadget();
    let value_inv = config.value_inv;
    let chip = IsZeroChip::construct(config);
    let mut layouter = Layouter::new(cs, 4, vec![], false).unwrap();
    layouter.enter_region("is zero").unwrap();
    layouter.enable_selector(q, 0).unwrap();
    layouter.assign_advice(value_column, 0, Value::known(value)).unwrap();
    layouter.assign_advice(flag_column, 0, Value::known(Fp::from_u64(flag))).unwrap();
    match witness {
        None => chip.assign(&mut layouter, 0, Value::known(value)).unwrap(),
        Some(w) => {
            layouter.assign_advice(value_inv, 0, Value::known(w)).unwrap();
        }
    }
    layouter.exit_region().unwrap();
    layouter.verify()
}

fn is_zero_failure(index: usize, name: &'static str) -> impl Fn(&VerifyFailure) -> bool {
    move |failure| match failure {
        VerifyFailure::ConstraintNotSatisfied { gate, location, .. } => {
            *gate == Named { index, name }
                && *location
                    == FailureLocation::InRegion {
                        region: Named { index: 0, name: "is zero" },
                        offset: 0,
                    }
        }
        _ => false,
    }
}

#[test]
fn is_zero_holds_with_the_inverse_or_zero() {
    assert_eq!(check(Fp::from_u64(5), 0, None), Ok(()));
    assert_eq!(check(Fp::zero(), 1, None), Ok(()));
    assert_eq!(check(Fp::zero().sub(&Fp::one()), 0, None), Ok(()));
    // The flag is held to the gadget's expression.
    let failures = check(Fp::from_u64(5), 1, None).unwrap_err();
    assert_eq!(failures.len(), 1);
    assert!(is_zero_failure(1, "flag")(&failures[0]));
    let failures = check(Fp::zero(), 0, None).unwrap_err();
    assert_eq!(failures.len(), 1);
    assert!(is_zero_failure(1, "flag")(&failures[0]));
}

#[test]
fn is_zero_fails_with_another_witness() {
    let five = Fp::from_u64(5);
    let inverse = five.invert().unwrap();
    assert_eq!(check(five, 0, Some(inverse)), Ok(()));
    for wrong in [Fp::zero(), Fp::one(), five, inverse.add(&Fp::one()), inverse.neg()] {
        let failures = check(five, 0, Some(wrong)).unwrap_err();
        assert!(failures.iter().any(is_zero_failure(0, "is_zero")), "{:?}", failures);
    }
}

#[test]
fn is_zero_of_zero_holds_with_the_witness_zero_alone() {
    assert_eq!(check(Fp::zero(), 1, Some(Fp::zero())), Ok(()));
    for witness in [Fp::one(), Fp::from_u64(77), Fp::zero().sub(&Fp::one())] {
        let failures = check(Fp::zero(), 1, Some(witness)).unwrap_err();
        assert_eq!(failures.len(), 1);
        match &failures[0] {
            VerifyFailure::ConstraintNotSatisfied { gate, constraint, location, .. } => {
                assert_eq!(*gate, Named { index: 0, name: "is_zero" });
                assert_eq!(*constraint, Named { index: 1, name: "" });
                assert_eq!(
                    *location,
                    FailureLocation::InRegion {
                        region: Named { index: 0, name: "is zero" },
                        offset: 0
                    }
                );
            }
            other => panic!("unexpected failure {:?}", other),
        }
    }
}

#[test]
fn chip_writes_the_inverse() {
    let (cs, _q, _value, _flag, config) = gadget();
    let value_inv = config.value_inv;
    let chip = IsZeroChip::construct(config);
    let mut layouter = Layouter::new(cs, 4, vec![], false).unwrap();
    assert_eq!(
        chip.assign(&mut layouter, 0, Value::known(Fp::one())),
        Err(Error::Configuration(Reason::NoRegionOpen))
    );
    layouter.enter_region("is zero").unwrap();
    chip.assign(&mut layouter, 0, Value::known(Fp::from_u64(2))).unwrap();
    chip.assign(&mut layouter, 1, Value::known(Fp::zero())).unwrap();
    chip.assign(&mut layouter, 2, Value::unknown()).unwrap();
    layouter.exit_region().unwrap();
    let half = layouter.value_at(value_inv, 0);
    assert_eq!(half.mul(&Value::known(Fp::from_u64(2))), Value::known(Fp::one()));
    assert_eq!(layouter.value_at(value_inv, 1), Value::known(Fp::zero()));
    assert_eq!(layouter.value_at(value_inv, 2), Value::Unknown);
}

#[test]
fn simple_selector_has_to_stand_alone() {
    let mut cs = ConstraintSystem::new();
    let s = cs.selector();
    let t = cs.selector();
    let a = cs.advice_column();
    let poly = cs
        .query_selector(s)
        .times(cs.query_selector(t).times(cs.query_advice(a, Rotation::cur())));
    cs.create_gate("two selectors", vec![Constraint::new("", poly)]);
    assert!(!cs.selectors_apart());
    assert_eq!(
        Layouter::new(cs, 4, vec![], false).err(),
        Some(Error::Configuration(Reason::SelectorNotAlone))
    );

    // Complex selectors can be multiplied.
    let mut cs = ConstraintSystem::new();
    let s = cs.complex_selector();
    let t = cs.complex_selector();
    let poly = cs.query_selector(s).times(cs.query_selector(t));
    cs.create_gate("two selectors", vec![Constraint::new("", poly)]);
    assert!(Layouter::new(cs, 4, vec![], false).is_ok());

    // A simple one cannot be multiplied with a complex one either.
    let mut cs = ConstraintSystem::new();
    let s = cs.complex_selector();
    let t = cs.selector();
    let poly = cs.query_selector(s).times(cs.query_selector(t));
    cs.create_gate("two selectors", vec![Constraint::new("", poly)]);
    assert_eq!(
        Layouter::new(cs, 4, vec![], false).err(),
        Some(Error::Configuration(Reason::SelectorNotAlone))
    );

    // Selectors in different terms of a sum do not meet.
    let mut cs = ConstraintSystem::new();
    let s = cs.selector();
    let t = cs.selector();
    let poly = cs.query_selector(s).plus(cs.query_selector(t));
    cs.create_gate("two selectors", vec![Constraint::new("", poly)]);
    assert!(Layouter::new(cs, 4, vec![], false).is_ok());
}
