use halo2_learn::expression::{Rotation, VirtualCell};
use halo2_learn::failure::{FailureLocation, Named, VerifyFailure};
use halo2_learn::fibonacci::example1;
use halo2_learn::fibonacci::example2;
use halo2_learn::fibonacci::example3;
use halo2_learn::field::Fp;
use halo2_learn::constraint_system::ConstraintSystem;
use halo2_learn::layouter::Layouter;
use halo2_learn::prover::Circuit;
use halo2_learn::prover::MockProver;
use halo2_learn::expression::{Any, Column};

#[test]
fn test_example1() {
    let k = 4;

    let a = Fp::from_u64(1); // F[0]
    let b = Fp::from_u64(1); // F[1]
    let out = Fp::from_u64(55); // F[9]

    let circuit = example1::MyCircuit;

    let mut public_input = vec![a, b, out];

    let prover = MockProver::run(k, &circuit, vec![public_input.clone()]).unwrap();
    assert_eq!(prover.verify(), Ok(()));

    public_input[2] = public_input[2].add(&Fp::one());
    let prover = MockProver::run(k, &circuit, vec![public_input]).unwrap();
    let failures = prover.verify().unwrap_err();
    assert_eq!(failures.len(), 1);
    assert!(matches!(
        &failures[0],
        VerifyFailure::ConstraintNotSatisfied { gate: Named { index: 0, name: "add" }, .. }
    ));
}

#[test]
fn test_example2() {
    let k = 4;

    let a = Fp::from_u64(1); // F[0]
    let b = Fp::from_u64(1); // F[1]
    let out = Fp::from_u64(55); // F[9]

    let circuit = example2::MyCircuit;

    let mut public_input = vec![a, b, out];

    let prover = MockProver::run(k, &circuit, vec![public_input.clone()]).unwrap();
    assert_eq!(prover.verify(), Ok(()));

    public_input[2] = public_input[2].add(&Fp::one());
    let prover = MockProver::run(k, &circuit, vec![public_input]).unwrap();
    assert!(prover.verify().is_err());
}

#[test]
fn test_example3() {
    let circuit = example3::FunctionCircuit {
        a: Fp::from_u64(10),
        b: Fp::from_u64(12),
        c: Fp::from_u64(15),
    };

    let prover = MockProver::run(4, &circuit, vec![]).unwrap();
    assert_eq!(prover.verify(), Ok(()));
}

#[test]
fn fibonacci_rows_accept_exactly_the_tenth_term() {
    // 3, 4, 7, 11, 18, 29, 47, 76, 123, 199
    let good = vec![Fp::from_u64(3), Fp::from_u64(4), Fp::from_u64(199)];
    let prover = MockProver::run(4, &example1::MyCircuit, vec![good]).unwrap();
    assert_eq!(prover.verify(), Ok(()));

    let bad = vec![Fp::from_u64(3), Fp::from_u64(4), Fp::from_u64(200)];
    let prover = MockProver::run(4, &example1::MyCircuit, vec![bad]).unwrap();
    // The public output reaches the third advice cell of the eighth row,
    // where the addition gate holds it against the sum of the two terms before.
    let cell = |index: usize, value: u64| {
        (
            VirtualCell { column: Column { kind: Any::Advice, index }, rotation: Rotation(0) },
            Fp::from_u64(value),
        )
    };
    assert_eq!(
        prover.verify(),
        Err(vec![VerifyFailure::ConstraintNotSatisfied {
            gate: Named { index: 0, name: "add" },
            constraint: Named { index: 0, name: "" },
            location: FailureLocation::InRegion {
                region: Named { index: 7, name: "next row" },
                offset: 0
            },
            cell_values: vec![cell(0, 76), cell(1, 123), cell(2, 200)],
        }])
    );
}

#[test]
fn fibonacci_column_accepts_exactly_the_tenth_term() {
    let good = vec![Fp::from_u64(3), Fp::from_u64(4), Fp::from_u64(199)];
    let prover = MockProver::run(4, &example2::MyCircuit, vec![good]).unwrap();
    assert_eq!(prover.verify(), Ok(()));

    let bad = vec![Fp::from_u64(3), Fp::from_u64(4), Fp::from_u64(200)];
    let prover = MockProver::run(4, &example2::MyCircuit, vec![bad]).unwrap();
    // The public output reaches the tenth cell, which the addition gate of the
    // eighth row reads two rows below itself.
    let cell = |rotation: i32, value: u64| {
        (
            VirtualCell {
                column: Column { kind: Any::Advice, index: 0 },
                rotation: Rotation(rotation),
            },
            Fp::from_u64(value),
        )
    };
    assert_eq!(
        prover.verify(),
        Err(vec![VerifyFailure::ConstraintNotSatisfied {
            gate: Named { index: 0, name: "add" },
            constraint: Named { index: 0, name: "" },
            location: FailureLocation::InRegion {
                region: Named { index: 0, name: "entire fibonacci table" },
                offset: 7
            },
            cell_values: vec![cell(0, 76), cell(1, 123), cell(2, 200)],
        }])
    );
}

#[test]
fn fibonacci_wraps_at_the_modulus() {
    // Start from -1 and 1: -1, 1, 0, 1, 1, 2, 3, 5, 8, 13.
    let minus_one = Fp::zero().sub(&Fp::one());
    let input = vec![minus_one, Fp::one(), Fp::from_u64(13)];
    let prover = MockProver::run(4, &example1::MyCircuit, vec![input.clone()]).unwrap();
    assert_eq!(prover.verify(), Ok(()));
    let prover = MockProver::run(4, &example2::MyCircuit, vec![input]).unwrap();
    assert_eq!(prover.verify(), Ok(()));
}

#[test]
fn function_takes_c_where_a_equals_b() {
    let circuit = example3::FunctionCircuit {
        a: Fp::from_u64(12),
        b: Fp::from_u64(12),
        c: Fp::from_u64(15),
    };
    let prover = MockProver::run(4, &circuit, vec![]).unwrap();
    assert_eq!(prover.verify(), Ok(()));

    // a - b below zero wraps.
    let circuit = example3::FunctionCircuit {
        a: Fp::from_u64(0),
        b: Fp::from_u64(1),
        c: Fp::from_u64(7),
    };
    let prover = MockProver::run(4, &circuit, vec![]).unwrap();
    assert_eq!(prover.verify(), Ok(()));
}

/// Lays out `nrows` terms with the chip of the one-column circuit, binds the
/// last cell to the third public input, and checks.
fn check_column(nrows: usize, out: u64) -> Result<(), Vec<VerifyFailure>> {
    let mut cs = ConstraintSystem::new();
    let config = example2::MyCircuit::configure(&mut cs);
    let chip = example2::FiboChip::construct(config);
    let input = vec![Fp::from_u64(1), Fp::from_u64(1), Fp::from_u64(out)];
    let mut layouter = Layouter::new(cs, 5, vec![input], false).unwrap();
    let cell = chip.assign(&mut layouter, nrows).unwrap();
    assert_eq!(cell.0.cell.row, nrows - 1);
    chip.expose_public(&mut layouter, cell, 2).unwrap();
    layouter.verify()
}

#[test]
fn fibonacci_column_of_any_length_accepts_its_last_term() {
    // 1, 1, 2, 3, 5, 8, 13, 21, 34, 55, 89, 144
    for (nrows, last) in [(4, 3), (5, 5), (6, 8), (10, 55), (12, 144), (26, 121393)] {
        assert_eq!(check_column(nrows, last), Ok(()));
        let failures = check_column(nrows, last + 1).unwrap_err();
        assert_eq!(failures.len(), 1);
        match &failures[0] {
            VerifyFailure::ConstraintNotSatisfied { gate, location, .. } => {
                assert_eq!(*gate, Named { index: 0, name: "add" });
                assert_eq!(
                    *location,
                    FailureLocation::InRegion {
                        region: Named { index: 0, name: "entire fibonacci table" },
                        offset: nrows - 3
                    }
                );
            }
            other => panic!("unexpected failure {:?}", other),
        }
    }
}
