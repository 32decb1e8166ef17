use halo2_learn::constraint_system::ConstraintSystem;
use halo2_learn::expression::{Any, Column, Rotation, VirtualCell};
use halo2_learn::failure::{FailureLocation, Named, VerifyFailure};
use halo2_learn::field::Fp;
use halo2_learn::layouter::Layouter;
use halo2_learn::prover::MockProver;
use halo2_learn::range_check::decompose_range_check::{
    DecomposeRangeCheckCircuit, DecomposeRangeCheckConfig, RANGE,
};
use halo2_learn::prover::Circuit;
use halo2_learn::range_check::count_bits;
use halo2_learn::range_check::decompose_range_check::table::RangeTableConfig as RunTable;
use halo2_learn::range_check::example2::table::RangeTableConfig as PlainTable;
use halo2_learn::range_check::example3::table::RangeTableConfig as TaggedTable;
use halo2_learn::range_check::{example1b, example2, example3};
use halo2_learn::session::{Error, Reason};
use halo2_learn::value::Value;

#[test]
fn test_range_check_pass() {
    let k = 10; // 8, 128, etc

    // Successful cases
    for _i in 0..RANGE {
        let i = 0;
        let circuit = DecomposeRangeCheckCircuit { value: i as u128 };

        let prover = MockProver::run(k, &circuit, vec![]).unwrap();
        assert_eq!(prover.verify(), Ok(()));
    }
}

#[test]
fn test_range_check_fail() {
    let k = 10;
    // Out of the range of eight windows of three bits: `value = 2^24`
    let circuit = DecomposeRangeCheckCircuit { value: 1u128 << 24 };
    let prover = MockProver::run(k, &circuit, vec![]).unwrap();
    match prover.verify() {
        Err(_e) => {
            println!("Error successfully achieved!");
        }
        _ => assert_eq!(1, 0),
    }
}

#[test]
fn test_range_check_1() {
    let k = 4; //2^k rows
    const RANGE: usize = 8; // 3-bit value
    let testvalue: u64 = 22;

    // Successful cases
    for i in 0..RANGE {
        let circuit = example1b::MyCircuit::<RANGE> {
            assigned_value: Value::known(Fp::from_u64(i as u64)),
        };

        let prover = MockProver::run(k, &circuit, vec![]).unwrap();
        assert_eq!(prover.verify(), Ok(()));
    }

    // Out-of-range `value = 8`
    {
        let circuit = example1b::MyCircuit::<RANGE> {
            assigned_value: Value::known(Fp::from_u64(testvalue)),
        };
        let prover = MockProver::run(k, &circuit, vec![]).unwrap();
        assert_eq!(
            prover.verify(),
            Err(vec![VerifyFailure::ConstraintNotSatisfied {
                gate: Named { index: 0, name: "range check" },
                constraint: Named { index: 0, name: "range check" },
                location: FailureLocation::InRegion {
                    region: Named { index: 0, name: "Assign value" },
                    offset: 0
                },
                cell_values: vec![(
                    VirtualCell {
                        column: Column { kind: Any::Advice, index: 0 },
                        rotation: Rotation(0)
                    },
                    Fp::from_u64(0x16)
                )]
            }])
        );
    }
}

#[test]
fn test_range_check_2() {
    let k = 9;
    const RANGE: usize = 8; // 3-bit value
    const LOOKUP_RANGE: usize = 256; // 2^8, 8-bit value

    // Successful cases
    for i in 0..RANGE {
        for j in 0..LOOKUP_RANGE {
            let circuit = example2::MyCircuit::<RANGE, LOOKUP_RANGE> {
                simple_value: Value::known(Fp::from_u64(i as u64)),
                lookup_value: Value::known(Fp::from_u64(j as u64)),
            };

            let prover = MockProver::run(k, &circuit, vec![]).unwrap();
            assert_eq!(prover.verify(), Ok(()));
        }
    }

    // Out-of-range `value = 8`, `lookup_value = 256`
    {
        let circuit = example2::MyCircuit::<RANGE, LOOKUP_RANGE> {
            simple_value: Value::known(Fp::from_u64(RANGE as u64)),
            lookup_value: Value::known(Fp::from_u64(LOOKUP_RANGE as u64)),
        };
        let prover = MockProver::run(k, &circuit, vec![]).unwrap();
        assert_eq!(
            prover.verify(),
            Err(vec![
                VerifyFailure::ConstraintNotSatisfied {
                    gate: Named { index: 0, name: "range check" },
                    constraint: Named { index: 0, name: "range check" },
                    location: FailureLocation::InRegion {
                        region: Named { index: 1, name: "Assign value for simple range check" },
                        offset: 0
                    },
                    cell_values: vec![(
                        VirtualCell {
                            column: Column { kind: Any::Advice, index: 0 },
                            rotation: Rotation(0)
                        },
                        Fp::from_u64(0x8)
                    )]
                },
                VerifyFailure::LookupFailure {
                    lookup: Named { index: 0, name: "range check lookup" },
                    location: FailureLocation::InRegion {
                        region: Named { index: 2, name: "Assign value for lookup range check" },
                        offset: 0
                    }
                }
            ])
        );
    }
}

#[test]
fn test_range_check_3() {
    let k = 9;
    const NUM_BITS: usize = 8;
    const RANGE: usize = 256; // 8-bit value

    // Successful cases
    for num_bits in 1u8..=NUM_BITS.try_into().unwrap() {
        for value in (1 << (num_bits - 1))..(1 << num_bits) {
            let circuit = example3::MyCircuit::<NUM_BITS, RANGE> {
                num_bits: Some(num_bits),
                value: Value::known(Fp::from_u64(value as u64)),
            };

            let prover = MockProver::run(k, &circuit, vec![]).unwrap();
            assert_eq!(prover.verify(), Ok(()));
        }
    }
}

#[test]
fn range_check_rejects_the_first_value_beyond_the_range() {
    let circuit = example1b::MyCircuit::<8> { assigned_value: Value::known(Fp::from_u64(8)) };
    let prover = MockProver::run(4, &circuit, vec![]).unwrap();
    assert_eq!(
        prover.verify(),
        Err(vec![VerifyFailure::ConstraintNotSatisfied {
            gate: Named { index: 0, name: "range check" },
            constraint: Named { index: 0, name: "range check" },
            location: FailureLocation::InRegion {
                region: Named { index: 0, name: "Assign value" },
                offset: 0
            },
            cell_values: vec![(
                VirtualCell {
                    column: Column { kind: Any::Advice, index: 0 },
                    rotation: Rotation(0)
                },
                Fp::from_u64(8)
            )]
        }])
    );
}

#[test]
fn tagged_lookup_rejects_a_wrong_bit_length() {
    // 5 has three binary digits, not two.
    let circuit = example3::MyCircuit::<8, 256> {
        num_bits: Some(2),
        value: Value::known(Fp::from_u64(5)),
    };
    let prover = MockProver::run(9, &circuit, vec![]).unwrap();
    assert_eq!(
        prover.verify(),
        Err(vec![VerifyFailure::LookupFailure {
            lookup: Named { index: 0, name: "tagged range check lookup" },
            // The table takes the first 256 rows.
            location: FailureLocation::InRegion {
                region: Named { index: 1, name: "Assign value" },
                offset: 0
            }
        }])
    );

    // Zero counts as a value of one digit.
    let circuit = example3::MyCircuit::<8, 256> {
        num_bits: Some(1),
        value: Value::known(Fp::from_u64(0)),
    };
    let prover = MockProver::run(9, &circuit, vec![]).unwrap();
    assert_eq!(prover.verify(), Ok(()));
}

#[test]
fn inconsistent_default_fails_the_lookup_on_untouched_rows() {
    // The pair (0, 0) is no row of the table: zero is tagged with one digit.
    let mut cs = ConstraintSystem::new();
    let num_bits = cs.advice_column();
    let value = cs.advice_column();
    let config = example3::RangeCheckConfig::<3, 8>::configure_with_default(
        &mut cs,
        num_bits,
        value,
        Fp::zero(),
        Fp::zero(),
    );
    let mut layouter = Layouter::new(cs, 4, vec![], false).unwrap();
    config.table.load(&mut layouter).unwrap();
    config.assign(&mut layouter, Some(3), Value::known(Fp::from_u64(5))).unwrap();

    // Row 8 holds the one assigned pair, which is in the table. All the
    // other usable rows are untouched, and each of them fails.
    let failures = layouter.verify().unwrap_err();
    let rows: Vec<FailureLocation> = failures
        .iter()
        .map(|f| match f {
            VerifyFailure::LookupFailure { location, .. } => *location,
            other => panic!("unexpected failure {:?}", other),
        })
        .collect();
    let mut expected = Vec::new();
    for row in 0..8 {
        expected.push(FailureLocation::InRegion {
            region: Named { index: 0, name: "load range-check table" },
            offset: row,
        });
    }
    expected.push(FailureLocation::OutsideRegion { row: 9 });
    assert_eq!(rows, expected);

    // With the default pair (1, 0) nothing fails.
    let mut cs = ConstraintSystem::new();
    let num_bits = cs.advice_column();
    let value = cs.advice_column();
    let config = example3::RangeCheckConfig::<3, 8>::configure(&mut cs, num_bits, value);
    let mut layouter = Layouter::new(cs, 4, vec![], false).unwrap();
    config.table.load(&mut layouter).unwrap();
    config.assign(&mut layouter, Some(3), Value::known(Fp::from_u64(5))).unwrap();
    assert_eq!(layouter.verify(), Ok(()));
}

/// Lays out a value with the given windows, as the decomposed range check
/// does, and checks the result.
fn check_windows(value: u64, windows: [u64; 8]) -> Result<(), Vec<VerifyFailure>> {
    let mut cs = ConstraintSystem::new();
    let config = DecomposeRangeCheckConfig::configure(&mut cs);
    let mut layouter = Layouter::new(cs, 10, vec![], false).unwrap();
    config.table.load(&mut layouter).unwrap();
    layouter.enter_region("Assign value").unwrap();
    layouter.enable_selector(config.q_decomposed, 0).unwrap();
    layouter.assign_advice(config.value, 0, Value::known(Fp::from_u64(value))).unwrap();
    for (i, window) in windows.iter().enumerate() {
        layouter.enable_selector(config.q_range_check, i).unwrap();
        layouter
            .assign_advice(config.value_decomposed, i, Value::known(Fp::from_u64(*window)))
            .unwrap();
    }
    layouter.exit_region().unwrap();
    layouter.verify()
}

#[test]
fn decomposed_value_is_accepted_and_a_corrupted_window_is_not() {
    // 0o17654321 in windows of three bits, lowest first.
    let value = 0o17654321;
    assert_eq!(check_windows(value, [1, 2, 3, 4, 5, 6, 7, 1]), Ok(()));

    // A window changed within the table's range: the sum is off.
    let failures = check_windows(value, [1, 2, 0, 4, 5, 6, 7, 1]).unwrap_err();
    assert_eq!(failures.len(), 1);
    match &failures[0] {
        VerifyFailure::ConstraintNotSatisfied { gate, constraint, location, .. } => {
            assert_eq!(*gate, Named { index: 0, name: "decompose" });
            assert_eq!(*constraint, Named { index: 0, name: "range check" });
            assert_eq!(
                *location,
                FailureLocation::InRegion {
                    region: Named { index: 1, name: "Assign value" },
                    offset: 0
                }
            );
        }
        other => panic!("unexpected failure {:?}", other),
    }

    // A window changed to a value beyond the table: the sum is off, and the
    // window's row fails the lookup.
    let failures = check_windows(value, [1, 2, 9, 4, 5, 6, 7, 1]).unwrap_err();
    assert_eq!(failures.len(), 2);
    assert!(matches!(
        &failures[0],
        VerifyFailure::ConstraintNotSatisfied { gate: Named { index: 0, name: "decompose" }, .. }
    ));
    assert_eq!(
        failures[1],
        VerifyFailure::LookupFailure {
            lookup: Named { index: 0, name: "window lookup" },
            location: FailureLocation::InRegion {
                region: Named { index: 1, name: "Assign value" },
                offset: 2
            }
        }
    );
}

fn windows_of(layouter: &Layouter) -> Vec<Value> {
    // The table takes the first eight rows, the windows the eight below.
    (8..16)
        .map(|row| layouter.value_at(Column { kind: Any::Advice, index: 1 }, row as i128))
        .collect()
}

fn assigned_windows(value: u128) -> (Vec<Value>, Result<(), Vec<VerifyFailure>>) {
    let mut cs = ConstraintSystem::new();
    let config = DecomposeRangeCheckConfig::configure(&mut cs);
    let mut layouter = Layouter::new(cs, 10, vec![], false).unwrap();
    config.table.load(&mut layouter).unwrap();
    assert_eq!(config.assign_value(&mut layouter, value), Ok(true));
    (windows_of(&layouter), layouter.verify())
}

#[test]
fn value_is_decomposed_into_windows_of_three_bits() {
    assert_eq!(assigned_windows(10), (known_values(&[2, 1, 0, 0, 0, 0, 0, 0]), Ok(())));
    assert_eq!(assigned_windows(64), (known_values(&[0, 0, 1, 0, 0, 0, 0, 0]), Ok(())));
    assert_eq!(
        assigned_windows(0o17654321),
        (known_values(&[1, 2, 3, 4, 5, 6, 7, 1]), Ok(()))
    );
    assert_eq!(assigned_windows((1 << 24) - 1), (known_values(&[7; 8]), Ok(())));
    for value in 0..RANGE {
        let circuit = DecomposeRangeCheckCircuit { value: value as u128 };
        assert_eq!(MockProver::run(10, &circuit, vec![]).unwrap().verify(), Ok(()));
    }
}

#[test]
fn value_beyond_the_windows_is_rejected() {
    // Eight windows of three bits hold the values below 2^24. Of a value
    // beyond them the windows hold the lowest 24 bits, each still in the
    // table, and the sum falls short of the value.
    for (value, expected) in [
        (1u128 << 24, [0u64; 8]),
        ((1 << 24) + 72, [0, 1, 1, 0, 0, 0, 0, 0]),
        (u128::MAX, [7; 8]),
    ] {
        let (windows, verdict) = assigned_windows(value);
        assert_eq!(windows, known_values(&expected));
        let failures = verdict.unwrap_err();
        assert_eq!(failures.len(), 1);
        match &failures[0] {
            VerifyFailure::ConstraintNotSatisfied { gate, constraint, location, cell_values } => {
                assert_eq!(*gate, Named { index: 0, name: "decompose" });
                assert_eq!(*constraint, Named { index: 0, name: "range check" });
                assert_eq!(
                    *location,
                    FailureLocation::InRegion {
                        region: Named { index: 1, name: "Assign value" },
                        offset: 0
                    }
                );
                let values: Vec<Fp> = cell_values.iter().map(|c| c.1).collect();
                let mut cells: Vec<Fp> = expected.iter().map(|w| Fp::from_u64(*w)).collect();
                cells.push(Fp::from_u128(value));
                assert_eq!(values, cells);
            }
            other => panic!("unexpected failure {:?}", other),
        }
    }
}

fn column_values(layouter: &Layouter, index: usize, rows: usize) -> Vec<Value> {
    (0..rows).map(|row| layouter.value_at(Column { kind: Any::Fixed, index }, row as i128)).collect()
}

fn known_values(values: &[u64]) -> Vec<Value> {
    values.iter().map(|x| Value::known(Fp::from_u64(*x))).collect()
}

#[test]
fn tables_hold_their_ranges_and_tags() {
    let mut cs = ConstraintSystem::new();
    let plain = PlainTable::<5>::configure(&mut cs);
    let tagged = TaggedTable::<4, 16>::configure(&mut cs);
    let runs = RunTable::<9>::configure(&mut cs);
    let mut layouter = Layouter::new(cs, 6, vec![], false).unwrap();
    plain.load(&mut layouter).unwrap();
    tagged.load(&mut layouter).unwrap();
    runs.load(&mut layouter).unwrap();

    assert_eq!(layouter.table_start(plain.value), Some(0));
    assert_eq!(layouter.table_start(tagged.num_bits), Some(5));
    assert_eq!(layouter.table_start(tagged.value), Some(5));
    assert_eq!(layouter.table_start(runs.value), Some(21));
    assert_eq!(layouter.table_start(runs.num_bits), Some(21));

    assert_eq!(column_values(&layouter, 0, 6), known_values(&[0, 1, 2, 3, 4, 0]));
    let tags = [1, 1, 2, 2, 3, 3, 3, 3, 4, 4, 4, 4, 4, 4, 4, 4];
    assert_eq!(column_values(&layouter, 1, 21)[5..], known_values(&tags));
    let values: Vec<u64> = (0..16).collect();
    assert_eq!(column_values(&layouter, 2, 21)[5..], known_values(&values));
    let values: Vec<u64> = (0..9).collect();
    assert_eq!(column_values(&layouter, 3, 30)[21..], known_values(&values));
    // Tagged by bit length, as the other table is.
    assert_eq!(column_values(&layouter, 4, 30)[21..], known_values(&[1, 1, 2, 2, 3, 3, 3, 3, 4]));

    // A table is loaded once.
    assert_eq!(plain.load(&mut layouter), Err(Error::Configuration(Reason::TableAlreadyLoaded)));
}

#[test]
fn table_that_does_not_fit_is_refused() {
    let mut cs = ConstraintSystem::new();
    let table = PlainTable::<11>::configure(&mut cs);
    // Sixteen rows, ten of them usable.
    let mut layouter = Layouter::new(cs, 4, vec![], false).unwrap();
    assert_eq!(table.load(&mut layouter), Err(Error::Configuration(Reason::NotEnoughRows)));
    assert_eq!(layouter.regions().len(), 0);
}

#[test]
fn bits_are_counted() {
    assert_eq!(count_bits(0), 0);
    assert_eq!(count_bits(1), 1);
    assert_eq!(count_bits(2), 2);
    assert_eq!(count_bits(255), 8);
    assert_eq!(count_bits(256), 9);
    assert_eq!(count_bits(usize::MAX), usize::BITS as u64);
}

#[test]
fn circuit_without_witnesses_passes_a_dry_run_only() {
    let circuit = example2::MyCircuit::<8, 256> {
        simple_value: Value::known(Fp::from_u64(9)),
        lookup_value: Value::known(Fp::from_u64(300)),
    };
    let blank = circuit.without_witnesses();
    assert_eq!(blank.simple_value, Value::Unknown);
    assert_eq!(blank.lookup_value, Value::Unknown);
    let prover = MockProver::dry_run(9, &blank, vec![]).unwrap();
    assert_eq!(prover.verify(), Ok(()));

    // Outside a dry run the values that are not known are found. Both stand in
    // the one advice column, which the range check reads on every row, and
    // the lookup too.
    let prover = MockProver::run(9, &blank, vec![]).unwrap();
    let simple = VerifyFailure::AssignmentError {
        location: FailureLocation::InRegion {
            region: Named { index: 1, name: "Assign value for simple range check" },
            offset: 0,
        },
    };
    let lookup = VerifyFailure::AssignmentError {
        location: FailureLocation::InRegion {
            region: Named { index: 2, name: "Assign value for lookup range check" },
            offset: 0,
        },
    };
    let failures = prover.verify().unwrap_err();
    assert_eq!(failures.len(), 4);
    assert_eq!(failures[0], simple);
    assert_eq!(failures[1], lookup);
    assert_eq!(failures[2], simple);
    assert_eq!(failures[3], lookup);

    let blank = DecomposeRangeCheckCircuit { value: 64 }.without_witnesses();
    assert_eq!(blank.value, 0);
    let blank = example3::MyCircuit::<8, 256> { num_bits: Some(3), value: Value::Unknown }
        .without_witnesses();
    assert_eq!(blank.num_bits, None);
    let blank = example1b::MyCircuit::<8> { assigned_value: Value::known(Fp::one()) }
        .without_witnesses();
    assert_eq!(blank.assigned_value, Value::Unknown);
}

#[test]
fn run_reports_what_is_wrong_with_the_session() {
    let circuit = example1b::MyCircuit::<8> { assigned_value: Value::known(Fp::one()) };
    assert_eq!(
        MockProver::run(32, &circuit, vec![]).err(),
        Some(Error::Configuration(Reason::TooManyRows))
    );
    assert_eq!(
        MockProver::run(2, &circuit, vec![]).err(),
        Some(Error::Configuration(Reason::NotEnoughRows))
    );
    assert_eq!(
        MockProver::run(4, &circuit, vec![vec![]]).err(),
        Some(Error::Configuration(Reason::InstanceCountMismatch))
    );
    // The table of 256 rows does not fit 64 rows.
    let circuit = example2::MyCircuit::<8, 256> {
        simple_value: Value::known(Fp::one()),
        lookup_value: Value::known(Fp::one()),
    };
    assert_eq!(
        MockProver::run(6, &circuit, vec![]).err(),
        Some(Error::Configuration(Reason::NotEnoughRows))
    );
}
