use halo2_learn::constraint_system::{Constraint, ConstraintSystem, LookupInput};
use halo2_learn::expression::{Any, Column, Expression, Rotation, Selector, TableColumn};
use halo2_learn::failure::{FailureLocation, Named, VerifyFailure};
use halo2_learn::field::Fp;
use halo2_learn::layouter::{Layouter, TableColumnValues};
use halo2_learn::session::{AssignedCell, Cell, Error, Reason};
use halo2_learn::value::Value;

fn known(x: u64) -> Value {
    Value::known(Fp::from_u64(x))
}

fn config_error<T: std::fmt::Debug>(result: Result<T, Error>) -> Reason {
    match result {
        Err(Error::Configuration(reason)) => reason,
        other => panic!("expected a configuration error, got {:?}", other),
    }
}

#[test]
fn session_needs_rows_and_matching_public_inputs() {
    assert_eq!(
        config_error(Layouter::new(ConstraintSystem::new(), 32, vec![], false)),
        Reason::TooManyRows
    );
    // Six of the four rows are left to the backend.
    assert_eq!(
        config_error(Layouter::new(ConstraintSystem::new(), 2, vec![], false)),
        Reason::NotEnoughRows
    );
    assert!(Layouter::new(ConstraintSystem::new(), 3, vec![], false).is_ok());
    assert_eq!(
        config_error(Layouter::new(ConstraintSystem::new(), 4, vec![vec![]], false)),
        Reason::InstanceCountMismatch
    );
    let mut cs = ConstraintSystem::new();
    cs.instance_column();
    assert_eq!(
        config_error(Layouter::new(cs, 3, vec![vec![Fp::one(); 3]], false)),
        Reason::InstanceLengthMismatch
    );
    let mut cs = ConstraintSystem::new();
    cs.instance_column();
    assert!(Layouter::new(cs, 3, vec![vec![Fp::one(); 2]], false).is_ok());
}

#[test]
fn blinding_rows_can_be_set() {
    let mut cs = ConstraintSystem::new();
    cs.set_blinding_rows(16);
    let layouter = Layouter::new(cs, 4, vec![], false).unwrap();
    assert_eq!(layouter.rows(), 16);
    assert_eq!(layouter.usable_rows(), 0);
    let mut cs = ConstraintSystem::new();
    cs.set_blinding_rows(17);
    assert_eq!(config_error(Layouter::new(cs, 4, vec![], false)), Reason::NotEnoughRows);
}

#[test]
fn rotation_has_to_be_within_the_usable_rows() {
    let mut cs = ConstraintSystem::new();
    let a = cs.advice_column();
    let far = cs.query_advice(a, Rotation(10));
    cs.create_gate("far", vec![Constraint::new("", far)]);
    // Sixteen rows, ten of them usable.
    assert_eq!(config_error(Layouter::new(cs, 4, vec![], false)), Reason::RotationOutOfRange);

    let mut cs = ConstraintSystem::new();
    let a = cs.advice_column();
    let near = cs.query_advice(a, Rotation(-9));
    cs.create_gate("near", vec![Constraint::new("", near)]);
    assert!(Layouter::new(cs, 4, vec![], false).is_ok());

    let mut cs = ConstraintSystem::new();
    let a = cs.advice_column();
    let t = cs.lookup_table_column(1);
    let far = cs.query_advice(a, Rotation(-10));
    cs.lookup("far", vec![LookupInput::new(far, t)]);
    assert_eq!(config_error(Layouter::new(cs, 4, vec![], false)), Reason::RotationOutOfRange);
}

#[test]
fn regions_take_the_rows_one_after_the_other() {
    let mut cs = ConstraintSystem::new();
    let a = cs.advice_column();
    let mut layouter = Layouter::new(cs, 4, vec![], false).unwrap();

    layouter.enter_region("first").unwrap();
    let cell = layouter.assign_advice(a, 2, known(7)).unwrap();
    assert_eq!(cell, AssignedCell { cell: Cell { column: a, row: 2 }, value: known(7) });
    let cell = layouter.assign_advice(a, 0, known(8)).unwrap();
    assert_eq!(cell.cell.row, 0);
    layouter.exit_region().unwrap();

    layouter.enter_region("second").unwrap();
    let cell = layouter.assign_advice(a, 1, known(9)).unwrap();
    assert_eq!(cell.cell.row, 4);
    layouter.exit_region().unwrap();

    // A region in which nothing is written takes no row.
    layouter.enter_region("empty").unwrap();
    layouter.exit_region().unwrap();
    layouter.enter_region("third").unwrap();
    let cell = layouter.assign_advice(a, 0, known(9)).unwrap();
    assert_eq!(cell.cell.row, 5);
    layouter.exit_region().unwrap();

    let names: Vec<(&str, usize, usize)> =
        layouter.regions().iter().map(|r| (r.name, r.start, r.rows)).collect();
    assert_eq!(names, vec![("first", 0, 3), ("second", 3, 2), ("empty", 5, 0), ("third", 5, 1)]);

    assert_eq!(
        layouter.locate(4),
        FailureLocation::InRegion { region: Named { index: 1, name: "second" }, offset: 1 }
    );
    assert_eq!(
        layouter.locate(5),
        FailureLocation::InRegion { region: Named { index: 3, name: "third" }, offset: 0 }
    );
    assert_eq!(layouter.locate(6), FailureLocation::OutsideRegion { row: 6 });
}

#[test]
fn assignment_errors() {
    let mut cs = ConstraintSystem::new();
    let a = cs.advice_column();
    let b = cs.advice_column();
    let f = cs.fixed_column();
    let i = cs.instance_column();
    let s = cs.selector();
    cs.enable_equality(a);
    cs.enable_equality(i);
    let mut layouter = Layouter::new(cs, 4, vec![vec![Fp::from_u64(5)]], false).unwrap();

    assert_eq!(config_error(layouter.assign_advice(a, 0, known(1))), Reason::NoRegionOpen);
    assert_eq!(config_error(layouter.enable_selector(s, 0)), Reason::NoRegionOpen);
    assert_eq!(config_error(layouter.exit_region()), Reason::NoRegionOpen);
    assert_eq!(
        config_error(layouter.assign_advice_from_instance(i, 0, a, 0)),
        Reason::NoRegionOpen
    );

    layouter.enter_region("region").unwrap();
    assert_eq!(config_error(layouter.enter_region("again")), Reason::RegionAlreadyOpen);
    assert_eq!(config_error(layouter.assign_table("table", &vec![])), Reason::RegionAlreadyOpen);

    assert_eq!(config_error(layouter.assign_advice(f, 0, known(1))), Reason::UnknownColumn);
    assert_eq!(
        config_error(layouter.assign_advice(Column { kind: Any::Advice, index: 2 }, 0, known(1))),
        Reason::UnknownColumn
    );
    assert_eq!(
        config_error(layouter.enable_selector(Selector { index: 1, simple: true }, 0)),
        Reason::UnknownSelector
    );
    // Rows 0 to 9 are usable.
    assert!(layouter.assign_advice(a, 9, known(1)).is_ok());
    assert_eq!(config_error(layouter.assign_advice(a, 10, known(1))), Reason::NotEnoughRows);
    assert_eq!(config_error(layouter.enable_selector(s, 10)), Reason::NotEnoughRows);
    assert_eq!(
        config_error(layouter.assign_advice(a, usize::MAX, known(1))),
        Reason::NotEnoughRows
    );

    assert_eq!(
        config_error(layouter.assign_advice_from_instance(a, 0, a, 0)),
        Reason::UnknownColumn
    );
    assert_eq!(
        config_error(layouter.assign_advice_from_instance(i, 0, b, 0)),
        Reason::EqualityNotEnabled
    );
    assert_eq!(
        config_error(layouter.assign_advice_from_instance(i, 1, a, 0)),
        Reason::InstanceLengthMismatch
    );
    let bound = layouter.assign_advice_from_instance(i, 0, a, 0).unwrap();
    assert_eq!(bound.value, known(5));

    assert_eq!(config_error(layouter.copy_advice(&bound, b, 1)), Reason::EqualityNotEnabled);
    assert_eq!(config_error(layouter.copy_advice(&bound, f, 1)), Reason::UnknownColumn);
    assert_eq!(
        config_error(layouter.constrain_instance(bound.cell, a, 0)),
        Reason::UnknownColumn
    );
    assert_eq!(
        config_error(layouter.constrain_instance(bound.cell, i, 1)),
        Reason::InstanceLengthMismatch
    );
    let other = layouter.assign_advice(b, 0, known(5)).unwrap();
    assert_eq!(
        config_error(layouter.constrain_instance(other.cell, i, 0)),
        Reason::EqualityNotEnabled
    );

    // A value that is not known can be written, and cannot be copied.
    let unknown = layouter.assign_advice(a, 3, Value::unknown()).unwrap();
    assert_eq!(layouter.copy_advice(&unknown, a, 4), Err(Error::Assignment));
}

#[test]
fn equality_of_two_cells_bound_to_one_public_input() {
    let mut cs = ConstraintSystem::new();
    let a = cs.advice_column();
    let b = cs.advice_column();
    let i = cs.instance_column();
    cs.enable_equality(a);
    cs.enable_equality(b);
    cs.enable_equality(i);
    // 2^64 + 3, given once directly and reached once by arithmetic.
    let input = Fp::from_u128((1u128 << 64) + 3);
    let mut layouter = Layouter::new(cs, 4, vec![vec![input]], false).unwrap();
    layouter.enter_region("bindings").unwrap();
    let first = layouter.assign_advice_from_instance(i, 0, a, 0).unwrap();
    let second = layouter.assign_advice_from_instance(i, 0, b, 5).unwrap();
    assert_eq!(first.value, second.value);
    // A third cell holds the same value, derived otherwise.
    let derived = Fp::from_u64(u64::MAX).add(&Fp::from_u64(4));
    let third = layouter.assign_advice(a, 1, Value::known(derived)).unwrap();
    layouter.exit_region().unwrap();
    layouter.constrain_instance(third.cell, i, 0).unwrap();
    assert_eq!(layouter.copies().len(), 3);
    assert_eq!(layouter.verify(), Ok(()));
    assert!(layouter.copy_holds(first.cell, second.cell));
    assert!(layouter.copy_holds(second.cell, first.cell));
    assert!(layouter.copy_holds(third.cell, second.cell));
}

#[test]
fn binding_writes_the_public_input_to_the_cell() {
    let mut cs = ConstraintSystem::new();
    let a = cs.advice_column();
    let f = cs.fixed_column();
    let i = cs.instance_column();
    cs.enable_equality(a);
    cs.enable_equality(f);
    cs.enable_equality(i);
    let mut layouter = Layouter::new(cs, 4, vec![vec![Fp::from_u64(9)]], false).unwrap();
    layouter.enter_region("region").unwrap();
    let cell = layouter.assign_advice(a, 0, known(8)).unwrap();
    layouter.exit_region().unwrap();

    // A cell of a fixed column or beyond the usable rows cannot be bound.
    assert_eq!(
        config_error(layouter.constrain_instance(Cell { column: f, row: 0 }, i, 0)),
        Reason::UnknownColumn
    );
    assert_eq!(
        config_error(layouter.constrain_instance(Cell { column: a, row: 10 }, i, 0)),
        Reason::NotEnoughRows
    );
    assert_eq!(layouter.copies().len(), 0);
    assert_eq!(layouter.value_at(a, 0), known(8));

    layouter.constrain_instance(cell.cell, i, 0).unwrap();
    assert_eq!(layouter.value_at(a, 0), known(9));
    assert_eq!(layouter.copies(), &vec![(cell.cell, Cell { column: i, row: 0 })]);
    assert_eq!(layouter.verify(), Ok(()));
}

#[test]
fn copy_is_checked_against_what_the_cells_hold() {
    let mut cs = ConstraintSystem::new();
    let a = cs.advice_column();
    cs.enable_equality(a);
    let mut layouter = Layouter::new(cs, 4, vec![], false).unwrap();
    layouter.enter_region("copies").unwrap();
    let source = layouter.assign_advice(a, 0, known(3)).unwrap();
    let copy = layouter.copy_advice(&source, a, 1).unwrap();
    assert_eq!(copy, AssignedCell { cell: Cell { column: a, row: 1 }, value: known(3) });
    layouter.exit_region().unwrap();
    assert_eq!(layouter.verify(), Ok(()));

    // Overwrite the source; the copy constraint no longer holds.
    layouter.enter_region("overwrite").unwrap();
    layouter.exit_region().unwrap();
    let stale = AssignedCell { cell: Cell { column: a, row: 7 }, value: known(4) };
    layouter.enter_region("stale").unwrap();
    layouter.copy_advice(&stale, a, 0).unwrap();
    layouter.exit_region().unwrap();
    // The cell at row 7 was never written.
    assert_eq!(
        layouter.verify(),
        Err(vec![VerifyFailure::EqualityFailure {
            cell_a: Cell { column: a, row: 7 },
            cell_b: Cell { column: a, row: 2 },
        }])
    );
}

#[test]
fn public_inputs_must_match_the_bound_rows() {
    let mut cs = ConstraintSystem::new();
    let a = cs.advice_column();
    let i = cs.instance_column();
    cs.enable_equality(a);
    cs.enable_equality(i);
    let mut layouter =
        Layouter::new(cs, 4, vec![vec![Fp::from_u64(1), Fp::from_u64(2)]], false).unwrap();
    layouter.enter_region("binding").unwrap();
    layouter.assign_advice_from_instance(i, 0, a, 0).unwrap();
    layouter.exit_region().unwrap();
    // Two inputs were given, and the bindings reach the first only.
    assert_eq!(
        layouter.verify(),
        Err(vec![VerifyFailure::ConfigurationError { reason: Reason::InstanceLengthMismatch }])
    );
    assert_eq!(layouter.configuration_error(), Some(Reason::InstanceLengthMismatch));
    layouter.enter_region("binding").unwrap();
    layouter.assign_advice_from_instance(i, 1, a, 0).unwrap();
    layouter.exit_region().unwrap();
    assert_eq!(layouter.verify(), Ok(()));
}

#[test]
fn table_has_to_be_loaded_whole_and_once() {
    let mut cs = ConstraintSystem::new();
    let a = cs.advice_column();
    let f = cs.fixed_column();
    let t = cs.lookup_table_column(4);
    let u = cs.lookup_table_column(3);
    assert_eq!(f, Column { kind: Any::Fixed, index: 0 });
    assert_eq!(t, TableColumn { index: 1 });
    let input = cs.query_advice(a, Rotation::cur());
    cs.lookup("lookup", vec![LookupInput::new(input, t)]);
    let mut layouter = Layouter::new(cs, 4, vec![], false).unwrap();

    let values = |n: u64| (0..n).map(Fp::from_u64).collect::<Vec<Fp>>();
    let column = |column: TableColumn, n: u64| TableColumnValues { column, values: values(n) };

    // The lookup's table was not loaded.
    assert_eq!(
        layouter.verify(),
        Err(vec![VerifyFailure::ConfigurationError { reason: Reason::TableNotLoaded }])
    );

    assert_eq!(
        config_error(layouter.assign_table("table", &vec![column(t, 3)])),
        Reason::IncompleteTable
    );
    assert_eq!(
        config_error(layouter.assign_table("table", &vec![column(t, 5)])),
        Reason::IncompleteTable
    );
    assert_eq!(
        config_error(layouter.assign_table("table", &vec![column(t, 0)])),
        Reason::IncompleteTable
    );
    assert_eq!(
        config_error(layouter.assign_table("table", &vec![column(TableColumn { index: 0 }, 4)])),
        Reason::NotATableColumn
    );
    assert_eq!(
        config_error(layouter.assign_table("table", &vec![column(TableColumn { index: 3 }, 4)])),
        Reason::NotATableColumn
    );
    assert_eq!(
        config_error(layouter.assign_table("table", &vec![column(t, 4), column(t, 4)])),
        Reason::TableAlreadyLoaded
    );
    // The first fault in the list is reported.
    assert_eq!(
        config_error(layouter.assign_table("table", &vec![column(t, 4), column(u, 2)])),
        Reason::IncompleteTable
    );
    // Nothing was written by the attempts.
    assert_eq!(layouter.regions().len(), 0);
    assert_eq!(layouter.table_start(t), None);

    layouter.enter_region("before").unwrap();
    layouter.assign_advice(a, 6, known(0)).unwrap();
    layouter.exit_region().unwrap();
    // Rows 7 to 9 are left.
    assert_eq!(
        config_error(layouter.assign_table("table", &vec![column(t, 4)])),
        Reason::NotEnoughRows
    );
    assert_eq!(layouter.assign_table("table", &vec![column(u, 3)]), Ok(()));
    assert_eq!(layouter.table_start(u), Some(7));
    assert_eq!(
        config_error(layouter.assign_table("table", &vec![column(u, 3)])),
        Reason::TableAlreadyLoaded
    );
}

#[test]
fn lookup_is_made_on_every_usable_row() {
    let mut cs = ConstraintSystem::new();
    let a = cs.advice_column();
    let t = cs.lookup_table_column(2);
    let input = cs.query_advice(a, Rotation::cur());
    let lookup = cs.lookup("lookup", vec![LookupInput::new(input, t)]);
    assert_eq!(lookup, 0);
    let mut layouter = Layouter::new(cs, 4, vec![], false).unwrap();
    // The table holds 5 and 6, not zero.
    let table = vec![TableColumnValues {
        column: t,
        values: vec![Fp::from_u64(5), Fp::from_u64(6)],
    }];
    layouter.assign_table("table", &table).unwrap();
    layouter.enter_region("region").unwrap();
    layouter.assign_advice(a, 0, known(6)).unwrap();
    layouter.assign_advice(a, 1, known(7)).unwrap();
    layouter.exit_region().unwrap();
    // Of the ten usable rows, row 2 alone holds a value of the table. Row 3
    // holds another value, and on the other rows the advice column was never
    // written and counts as zero.
    let failures = layouter.verify().unwrap_err();
    let rows: Vec<FailureLocation> = failures
        .iter()
        .map(|f| match f {
            VerifyFailure::LookupFailure { lookup: Named { index: 0, name: "lookup" }, location } => {
                *location
            }
            other => panic!("unexpected failure {:?}", other),
        })
        .collect();
    let table = Named { index: 0, name: "table" };
    let region = Named { index: 1, name: "region" };
    assert_eq!(
        rows,
        vec![
            FailureLocation::InRegion { region: table, offset: 0 },
            FailureLocation::InRegion { region: table, offset: 1 },
            FailureLocation::InRegion { region, offset: 1 },
            FailureLocation::OutsideRegion { row: 4 },
            FailureLocation::OutsideRegion { row: 5 },
            FailureLocation::OutsideRegion { row: 6 },
            FailureLocation::OutsideRegion { row: 7 },
            FailureLocation::OutsideRegion { row: 8 },
            FailureLocation::OutsideRegion { row: 9 },
        ]
    );
}

#[test]
fn gate_without_selector_binds_every_usable_row() {
    let mut cs = ConstraintSystem::new();
    cs.set_blinding_rows(5);
    let a = cs.advice_column();
    // a(row) - a(row - 1) - 1 = 0
    let poly = cs
        .query_advice(a, Rotation::cur())
        .minus(cs.query_advice(a, Rotation::prev()))
        .minus(Expression::Constant(Fp::one()));
    cs.create_gate("count", vec![Constraint::new("step", poly)]);
    let mut layouter = Layouter::new(cs, 3, vec![], false).unwrap();
    assert_eq!(layouter.usable_rows(), 3);
    layouter.enter_region("count").unwrap();
    // Row 0 reads the row before the first, which counts as zero.
    layouter.assign_advice(a, 0, known(1)).unwrap();
    layouter.assign_advice(a, 1, known(2)).unwrap();
    layouter.assign_advice(a, 2, known(4)).unwrap();
    layouter.exit_region().unwrap();
    assert_eq!(
        layouter.verify(),
        Err(vec![VerifyFailure::ConstraintNotSatisfied {
            gate: Named { index: 0, name: "count" },
            constraint: Named { index: 0, name: "step" },
            location: FailureLocation::InRegion {
                region: Named { index: 0, name: "count" },
                offset: 2
            },
            cell_values: vec![
                (
                    halo2_learn::expression::VirtualCell { column: a, rotation: Rotation(0) },
                    Fp::from_u64(4)
                ),
                (
                    halo2_learn::expression::VirtualCell { column: a, rotation: Rotation(-1) },
                    Fp::from_u64(2)
                ),
            ],
        }])
    );
}

#[test]
fn unknown_value_is_passed_over_in_a_dry_run_only() {
    let build = || {
        let mut cs = ConstraintSystem::new();
        let a = cs.advice_column();
        let t = cs.lookup_table_column(1);
        let poly = cs.query_advice(a, Rotation::cur());
        cs.create_gate("zero", vec![Constraint::new("zero", poly.duplicate())]);
        cs.lookup("lookup", vec![LookupInput::new(poly, t)]);
        (cs, a, t)
    };
    let table =
        |t: TableColumn| vec![TableColumnValues { column: t, values: vec![Fp::zero()] }];

    let (cs, a, t) = build();
    let mut layouter = Layouter::new(cs, 4, vec![], true).unwrap();
    assert!(layouter.dry_run());
    layouter.assign_table("table", &table(t)).unwrap();
    layouter.enter_region("region").unwrap();
    let cell = layouter.assign_advice(a, 0, Value::unknown()).unwrap();
    // In a dry run a value that is not known can be copied too.
    layouter.exit_region().unwrap();
    assert_eq!(layouter.evaluate(&Expression::Query(a, Rotation(0)), 1), Value::Unknown);
    assert_eq!(layouter.verify(), Ok(()));
    assert_eq!(cell.value, Value::Unknown);

    let (cs, a, t) = build();
    let mut layouter = Layouter::new(cs, 4, vec![], false).unwrap();
    layouter.assign_table("table", &table(t)).unwrap();
    layouter.enter_region("region").unwrap();
    layouter.assign_advice(a, 0, Value::unknown()).unwrap();
    layouter.exit_region().unwrap();
    let location =
        FailureLocation::InRegion { region: Named { index: 1, name: "region" }, offset: 0 };
    assert_eq!(
        layouter.verify(),
        Err(vec![
            VerifyFailure::AssignmentError { location },
            VerifyFailure::AssignmentError { location },
        ])
    );
}

#[test]
fn dry_run_copies_unknown_values_and_fails_their_equality() {
    let mut cs = ConstraintSystem::new();
    let a = cs.advice_column();
    cs.enable_equality(a);
    let mut layouter = Layouter::new(cs, 4, vec![], true).unwrap();
    layouter.enter_region("region").unwrap();
    let cell = layouter.assign_advice(a, 0, Value::unknown()).unwrap();
    let copy = layouter.copy_advice(&cell, a, 1).unwrap();
    layouter.exit_region().unwrap();
    assert_eq!(
        layouter.verify(),
        Err(vec![VerifyFailure::EqualityFailure { cell_a: cell.cell, cell_b: copy.cell }])
    );
}

#[test]
fn expressions_evaluate_in_the_field() {
    let mut cs = ConstraintSystem::new();
    let a = cs.advice_column();
    let f = cs.fixed_column();
    let i = cs.instance_column();
    let s = cs.selector();
    let mut layouter = Layouter::new(cs, 4, vec![vec![Fp::from_u64(11)]], false).unwrap();
    layouter.enter_region("region").unwrap();
    layouter.assign_advice(a, 0, known(3)).unwrap();
    layouter.assign_advice(a, 1, known(5)).unwrap();
    layouter.enable_selector(s, 1).unwrap();
    layouter.exit_region().unwrap();

    let q = |column, at| Expression::Query(column, Rotation(at));
    assert_eq!(layouter.evaluate(&q(a, 0), 0), known(3));
    assert_eq!(layouter.evaluate(&q(a, 1), 0), known(5));
    assert_eq!(layouter.evaluate(&q(a, -1), 1), known(3));
    assert_eq!(layouter.evaluate(&q(a, -1), 0), known(0));
    assert_eq!(layouter.evaluate(&q(a, 0), 15), known(0));
    assert_eq!(layouter.evaluate(&q(a, 1), 15), known(0));
    assert_eq!(layouter.evaluate(&q(f, 0), 0), known(0));
    assert_eq!(layouter.evaluate(&q(i, 0), 0), known(11));
    assert_eq!(layouter.evaluate(&q(i, 0), 1), known(0));
    assert_eq!(layouter.evaluate(&Expression::Selector(s), 0), known(0));
    assert_eq!(layouter.evaluate(&Expression::Selector(s), 1), known(1));
    assert_eq!(layouter.evaluate(&q(a, 0).plus(q(a, 1)), 0), known(8));
    assert_eq!(layouter.evaluate(&q(a, 0).times(q(a, 1)), 0), known(15));
    assert_eq!(layouter.evaluate(&q(a, 1).minus(q(a, 0)), 0), known(2));
    assert_eq!(layouter.evaluate(&q(a, 0).scale(Fp::from_u64(7)), 0), known(21));
    assert_eq!(
        layouter.evaluate(&q(a, 0).negate(), 0),
        Value::known(Fp::zero().sub(&Fp::from_u64(3)))
    );
    assert_eq!(
        layouter.evaluate(&q(a, 0).minus(q(a, 1)), 0),
        Value::known(Fp::from_u64(2).neg())
    );
}

#[test]
fn equality_can_be_enabled_on_columns_of_the_circuit_only() {
    let mut cs = ConstraintSystem::new();
    let a = cs.advice_column();
    let f = cs.fixed_column();
    assert!(!cs.equality_enabled(a));
    cs.enable_equality(a);
    cs.enable_equality(f);
    cs.enable_equality(Column { kind: Any::Instance, index: 0 });
    cs.enable_equality(Column { kind: Any::Advice, index: 1 });
    assert!(cs.equality_enabled(a));
    assert!(cs.equality_enabled(f));
    assert!(!cs.equality_enabled(Column { kind: Any::Instance, index: 0 }));
    assert!(!cs.equality_enabled(Column { kind: Any::Advice, index: 1 }));
    assert_eq!(cs.selector(), Selector { index: 0, simple: true });
    assert_eq!(cs.complex_selector(), Selector { index: 1, simple: false });
}
