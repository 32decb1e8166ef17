//! Two range checks on one advice column: a small range by a polynomial, and
//! a large one by a lookup in a table of the range.

use crate::constraint_system::constraints_view;
use crate::constraint_system::Constraint;
use crate::constraint_system::ConstraintSystem;
use crate::constraint_system::ConstraintSystemView;
use crate::constraint_system::ConstraintView;
use crate::constraint_system::Constraints;
use crate::constraint_system::LookupInput;
use crate::constraint_system::LookupInputView;
use crate::constraint_system::LookupView;
use crate::expression::Any;
use crate::expression::Column;
use crate::expression::Expr;
use crate::expression::Rotation;
use crate::expression::Selector;
use crate::layouter::Layouter;
use crate::failure::FailureView;
use crate::failure::LocationView;
use crate::failure::NamedView;
use crate::field::modulus;
use crate::prover::Circuit;
use crate::prover::MockProver;
use crate::session::fixed_of;
use crate::session::RegionView;
use crate::range_check::range_check;
use crate::range_check::range_check_gate;
use crate::range_check::range_check_poly;
use crate::session::agrees;
use crate::session::and_then;
use crate::session::AssignedCell;
use crate::session::AssignedCellView;
use crate::session::Error;
use crate::session::Outcome;
use crate::session::Session;
use crate::value::Value;
use vstd::prelude::*;

pub mod table;

use table::RangeTableConfig;

verus! {

/// A cell whose value the circuit constrains to lie below `RANGE`.
#[derive(Clone, Copy, Debug)]
pub struct RangeConstrained<const RANGE: usize>(pub AssignedCell);

/// The column, the selectors and the table of the two checks.
#[derive(Clone, Copy, Debug)]
pub struct RangeCheckConfig<const RANGE: usize, const LOOKUP_RANGE: usize> {
    pub q_range_check: Selector,
    pub q_lookup: Selector,
    pub value: Column,
    pub table: RangeTableConfig<LOOKUP_RANGE>,
}

/// The lookup of `q_lookup * value` in the table column.
pub open spec fn range_lookup(
    q_lookup: Selector,
    value: Column,
    table: crate::expression::TableColumn,
) -> LookupView {
    LookupView {
        name: "range check lookup"@,
        inputs: seq![
            LookupInputView {
                input: Expr::product(Expr::Selector(q_lookup), Expr::Query(value, 0)),
                table,
            },
        ],
    }
}

impl<const RANGE: usize, const LOOKUP_RANGE: usize> RangeCheckConfig<RANGE, LOOKUP_RANGE> {
    /// The configuration that `configure` returns.
    pub open spec fn config_of(cs: ConstraintSystemView, value: Column) -> RangeCheckConfig<
        RANGE,
        LOOKUP_RANGE,
    > {
        RangeCheckConfig {
            q_range_check: Selector { index: cs.selectors.len() as usize, simple: true },
            q_lookup: Selector { index: (cs.selectors.len() + 1) as usize, simple: false },
            value,
            table: RangeTableConfig::<LOOKUP_RANGE>::config_of(cs),
        }
    }

    /// The description once the checks are configured: two more selectors,
    /// the table's column, the range-check gate and the lookup.
    pub open spec fn configured(cs: ConstraintSystemView, value: Column) -> ConstraintSystemView {
        let config = RangeCheckConfig::<RANGE, LOOKUP_RANGE>::config_of(cs, value);
        let with_table = RangeTableConfig::<LOOKUP_RANGE>::configured(cs);
        ConstraintSystemView {
            selectors: cs.selectors.push(true).push(false),
            gates: cs.gates.push(range_check_gate(config.q_range_check, value, RANGE as nat)),
            lookups: cs.lookups.push(range_lookup(config.q_lookup, value, config.table.value)),
            ..with_table
        }
    }

    /// What a region of one row makes of a session, in which a selector is
    /// enabled and the value is written to the column.
    pub open spec fn assigned(
        self,
        s: Session,
        name: Seq<char>,
        selector: Selector,
        value: Option<nat>,
    ) -> Outcome {
        let r = s.try_enter(name);
        let r = and_then(r, |t: Session| t.try_enable(selector, 0));
        let r = and_then(r, |t: Session| t.try_assign(self.value, 0, value));
        and_then(r, |t: Session| t.try_exit())
    }

    /// What `assign_simple` makes of a session.
    pub open spec fn assigned_simple(self, s: Session, value: Option<nat>) -> Outcome {
        self.assigned(s, "Assign value for simple range check"@, self.q_range_check, value)
    }

    /// What `assign_lookup` makes of a session.
    pub open spec fn assigned_lookup(self, s: Session, value: Option<nat>) -> Outcome {
        self.assigned(s, "Assign value for lookup range check"@, self.q_lookup, value)
    }

    /// Describes the two checks on an advice column.
    pub fn configure(meta: &mut ConstraintSystem, value: Column) -> (r: RangeCheckConfig<
        RANGE,
        LOOKUP_RANGE,
    >)
        ensures
            r == RangeCheckConfig::<RANGE, LOOKUP_RANGE>::config_of(old(meta)@, value),
            final(meta)@ == RangeCheckConfig::<RANGE, LOOKUP_RANGE>::configured(old(meta)@, value),
    {
        let q_range_check = meta.selector();
        let q_lookup = meta.complex_selector();
        let table = RangeTableConfig::<LOOKUP_RANGE>::configure(meta);

        let config = RangeCheckConfig { q_range_check, q_lookup, value, table };

        let q = meta.query_selector(q_range_check);
        let value_query = meta.query_advice(value, Rotation::cur());
        let mut constraints: Vec<Constraint> = Vec::new();
        constraints.push(Constraint::new("range check", range_check(RANGE, &value_query)));
        assert(constraints_view(constraints@) =~= seq![
            ConstraintView {
                name: "range check"@,
                poly: range_check_poly(Expr::Query(value, 0), RANGE as nat),
            },
        ]);
        let constraints = Constraints::with_selector(&q, &constraints);
        meta.create_gate("range check", constraints);

        let q_lookup_query = meta.query_selector(q_lookup);
        let value_query = meta.query_advice(value, Rotation::cur());
        let mut inputs: Vec<LookupInput> = Vec::new();
        inputs.push(LookupInput::new(q_lookup_query.times(value_query), table.value));
        assert(inputs@.map_values(|i: LookupInput| i@) =~= range_lookup(
            q_lookup,
            value,
            table.value,
        ).inputs);
        meta.lookup("range check lookup", inputs);
        assert(meta@ =~= RangeCheckConfig::<RANGE, LOOKUP_RANGE>::configured(old(meta)@, value));

        config
    }

    /// Assigns a value that the polynomial checks.
    pub fn assign_simple(&self, layouter: &mut Layouter, value: Value) -> (r: Result<
        RangeConstrained<RANGE>,
        Error,
    >)
        requires
            old(layouter).wf(),
        ensures
            final(layouter).wf(),
            agrees(self.assigned_simple(old(layouter)@, value@), r, final(layouter)@),
            r matches Ok(cell) ==> cell.0@ == (AssignedCellView {
                cell: old(layouter)@.cell_below(self.value),
                value: value@,
            }),
    {
        layouter.enter_region("Assign value for simple range check")?;
        layouter.enable_selector(self.q_range_check, 0)?;
        let cell = layouter.assign_advice(self.value, 0, value)?;
        layouter.exit_region()?;
        Ok(RangeConstrained(cell))
    }

    /// Assigns a value that is looked up in the table.
    pub fn assign_lookup(&self, layouter: &mut Layouter, value: Value) -> (r: Result<
        RangeConstrained<LOOKUP_RANGE>,
        Error,
    >)
        requires
            old(layouter).wf(),
        ensures
            final(layouter).wf(),
            agrees(self.assigned_lookup(old(layouter)@, value@), r, final(layouter)@),
            r matches Ok(cell) ==> cell.0@ == (AssignedCellView {
                cell: old(layouter)@.cell_below(self.value),
                value: value@,
            }),
    {
        layouter.enter_region("Assign value for lookup range check")?;
        layouter.enable_selector(self.q_lookup, 0)?;
        let cell = layouter.assign_advice(self.value, 0, value)?;
        layouter.exit_region()?;
        Ok(RangeConstrained(cell))
    }
}

/// The circuit that checks one value by the polynomial and one by the
/// lookup.
#[derive(Clone, Copy, Debug)]
pub struct MyCircuit<const RANGE: usize, const LOOKUP_RANGE: usize> {
    pub simple_value: Value,
    pub lookup_value: Value,
}

impl<const RANGE: usize, const LOOKUP_RANGE: usize> MyCircuit<RANGE, LOOKUP_RANGE> {
    /// The circuit's advice column in a description.
    pub open spec fn value_column(cs: ConstraintSystemView) -> Column {
        Column { kind: Any::Advice, index: cs.advice.len() as usize }
    }

    /// The description with the circuit's advice column.
    pub open spec fn with_column(cs: ConstraintSystemView) -> ConstraintSystemView {
        ConstraintSystemView { advice: cs.advice.push(false), ..cs }
    }
}

impl<const RANGE: usize, const LOOKUP_RANGE: usize> Circuit for MyCircuit<RANGE, LOOKUP_RANGE> {
    type Config = RangeCheckConfig<RANGE, LOOKUP_RANGE>;

    open spec fn configured(cs: ConstraintSystemView) -> ConstraintSystemView {
        RangeCheckConfig::<RANGE, LOOKUP_RANGE>::configured(
            Self::with_column(cs),
            Self::value_column(cs),
        )
    }

    open spec fn describes(
        cs: ConstraintSystemView,
        config: RangeCheckConfig<RANGE, LOOKUP_RANGE>,
    ) -> bool {
        config == RangeCheckConfig::<RANGE, LOOKUP_RANGE>::config_of(
            Self::with_column(cs),
            Self::value_column(cs),
        )
    }

    open spec fn synthesized(
        &self,
        config: RangeCheckConfig<RANGE, LOOKUP_RANGE>,
        s: Session,
    ) -> Outcome {
        let r = s.try_load("load range-check table"@, config.table.table());
        let r = and_then(r, |t: Session| config.assigned_simple(t, self.simple_value@));
        and_then(r, |t: Session| config.assigned_lookup(t, self.lookup_value@))
    }

    open spec fn lacks_witnesses(&self) -> bool {
        self.simple_value == Value::Unknown && self.lookup_value == Value::Unknown
    }

    fn without_witnesses(&self) -> (r: MyCircuit<RANGE, LOOKUP_RANGE>) {
        MyCircuit { simple_value: Value::Unknown, lookup_value: Value::Unknown }
    }

    fn configure(meta: &mut ConstraintSystem) -> (config: RangeCheckConfig<RANGE, LOOKUP_RANGE>) {
        let value = meta.advice_column();
        assert(meta@ =~= Self::with_column(old(meta)@));
        RangeCheckConfig::configure(meta, value)
    }

    fn synthesize(
        &self,
        config: RangeCheckConfig<RANGE, LOOKUP_RANGE>,
        layouter: &mut Layouter,
    ) -> (r: Result<(), Error>) {
        config.table.load(layouter)?;
        config.assign_simple(layouter, self.simple_value)?;
        config.assign_lookup(layouter, self.lookup_value)?;
        Ok(())
    }
}

/// The session that the circuit leaves on two values once its table is
/// loaded into the session `loaded`: a region of one row for each value,
/// below the table.
pub open spec fn assigned_session<const RANGE: usize, const LOOKUP_RANGE: usize>(
    config: RangeCheckConfig<RANGE, LOOKUP_RANGE>,
    loaded: Session,
    simple: Option<nat>,
    lookup: Option<nat>,
) -> Session {
    let row = loaded.next_row();
    Session {
        cells: loaded.cells.insert((config.value, row as int), simple).insert(
            (config.value, row as int + 1),
            lookup,
        ),
        selectors: loaded.selectors.insert((config.q_range_check.index as int, row as int)).insert(
            (config.q_lookup.index as int, row as int + 1),
        ),
        regions: loaded.regions.push(
            RegionView { name: "Assign value for simple range check"@, start: row, rows: 1 },
        ).push(
            RegionView {
                name: "Assign value for lookup range check"@,
                start: row + 1,
                rows: 1,
            },
        ),
        ..loaded
    }
}

/// Run on rows enough for the table and the two values, the circuit loads
/// the table and leaves the session with its two regions.
pub proof fn lemma_runs<const RANGE: usize, const LOOKUP_RANGE: usize>(
    circuit: MyCircuit<RANGE, LOOKUP_RANGE>,
    config: RangeCheckConfig<RANGE, LOOKUP_RANGE>,
    k: u32,
) -> (loaded: Session)
    requires
        MyCircuit::<RANGE, LOOKUP_RANGE>::describes(ConstraintSystemView::empty(), config),
        k < 32,
        LOOKUP_RANGE + 8 <= vstd::arithmetic::power2::pow2(k as nat),
    ensures
        ({
            let start = Session::initial(
                MyCircuit::<RANGE, LOOKUP_RANGE>::configured(ConstraintSystemView::empty()),
                k,
                Seq::empty(),
                false,
            );
            &&& loaded == start.loaded("load range-check table"@, config.table.table())
            &&& loaded.next_row() == LOOKUP_RANGE
            &&& crate::range_check::holds_range(loaded, config.table.value, LOOKUP_RANGE as nat)
            &&& forall|column: Column, row: int|
                column.kind != Any::Fixed ==> loaded.read(column, row) is None
            &&& loaded.selectors == start.selectors
            &&& loaded.copies == start.copies
            &&& loaded.cs == start.cs
            &&& loaded.usable_rows == start.usable_rows
            &&& loaded.instance == start.instance
            &&& loaded.bound_rows == start.bound_rows
            &&& MockProver::ran(&circuit, config, k, Seq::empty(), false) == Ok::<Session, Error>(
                assigned_session(config, loaded, circuit.simple_value@, circuit.lookup_value@),
            )
        }),
{
    let cs = MyCircuit::<RANGE, LOOKUP_RANGE>::configured(ConstraintSystemView::empty());
    vstd::arithmetic::power2::lemma_pow2_strictly_increases(k as nat, 32);
    vstd::arithmetic::power2::lemma2_to64();
    let usable = vstd::arithmetic::power2::pow2(k as nat) - 6;
    assert(cs.rotations_within(usable)) by {
        reveal_with_fuel(Expr::rotations_within, 3);
        crate::range_check::lemma_range_check_rotations(config.value, RANGE as nat, usable);
    }
    assert(cs.selectors_apart()) by {
        reveal_with_fuel(Expr::selectors_apart, 2);
        reveal_with_fuel(Expr::mentions_selector, 2);
        crate::range_check::lemma_range_check_selectors(config.value, RANGE as nat, true);
        crate::range_check::lemma_range_check_selectors(config.value, RANGE as nat, false);
    }
    let start = Session::initial(cs, k, Seq::empty(), false);
    let name = "load range-check table"@;
    let table = config.table.table();
    assert(start.table_column_error(table, 0) is None);
    assert(start.table_columns_error(table, 1) is None) by {
        reveal_with_fuel(Session::table_columns_error, 2);
    }
    assert(Session::table_height(table, 1) == LOOKUP_RANGE) by {
        reveal_with_fuel(Session::table_height, 2);
    }
    let loaded = start.loaded(name, table);
    start.lemma_loaded_frame(name, table);
    crate::range_check::lemma_range_loaded(start, name, table, 0, LOOKUP_RANGE as nat);
    let s1 = loaded.entered("Assign value for simple range check"@);
    let s2 = s1.enabled(config.q_range_check, 0);
    let s3 = s2.assigned(config.value, 0, circuit.simple_value@);
    let s4 = s3.exited();
    assert(config.assigned_simple(loaded, circuit.simple_value@) == Outcome::ok(s4));
    let s5 = s4.entered("Assign value for lookup range check"@);
    let s6 = s5.enabled(config.q_lookup, 0);
    let s7 = s6.assigned(config.value, 0, circuit.lookup_value@);
    let s8 = s7.exited();
    assert(config.assigned_lookup(s4, circuit.lookup_value@) == Outcome::ok(s8));
    assert(s8 =~= assigned_session(
        config,
        loaded,
        circuit.simple_value@,
        circuit.lookup_value@,
    ));
    loaded
}

/// The circuit on a first value below `RANGE`: it accepts exactly where the
/// second value is below `LOOKUP_RANGE`, that is, where it is in the table.
pub proof fn lemma_accepts_iff_in_table<const RANGE: usize, const LOOKUP_RANGE: usize>(
    circuit: MyCircuit<RANGE, LOOKUP_RANGE>,
    config: RangeCheckConfig<RANGE, LOOKUP_RANGE>,
    k: u32,
    v: nat,
    w: nat,
)
    requires
        MyCircuit::<RANGE, LOOKUP_RANGE>::describes(ConstraintSystemView::empty(), config),
        k < 32,
        0 < LOOKUP_RANGE,
        LOOKUP_RANGE + 8 <= vstd::arithmetic::power2::pow2(k as nat),
        circuit.simple_value@ == Some(v),
        circuit.lookup_value@ == Some(w),
        v < RANGE,
        v < modulus(),
        w < modulus(),
    ensures
        MockProver::ran(&circuit, config, k, Seq::empty(), false) matches Ok(s) && (
        s.failures().len() == 0 <==> w < LOOKUP_RANGE),
{
    let loaded = lemma_runs(circuit, config, k);
    let s = assigned_session(config, loaded, Some(v), Some(w));
    let first = LOOKUP_RANGE as int;
    let value = |row: int|
        if row == first {
            v
        } else if row == first + 1 {
            w
        } else {
            0
        };
    assert forall|row: int| #[trigger] s.value_at(config.value, row) == Some(value(row)) by {
        assert(loaded.read(config.value, row) is None);
    }
    assert(crate::range_check::holds_range(s, config.table.value, LOOKUP_RANGE as nat)) by {
        assert forall|j: int| 0 <= j < LOOKUP_RANGE implies #[trigger] s.read(
            fixed_of(config.table.value),
            s.tables[config.table.value.index as int] + j,
        ) == Some(Some(j as nat)) by {
            assert(loaded.read(
                fixed_of(config.table.value),
                loaded.tables[config.table.value.index as int] + j,
            ) == Some(Some(j as nat)));
        }
    }
    let poly = range_check_poly(Expr::Query(config.value, 0), RANGE as nat);
    let query = Expr::Query(config.value, 0);
    assert forall|row: int, g: int, c: int|
        0 <= row < s.usable_rows && 0 <= g < s.cs.gates.len() && 0 <= c
            < s.cs.gates[g].constraints.len() implies (#[trigger] s.constraint_failure(
        g,
        c,
        row,
    )) is None by {
        assert(s.value_at(config.value, row) == Some(value(row)));
        crate::range_check::lemma_range_check_value(
            s,
            config.value,
            row,
            RANGE as nat,
            value(row),
        );
        if row == first {
            crate::range_check::lemma_range_check_accepts(s, config.value, row, RANGE as nat, v);
        }
        s.lemma_switched(config.q_range_check, poly, row);
    }
    assert forall|row: int| 0 <= row < s.usable_rows implies ((#[trigger] s.lookup_failure(0, row))
        is None <==> (row == first + 1 ==> w < LOOKUP_RANGE)) by {
        assert(s.value_at(config.value, row) == Some(value(row)));
        assert(s.eval(query, row) == Some(value(row)));
        s.lemma_switched(config.q_lookup, query, row);
        vstd::arithmetic::div_mod::lemma_small_mod(value(row), modulus());
        let x = if row == first + 1 {
            w
        } else {
            0
        };
        crate::range_check::lemma_range_lookup(s, 0, row, LOOKUP_RANGE as nat, x);
    }
    assert(s.configuration_error() is None);
    s.lemma_accepts_iff_satisfied();
    if w < LOOKUP_RANGE {
        assert(s.satisfied());
    } else {
        assert(s.lookup_failure(0, first + 1) is Some);
    }
}

/// For the range of eight, the circuit rejects the first value eight, next
/// to a second value that is in the table, with one failure: the range-check
/// constraint is not satisfied on the row of the first value.
#[verifier::rlimit(60)]
pub proof fn lemma_rejects_eight<const LOOKUP_RANGE: usize>(
    circuit: MyCircuit<8, LOOKUP_RANGE>,
    config: RangeCheckConfig<8, LOOKUP_RANGE>,
    k: u32,
    w: nat,
)
    requires
        MyCircuit::<8, LOOKUP_RANGE>::describes(ConstraintSystemView::empty(), config),
        k < 32,
        LOOKUP_RANGE + 8 <= vstd::arithmetic::power2::pow2(k as nat),
        circuit.simple_value@ == Some(8nat),
        circuit.lookup_value@ == Some(w),
        w < LOOKUP_RANGE,
        w < modulus(),
    ensures
        MockProver::ran(&circuit, config, k, Seq::empty(), false) matches Ok(s) && s.failures()
            == seq![
            FailureView::ConstraintNotSatisfied {
                gate: NamedView { index: 0, name: "range check"@ },
                constraint: NamedView { index: 0, name: "range check"@ },
                location: LocationView::InRegion {
                    region: NamedView { index: 1, name: "Assign value for simple range check"@ },
                    offset: 0,
                },
                cell_values: seq![(Column { kind: Any::Advice, index: 0 }, 0int, 8nat)],
            },
        ],
{
    let loaded = lemma_runs(circuit, config, k);
    let s = assigned_session(config, loaded, Some(8nat), Some(w));
    let first = LOOKUP_RANGE as int;
    let value = |row: int|
        if row == first {
            8nat
        } else if row == first + 1 {
            w
        } else {
            0
        };
    assert forall|row: int| #[trigger] s.value_at(config.value, row) == Some(value(row)) by {
        assert(loaded.read(config.value, row) is None);
    }
    assert(crate::range_check::holds_range(s, config.table.value, LOOKUP_RANGE as nat)) by {
        assert forall|j: int| 0 <= j < LOOKUP_RANGE implies #[trigger] s.read(
            fixed_of(config.table.value),
            s.tables[config.table.value.index as int] + j,
        ) == Some(Some(j as nat)) by {
            assert(loaded.read(
                fixed_of(config.table.value),
                loaded.tables[config.table.value.index as int] + j,
            ) == Some(Some(j as nat)));
        }
    }
    let poly = range_check_poly(Expr::Query(config.value, 0), 8);
    let gated = Expr::product(Expr::Selector(config.q_range_check), poly);
    let query = Expr::Query(config.value, 0);
    assert forall|row: int, g: int, c: int|
        0 <= row < s.usable_rows && row != first && 0 <= g < s.cs.gates.len() && 0 <= c
            < s.cs.gates[g].constraints.len() implies (#[trigger] s.constraint_failure(
        g,
        c,
        row,
    )) is None by {
        assert(s.value_at(config.value, row) == Some(value(row)));
        crate::range_check::lemma_range_check_value(s, config.value, row, 8, value(row));
        s.lemma_switched(config.q_range_check, poly, row);
    }
    assert forall|row: int| 0 <= row < s.usable_rows implies (#[trigger] s.lookup_failure(0, row))
        is None by {
        assert(s.value_at(config.value, row) == Some(value(row)));
        assert(s.eval(query, row) == Some(value(row)));
        s.lemma_switched(config.q_lookup, query, row);
        vstd::arithmetic::div_mod::lemma_small_mod(value(row), modulus());
        let x = if row == first + 1 {
            w
        } else {
            0
        };
        crate::range_check::lemma_range_lookup(s, 0, row, LOOKUP_RANGE as nat, x);
    }
    // The row of the first value.
    assert(s.value_at(config.value, first) == Some(8nat));
    crate::range_check::lemma_range_check_of_eight(s, config.value, first, 8);
    crate::range_check::lemma_range_check_value(s, config.value, first, 8, 8);
    s.lemma_switched(config.q_range_check, poly, first);
    vstd::arithmetic::div_mod::lemma_mod_twice(
        crate::range_check::range_product(8, 8),
        modulus() as int,
    );
    assert(s.eval(gated, first) == s.eval(poly, first));
    assert(s.find_region(first, 0) == Some(1int)) by {
        reveal_with_fuel(Session::find_region, 3);
        assert(loaded.regions.len() == 1);
        assert(loaded.regions[0].start + loaded.regions[0].rows == first) by {
            assert(loaded.regions.last() == loaded.regions[0]);
        }
    }
    assert(s.cell_values(gated, first) =~= seq![(config.value, 0int, 8nat)]) by {
        reveal_with_fuel(Expr::queried_onto, 2);
        crate::range_check::lemma_range_check_queries(config.value, 8);
        assert(Seq::<(Column, int)>::empty().push((config.value, 0int)) =~= seq![
            (config.value, 0int),
        ]);
    }
    s.lemma_gates_failures(first);
    assert(s.gates_failures(first) =~= Seq::empty());
    s.lemma_gates_failures_skip(first + 1, s.usable_rows as int);
    assert(s.gate_failures(0, first, 1) =~= s.gate_failures(0, first, 0) + crate::checker::maybe(
        s.constraint_failure(0, 0, first),
    ));
    assert(s.row_failures(first, 1) =~= s.row_failures(first, 0) + s.gate_failures(0, first, 1));
    assert(s.gates_failures(first + 1) =~= s.gates_failures(first) + s.row_failures(first, 1));
    s.lemma_lookup_failures(0, s.usable_rows as int);
    assert(s.lookup_failures(0, s.usable_rows as int) =~= Seq::empty());
    assert(s.lookups_failures(1) =~= s.lookups_failures(0) + s.lookup_failures(
        0,
        s.usable_rows as int,
    ));
    assert(s.lookups_failures(0) =~= Seq::empty());
    assert(s.copies_failures(0) =~= Seq::empty());
    assert(s.configuration_error() is None);
    assert(s.failures() =~= seq![s.constraint_failure(0, 0, first).unwrap()]);
}

} // verus!
