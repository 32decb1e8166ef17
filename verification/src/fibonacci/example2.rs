//! A Fibonacci circuit in one advice column: each term stands below the one
//! before, and an addition gate reaches over three rows.

use crate::constraint_system::Constraint;
use crate::constraint_system::ConstraintSystem;
use crate::constraint_system::ConstraintSystemView;
use crate::constraint_system::ConstraintView;
use crate::constraint_system::GateView;
use crate::expression::Any;
use crate::expression::Column;
use crate::expression::Expr;
use crate::expression::Rotation;
use crate::expression::Selector;
use crate::layouter::Layouter;
use crate::failure::FailureView;
use crate::failure::LocationView;
use crate::failure::NamedView;
use crate::fibonacci::fib;
use crate::field::modulus;
use crate::prover::Circuit;
use crate::prover::MockProver;
use crate::session::RegionView;
use crate::session::agrees;
use crate::session::and_then;
use crate::session::AssignedCell;
use crate::session::AssignedCellView;
use crate::session::Cell;
use crate::session::Error;
use crate::session::Outcome;
use crate::session::Session;
use crate::value::add_values;
use vstd::prelude::*;

verus! {

/// An assigned cell of the circuit.
#[derive(Clone, Copy, Debug)]
pub struct ACell(pub AssignedCell);

impl View for ACell {
    type V = AssignedCellView;

    open spec fn view(&self) -> AssignedCellView {
        self.0@
    }
}

/// The columns and the selector of the circuit.
#[derive(Clone, Copy, Debug)]
pub struct FiboConfig {
    pub advice: Column,
    pub selector: Selector,
    pub instance: Column,
}

/// The chip that lays the sequence out.
#[derive(Clone, Copy, Debug)]
pub struct FiboChip {
    pub config: FiboConfig,
}

/// The addition gate: `s * (a + b - c)`, where `a`, `b` and `c` are the
/// advice column on the row itself and on the two rows below.
pub open spec fn add_gate(config: FiboConfig) -> GateView {
    GateView {
        name: "add"@,
        constraints: seq![
            ConstraintView {
                name: ""@,
                poly: Expr::product(
                    Expr::Selector(config.selector),
                    Expr::difference(
                        Expr::sum(Expr::Query(config.advice, 0), Expr::Query(config.advice, 1)),
                        Expr::Query(config.advice, 2),
                    ),
                ),
            },
        ],
    }
}

impl FiboChip {
    /// The configuration that `configure` returns.
    pub open spec fn config_of(
        cs: ConstraintSystemView,
        advice: Column,
        instance: Column,
    ) -> FiboConfig {
        FiboConfig {
            advice,
            selector: Selector { index: cs.selectors.len() as usize, simple: true },
            instance,
        }
    }

    /// The description once the chip is configured: one more selector,
    /// equality enabled on the two columns, and one more gate.
    pub open spec fn configured(
        cs: ConstraintSystemView,
        advice: Column,
        instance: Column,
    ) -> ConstraintSystemView {
        let enabled = (ConstraintSystemView {
            selectors: cs.selectors.push(true),
            ..cs
        }).with_equality(advice).with_equality(instance);
        ConstraintSystemView {
            gates: enabled.gates.push(add_gate(FiboChip::config_of(cs, advice, instance))),
            ..enabled
        }
    }

    /// What the rows from `row` on make of a session in which the region is
    /// open, where the two terms before are `a` and `b`: each row holds the
    /// sum of the two terms before it, and all but the last two have the
    /// selector enabled.
    pub open spec fn rows_from(
        config: FiboConfig,
        s: Session,
        a: Option<nat>,
        b: Option<nat>,
        row: nat,
        nrows: nat,
    ) -> Outcome
        decreases nrows - row,
    {
        if row >= nrows {
            Outcome::ok(s)
        } else {
            let r = if row + 2 < nrows {
                s.try_enable(config.selector, row)
            } else {
                Outcome::ok(s)
            };
            let r = and_then(r, |t: Session| t.try_assign(config.advice, row, add_values(a, b)));
            if r.error is Some {
                r
            } else {
                FiboChip::rows_from(config, r.session, b, add_values(a, b), row + 1, nrows)
            }
        }
    }

    /// The term on the last of `nrows` rows, where the two terms before row
    /// `row` are `a` and `b`.
    pub open spec fn last_term(a: Option<nat>, b: Option<nat>, row: nat, nrows: nat) -> Option<
        nat,
    >
        decreases nrows - row,
    {
        if row >= nrows {
            b
        } else {
            FiboChip::last_term(b, add_values(a, b), row + 1, nrows)
        }
    }

    /// What `assign` makes of a session: one region with the first two
    /// public inputs on its first two rows, bound to them, and the terms
    /// that follow on the rows below, `nrows` rows in all and two at least.
    pub open spec fn table(config: FiboConfig, s: Session, nrows: nat) -> Outcome {
        let public = s.instance[config.instance.index as int];
        let r = s.try_enter("entire fibonacci table"@);
        let r = and_then(r, |t: Session| t.try_enable(config.selector, 0));
        let r = and_then(r, |t: Session| t.try_enable(config.selector, 1));
        let r = and_then(
            r,
            |t: Session| t.try_assign_from_instance(config.instance, 0, config.advice, 0),
        );
        let r = and_then(
            r,
            |t: Session| t.try_assign_from_instance(config.instance, 1, config.advice, 1),
        );
        let r = and_then(
            r,
            |t: Session|
                FiboChip::rows_from(config, t, Some(public[0]), Some(public[1]), 2, nrows),
        );
        and_then(r, |t: Session| t.try_exit())
    }

    /// The last cell of the table that `assign` lays out in session `s`.
    pub open spec fn last_cell(config: FiboConfig, s: Session, nrows: nat) -> AssignedCellView {
        let public = s.instance[config.instance.index as int];
        let offset = if nrows <= 2 {
            1
        } else {
            nrows - 1
        };
        AssignedCellView {
            cell: Cell { column: config.advice, row: (s.next_row() + offset) as usize },
            value: FiboChip::last_term(Some(public[0]), Some(public[1]), 2, nrows),
        }
    }

    /// The chip of a configuration.
    pub fn construct(config: FiboConfig) -> (r: FiboChip)
        ensures
            r.config == config,
    {
        FiboChip { config }
    }

    /// Describes the chip on the given columns.
    pub fn configure(meta: &mut ConstraintSystem, advice: Column, instance: Column) -> (r:
        FiboConfig)
        ensures
            r == FiboChip::config_of(old(meta)@, advice, instance),
            final(meta)@ == FiboChip::configured(old(meta)@, advice, instance),
    {
        let selector = meta.selector();

        meta.enable_equality(advice);
        meta.enable_equality(instance);

        let s = meta.query_selector(selector);
        let a = meta.query_advice(advice, Rotation::cur());
        let b = meta.query_advice(advice, Rotation::next());
        let c = meta.query_advice(advice, Rotation(2));
        let mut constraints: Vec<Constraint> = Vec::new();
        constraints.push(Constraint::new("", s.times(a.plus(b).minus(c))));
        let config = FiboConfig { advice, selector, instance };
        assert(constraints@.map_values(|c: Constraint| c@) =~= add_gate(config).constraints);
        meta.create_gate("add", constraints);
        config
    }

    /// Lays out the first `nrows` terms of the sequence that starts with the
    /// first two public inputs, and returns the cell of the last one.
    pub fn assign(&self, layouter: &mut Layouter, nrows: usize) -> (r: Result<ACell, Error>)
        requires
            old(layouter).wf(),
        ensures
            final(layouter).wf(),
            agrees(FiboChip::table(self.config, old(layouter)@, nrows as nat), r, final(layouter)@),
            r matches Ok(cell) ==> cell@ == FiboChip::last_cell(
                self.config,
                old(layouter)@,
                nrows as nat,
            ),
    {
        let ghost public = layouter@.instance[self.config.instance.index as int];
        layouter.enter_region("entire fibonacci table")?;
        layouter.enable_selector(self.config.selector, 0)?;
        layouter.enable_selector(self.config.selector, 1)?;

        let mut a_cell = ACell(
            layouter.assign_advice_from_instance(self.config.instance, 0, self.config.advice, 0)?,
        );
        let mut b_cell = ACell(
            layouter.assign_advice_from_instance(self.config.instance, 1, self.config.advice, 1)?,
        );
        let ghost filled = layouter@;

        let mut row: usize = 2;
        while row < nrows
            invariant
                2 <= row,
                row <= nrows || row == 2,
                layouter.wf(),
                layouter@.open,
                layouter@.regions.len() > 0,
                layouter@.regions.last().start == old(layouter)@.next_row(),
                layouter@.instance == old(layouter)@.instance,
                public == old(layouter)@.instance[self.config.instance.index as int],
                FiboChip::rows_from(
                    self.config,
                    filled,
                    Some(public[0]),
                    Some(public[1]),
                    2,
                    nrows as nat,
                ) == FiboChip::rows_from(
                    self.config,
                    layouter@,
                    a_cell@.value,
                    b_cell@.value,
                    row as nat,
                    nrows as nat,
                ),
                FiboChip::last_term(Some(public[0]), Some(public[1]), 2, nrows as nat)
                    == FiboChip::last_term(a_cell@.value, b_cell@.value, row as nat, nrows as nat),
                b_cell@.cell == (Cell {
                    column: self.config.advice,
                    row: (old(layouter)@.next_row() + row - 1) as usize,
                }),
                FiboChip::table(self.config, old(layouter)@, nrows as nat) == and_then(
                    FiboChip::rows_from(
                        self.config,
                        filled,
                        Some(public[0]),
                        Some(public[1]),
                        2,
                        nrows as nat,
                    ),
                    |t: Session| t.try_exit(),
                ),
            decreases nrows - row,
        {
            if row < nrows - 2 {
                layouter.enable_selector(self.config.selector, row)?;
            }
            let c_cell = ACell(
                layouter.assign_advice(
                    self.config.advice,
                    row,
                    a_cell.0.value.add(&b_cell.0.value),
                )?,
            );
            a_cell = b_cell;
            b_cell = c_cell;
            row = row + 1;
        }
        assert(FiboChip::last_term(a_cell@.value, b_cell@.value, row as nat, nrows as nat)
            == b_cell@.value);
        layouter.exit_region()?;
        Ok(b_cell)
    }

    /// Binds a cell to the public input at `row`: the public input reaches
    /// the cell, so that the gates that read the cell are held against it.
    pub fn expose_public(&self, layouter: &mut Layouter, cell: ACell, row: usize) -> (r: Result<
        (),
        Error,
    >)
        requires
            old(layouter).wf(),
        ensures
            final(layouter).wf(),
            agrees(
                old(layouter)@.try_constrain(cell@.cell, self.config.instance, row as nat),
                r,
                final(layouter)@,
            ),
            r is Err ==> final(layouter)@ == old(layouter)@,
    {
        layouter.constrain_instance(cell.0.cell, self.config.instance, row)
    }
}

/// The circuit that lays out ten terms of the sequence that starts with the
/// first two public inputs, and binds the tenth to the third public input.
#[derive(Clone, Copy, Debug, Default)]
pub struct MyCircuit;

impl MyCircuit {
    /// The description with the circuit's advice column and its instance
    /// column.
    pub open spec fn with_columns(cs: ConstraintSystemView) -> ConstraintSystemView {
        ConstraintSystemView {
            advice: cs.advice.push(false),
            instance: cs.instance.push(false),
            ..cs
        }
    }

    /// The circuit's advice column in a description.
    pub open spec fn advice_column(cs: ConstraintSystemView) -> Column {
        Column { kind: Any::Advice, index: cs.advice.len() as usize }
    }

    /// The circuit's instance column in a description.
    pub open spec fn instance_column(cs: ConstraintSystemView) -> Column {
        Column { kind: Any::Instance, index: cs.instance.len() as usize }
    }
}

impl Circuit for MyCircuit {
    type Config = FiboConfig;

    open spec fn configured(cs: ConstraintSystemView) -> ConstraintSystemView {
        FiboChip::configured(
            MyCircuit::with_columns(cs),
            MyCircuit::advice_column(cs),
            MyCircuit::instance_column(cs),
        )
    }

    open spec fn describes(cs: ConstraintSystemView, config: FiboConfig) -> bool {
        config == FiboChip::config_of(
            MyCircuit::with_columns(cs),
            MyCircuit::advice_column(cs),
            MyCircuit::instance_column(cs),
        )
    }

    open spec fn synthesized(&self, config: FiboConfig, s: Session) -> Outcome {
        and_then(
            FiboChip::table(config, s, 10),
            |t: Session|
                t.try_constrain(FiboChip::last_cell(config, s, 10).cell, config.instance, 2),
        )
    }

    open spec fn lacks_witnesses(&self) -> bool {
        true
    }

    fn without_witnesses(&self) -> (r: MyCircuit) {
        MyCircuit
    }

    fn configure(meta: &mut ConstraintSystem) -> (config: FiboConfig) {
        let advice = meta.advice_column();
        let instance = meta.instance_column();
        assert(meta@ =~= MyCircuit::with_columns(old(meta)@));
        FiboChip::configure(meta, advice, instance)
    }

    fn synthesize(&self, config: FiboConfig, layouter: &mut Layouter) -> (r: Result<(), Error>) {
        let chip = FiboChip::construct(config);
        let out_cell = chip.assign(layouter, 10)?;
        chip.expose_public(layouter, out_cell, 2)
    }
}

/// A session in which the rows from `from` up to `to` of the open region
/// are written: row `j` holds the `j`-th term of the sequence that starts
/// with `x` and `y`, and all these rows but the last two of the region have
/// the selector enabled.
pub open spec fn with_rows(
    config: FiboConfig,
    s: Session,
    x: nat,
    y: nat,
    from: nat,
    to: nat,
) -> Session {
    let last = s.regions.last();
    let start = last.start;
    Session {
        cells: Map::new(
            |key: (Column, int)|
                s.cells.contains_key(key) || (key.0 == config.advice && start + from <= key.1
                    < start + to),
            |key: (Column, int)|
                if key.0 == config.advice && start + from <= key.1 < start + to {
                    Some(fib(x, y, (key.1 - start) as nat))
                } else {
                    s.cells[key]
                },
        ),
        selectors: Set::new(
            |key: (int, int)|
                s.selectors.contains(key) || (key.0 == config.selector.index && start + from
                    <= key.1 && key.1 + 2 < start + to),
        ),
        regions: if from < to {
            s.regions.update(
                s.regions.len() - 1,
                RegionView {
                    rows: if to > last.rows {
                        to
                    } else {
                        last.rows
                    },
                    ..last
                },
            )
        } else {
            s.regions
        },
        ..s
    }
}

/// Where the rows fit the usable rows, the rows from `row` on are written
/// without error, and each holds its term of the sequence.
pub proof fn lemma_rows_from(config: FiboConfig, s: Session, x: nat, y: nat, row: nat, nrows: nat)
    requires
        s.open,
        s.regions.len() > 0,
        s.is_advice(config.advice),
        config.selector.index < s.cs.selectors.len(),
        2 <= row,
        row < nrows ==> s.regions.last().start + nrows <= s.usable_rows,
    ensures
        FiboChip::rows_from(
            config,
            s,
            Some(fib(x, y, (row - 2) as nat)),
            Some(fib(x, y, (row - 1) as nat)),
            row,
            nrows,
        ) == Outcome::ok(with_rows(config, s, x, y, row, nrows)),
    decreases nrows - row,
{
    if row >= nrows {
        assert(with_rows(config, s, x, y, row, nrows) =~= s);
    } else {
        let enabled = if row + 2 < nrows {
            s.enabled(config.selector, row)
        } else {
            s
        };
        let t = enabled.assigned(config.advice, row, Some(fib(x, y, row)));
        lemma_rows_from(config, t, x, y, row + 1, nrows);
        assert(with_rows(config, t, x, y, row + 1, nrows) =~= with_rows(
            config,
            s,
            x,
            y,
            row,
            nrows,
        ));
    }
}

/// The session that the chip leaves where it lays out `n` rows in a fresh
/// session of the circuit with the public inputs `a`, `b` and `out`, and the
/// last cell is then bound to the third input: one region of `n` rows with
/// the first `n - 1` terms of the sequence and, on the last row, the third
/// input; the selector enabled on all rows but the last two; and the first
/// two terms bound to `a` and `b`.
pub open spec fn laid_out(k: u32, a: nat, b: nat, out: nat, n: nat) -> Session {
    let cs = MyCircuit::configured(ConstraintSystemView::empty());
    let start = Session::initial(cs, k, seq![seq![a, b, out]], false);
    let advice = Column { kind: Any::Advice, index: 0 };
    let instance = Column { kind: Any::Instance, index: 0 };
    Session {
        cells: Map::new(
            |key: (Column, int)| key.0 == advice && 0 <= key.1 < n,
            |key: (Column, int)|
                Some(
                    if key.1 == n - 1 {
                        out
                    } else {
                        fib(a, b, key.1 as nat)
                    },
                ),
        ),
        selectors: Set::new(|key: (int, int)| key.0 == 0 && 0 <= key.1 < n - 2),
        regions: seq![RegionView { name: "entire fibonacci table"@, start: 0, rows: n }],
        copies: seq![
            (Cell { column: instance, row: 0 }, Cell { column: advice, row: 0 }),
            (Cell { column: instance, row: 1 }, Cell { column: advice, row: 1 }),
            (Cell { column: advice, row: (n - 1) as usize }, Cell { column: instance, row: 2 }),
        ],
        bound_rows: seq![3nat],
        ..start
    }
}

/// What the chip and the binding of its last cell make of a fresh session
/// of the circuit.
pub open spec fn lay_out(config: FiboConfig, k: u32, a: nat, b: nat, out: nat, n: nat) -> Outcome {
    let cs = MyCircuit::configured(ConstraintSystemView::empty());
    let start = Session::initial(cs, k, seq![seq![a, b, out]], false);
    and_then(
        FiboChip::table(config, start, n),
        |t: Session| t.try_constrain(FiboChip::last_cell(config, start, n).cell, config.instance, 2),
    )
}

/// In a session with rows enough, the chip lays out any number of rows from
/// four on, and the binding of the last cell succeeds.
pub proof fn lemma_lays_out(config: FiboConfig, k: u32, a: nat, b: nat, out: nat, n: nat)
    requires
        MyCircuit::describes(ConstraintSystemView::empty(), config),
        k < 32,
        4 <= n,
        n + 6 <= vstd::arithmetic::power2::pow2(k as nat),
    ensures
        Session::initial_error(
            MyCircuit::configured(ConstraintSystemView::empty()),
            k,
            seq![seq![a, b, out]],
        ) is None,
        lay_out(config, k, a, b, out, n) == Outcome::ok(laid_out(k, a, b, out, n)),
{
    let cs = MyCircuit::configured(ConstraintSystemView::empty());
    let public = seq![seq![a, b, out]];
    vstd::arithmetic::power2::lemma2_to64();
    vstd::arithmetic::power2::lemma_pow2_strictly_increases(k as nat, 32);
    let usable = vstd::arithmetic::power2::pow2(k as nat) - 6;
    assert(cs.rotations_within(usable)) by {
        reveal_with_fuel(Expr::rotations_within, 6);
        assert(add_gate(config).constraints[0].poly.rotations_within(usable));
    }
    assert(cs.selectors_apart()) by {
        reveal_with_fuel(Expr::selectors_apart, 6);
        reveal_with_fuel(Expr::mentions_selector, 6);
        assert(add_gate(config).constraints[0].poly.selectors_apart());
    }
    assert(Session::initial_error(cs, k, public) is None);
    let start = Session::initial(cs, k, public, false);
    let s1 = start.entered("entire fibonacci table"@);
    let s2 = s1.enabled(config.selector, 0);
    let s3 = s2.enabled(config.selector, 1);
    let s4 = s3.assigned_from_instance(config.instance, 0, config.advice, 0);
    let s5 = s4.assigned_from_instance(config.instance, 1, config.advice, 1);
    assert(s5.instance[config.instance.index as int] == seq![a, b, out]);
    assert(fib(a, b, 0) == a && fib(a, b, 1) == b);
    lemma_rows_from(config, s5, a, b, 2, n);
    let s6 = with_rows(config, s5, a, b, 2, n);
    let s7 = s6.exited();
    assert(FiboChip::table(config, start, n) == Outcome::ok(s7));
    let last = FiboChip::last_cell(config, start, n);
    assert(last.cell == (Cell { column: config.advice, row: (n - 1) as usize }));
    let s8 = s7.constrained(last.cell, config.instance, 2);
    assert(s7.constrain_error(last.cell, config.instance, 2) is None);
    assert(s8 =~= laid_out(k, a, b, out, n));
}

/// The cells that the addition gate queries.
proof fn lemma_add_gate_queries(config: FiboConfig)
    ensures
        add_gate(config).constraints[0].poly.queried() == seq![
            (config.advice, 0int),
            (config.advice, 1int),
            (config.advice, 2int),
        ],
{
    reveal_with_fuel(Expr::queried_onto, 6);
    let advice = config.advice;
    let none = Seq::<(Column, int)>::empty();
    let one = none.push((advice, 0int));
    let two = one.push((advice, 1int));
    assert(!none.contains((advice, 0int)));
    assert(!one.contains((advice, 1int))) by {
        assert forall|i: int| 0 <= i < one.len() implies one[i] != (advice, 1int) by {}
    }
    assert(!two.contains((advice, 2int))) by {
        assert forall|i: int| 0 <= i < two.len() implies two[i] != (advice, 2int) by {}
    }
    assert(add_gate(config).constraints[0].poly.queried() =~= seq![
        (advice, 0int),
        (advice, 1int),
        (advice, 2int),
    ]);
}

/// What the check makes of `n` rows that the chip laid out, with the last
/// cell bound to the third public input: it accepts exactly where that
/// input is the last term of the sequence that starts with the first two.
/// Any other third input fails in one place and in one way: on the last row
/// on which the addition gate is enabled its constraint is not satisfied,
/// since the sum of the two terms before the last is not the input that
/// reached the last cell. Every other row is satisfied, and so are the copy
/// constraints.
#[verifier::rlimit(60)]
pub proof fn lemma_accepts_the_last_term(
    config: FiboConfig,
    k: u32,
    a: nat,
    b: nat,
    out: nat,
    n: nat,
)
    requires
        MyCircuit::describes(ConstraintSystemView::empty(), config),
        k < 32,
        4 <= n,
        n + 6 <= vstd::arithmetic::power2::pow2(k as nat),
        a < modulus(),
        b < modulus(),
        out < modulus(),
    ensures
        laid_out(k, a, b, out, n).failures().len() == 0 <==> out == fib(a, b, (n - 1) as nat),
        out != fib(a, b, (n - 1) as nat) ==> laid_out(k, a, b, out, n).failures() == seq![
            FailureView::ConstraintNotSatisfied {
                gate: NamedView { index: 0, name: "add"@ },
                constraint: NamedView { index: 0, name: ""@ },
                location: LocationView::InRegion {
                    region: NamedView { index: 0, name: "entire fibonacci table"@ },
                    offset: (n - 3) as nat,
                },
                cell_values: seq![
                    (Column { kind: Any::Advice, index: 0 }, 0int, fib(a, b, (n - 3) as nat)),
                    (Column { kind: Any::Advice, index: 0 }, 1int, fib(a, b, (n - 2) as nat)),
                    (Column { kind: Any::Advice, index: 0 }, 2int, out),
                ],
            },
        ],
{
    vstd::arithmetic::power2::lemma2_to64();
    vstd::arithmetic::power2::lemma_pow2_strictly_increases(k as nat, 32);
    let s = laid_out(k, a, b, out, n);
    let advice = Column { kind: Any::Advice, index: 0 };
    let sum = Expr::sum(Expr::Query(advice, 0), Expr::Query(advice, 1));
    let poly = Expr::difference(sum, Expr::Query(advice, 2));
    let gated = Expr::product(Expr::Selector(config.selector), poly);
    let last = (n - 3) as int;
    let last_term = fib(a, b, (n - 1) as nat);
    let cell = |row: int|
        if row == n - 1 {
            out
        } else {
            fib(a, b, row as nat)
        };
    assert(s.all_known());
    assert forall|row: int| 0 <= row < n - 2 implies #[trigger] s.eval(gated, row) == Some(
        crate::field::sub_mod(fib(a, b, (row + 2) as nat), cell(row + 2)),
    ) by {
        s.lemma_difference(sum, Expr::Query(advice, 2), row);
        let next = fib(a, b, (row + 2) as nat);
        assert(next == crate::field::add_mod(fib(a, b, row as nat), fib(a, b, (row + 1) as nat)));
        assert(s.eval(Expr::Query(advice, 0), row) == Some(fib(a, b, row as nat)));
        assert(s.eval(Expr::Query(advice, 1), row) == Some(fib(a, b, (row + 1) as nat)));
        assert(s.eval(sum, row) == Some(next));
        assert(s.eval(Expr::Query(advice, 2), row) == Some(cell(row + 2)));
        crate::field::lemma_results_bounded(next, cell(row + 2));
        s.lemma_switched(config.selector, poly, row);
        vstd::arithmetic::div_mod::lemma_small_mod(
            crate::field::sub_mod(next, cell(row + 2)),
            modulus(),
        );
    }
    crate::field::lemma_results_bounded(fib(a, b, (n - 3) as nat), fib(a, b, (n - 2) as nat));
    assert(last_term == crate::field::add_mod(
        fib(a, b, (n - 3) as nat),
        fib(a, b, (n - 2) as nat),
    ));
    crate::field::lemma_sub_zero(last_term, out);
    assert forall|row: int, g: int, c: int|
        0 <= row < s.usable_rows && row != last && 0 <= g < s.cs.gates.len() && 0 <= c
            < s.cs.gates[g].constraints.len() implies (#[trigger] s.constraint_failure(
        g,
        c,
        row,
    )) is None by {
        if row < n - 2 {
            assert(s.eval(gated, row) == Some(
                crate::field::sub_mod(fib(a, b, (row + 2) as nat), cell(row + 2)),
            ));
            crate::field::lemma_results_bounded(
                fib(a, b, row as nat),
                fib(a, b, (row + 1) as nat),
            );
            crate::field::lemma_sub_zero(
                fib(a, b, (row + 2) as nat),
                fib(a, b, (row + 2) as nat),
            );
        } else {
            s.lemma_eval_known(poly, row);
            s.lemma_switched(config.selector, poly, row);
        }
    }
    assert(s.eval(gated, last) == Some(crate::field::sub_mod(last_term, out)));
    s.lemma_gates_failures(last);
    assert(s.gates_failures(last) =~= Seq::empty());
    s.lemma_gates_failures_skip(last + 1, s.usable_rows as int);
    assert(s.gate_failures(0, last, 1) =~= s.gate_failures(0, last, 0) + crate::checker::maybe(
        s.constraint_failure(0, 0, last),
    ));
    assert(s.row_failures(last, 1) =~= s.row_failures(last, 0) + s.gate_failures(0, last, 1));
    assert(s.gates_failures(last + 1) =~= s.gates_failures(last) + s.row_failures(last, 1));
    assert(s.lookups_failures(0) =~= Seq::empty());
    assert(s.configuration_error() is None);
    reveal_with_fuel(Session::copies_failures, 4);
    assert(s.copy_failure(0) is None);
    assert(s.copy_failure(1) is None);
    assert(s.copy_failure(2) is None);
    assert(s.copies_failures(3) =~= Seq::empty());
    if out == last_term {
        assert(s.constraint_failure(0, 0, last) is None);
        assert(s.failures() =~= Seq::empty());
    } else {
        assert(s.find_region(last, 0) == Some(0int));
        lemma_add_gate_queries(config);
        assert(s.cell_values(gated, last) =~= seq![
            (advice, 0int, fib(a, b, (n - 3) as nat)),
            (advice, 1int, fib(a, b, (n - 2) as nat)),
            (advice, 2int, out),
        ]);
        assert(s.failures() =~= seq![s.constraint_failure(0, 0, last).unwrap()]);
    }
}

/// The circuit, which lays out ten rows, accepts exactly where the third
/// public input is the tenth term of the sequence that starts with the
/// first two. Any other third input fails in one place and in one way: on
/// the eighth row the constraint of the addition gate is not satisfied.
pub proof fn lemma_accepts_the_tenth_term(
    circuit: MyCircuit,
    config: FiboConfig,
    k: u32,
    a: nat,
    b: nat,
    out: nat,
)
    requires
        MyCircuit::describes(ConstraintSystemView::empty(), config),
        4 <= k < 32,
        a < modulus(),
        b < modulus(),
        out < modulus(),
    ensures
        MockProver::ran(&circuit, config, k, seq![seq![a, b, out]], false) matches Ok(s) && (
        s.failures().len() == 0 <==> out == fib(a, b, 9)) && (out != fib(a, b, 9) ==> s.failures()
            == seq![
            FailureView::ConstraintNotSatisfied {
                gate: NamedView { index: 0, name: "add"@ },
                constraint: NamedView { index: 0, name: ""@ },
                location: LocationView::InRegion {
                    region: NamedView { index: 0, name: "entire fibonacci table"@ },
                    offset: 7,
                },
                cell_values: seq![
                    (Column { kind: Any::Advice, index: 0 }, 0int, fib(a, b, 7)),
                    (Column { kind: Any::Advice, index: 0 }, 1int, fib(a, b, 8)),
                    (Column { kind: Any::Advice, index: 0 }, 2int, out),
                ],
            },
        ]),
{
    vstd::arithmetic::power2::lemma2_to64();
    if k > 4 {
        vstd::arithmetic::power2::lemma_pow2_strictly_increases(4, k as nat);
    }
    lemma_lays_out(config, k, a, b, out, 10);
    lemma_accepts_the_last_term(config, k, a, b, out, 10);
    assert(circuit.synthesized(
        config,
        Session::initial(
            MyCircuit::configured(ConstraintSystemView::empty()),
            k,
            seq![seq![a, b, out]],
            false,
        ),
    ) == lay_out(config, k, a, b, out, 10));
}

} // verus!
