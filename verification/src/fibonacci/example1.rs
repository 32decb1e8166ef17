//! A Fibonacci circuit with one row for each term: three advice columns
//! hold two terms and their sum, and each row copies its first two cells
//! from the row before.

use crate::constraint_system::Constraint;
use crate::constraint_system::ConstraintSystem;
use crate::constraint_system::ConstraintSystemView;
use crate::constraint_system::ConstraintView;
use crate::constraint_system::GateView;
use crate::expression::Any;
use crate::expression::Column;
use crate::expression::Expr;
use crate::expression::Rotation;
use crate::expression::Selector;
use crate::layouter::Layouter;
use crate::failure::FailureView;
use crate::failure::LocationView;
use crate::failure::NamedView;
use crate::session::RegionView;
use crate::fibonacci::fib;
use crate::field::modulus;
use crate::prover::Circuit;
use crate::prover::MockProver;
use crate::session::Cell;
use crate::session::agrees;
use crate::session::and_then;
use crate::session::AssignedCell;
use crate::session::AssignedCellView;
use crate::session::Error;
use crate::session::Outcome;
use crate::session::Session;
use crate::value::add_values;
use vstd::prelude::*;

verus! {

/// An assigned cell of the circuit.
#[derive(Clone, Copy, Debug)]
pub struct ACell(pub AssignedCell);

impl View for ACell {
    type V = AssignedCellView;

    open spec fn view(&self) -> AssignedCellView {
        self.0@
    }
}

/// The columns and the selector of the circuit.
#[derive(Clone, Copy, Debug)]
pub struct FiboConfig {
    pub advice: [Column; 3],
    pub selector: Selector,
    pub instance: Column,
}

/// The chip that lays the sequence out.
#[derive(Clone, Copy, Debug)]
pub struct FiboChip {
    pub config: FiboConfig,
}

/// The addition gate: `s * (a + b - c)` over the three advice columns on one
/// row.
pub open spec fn add_gate(config: FiboConfig) -> GateView {
    GateView {
        name: "add"@,
        constraints: seq![
            ConstraintView {
                name: ""@,
                poly: Expr::product(
                    Expr::Selector(config.selector),
                    Expr::difference(
                        Expr::sum(
                            Expr::Query(config.advice[0], 0),
                            Expr::Query(config.advice[1], 0),
                        ),
                        Expr::Query(config.advice[2], 0),
                    ),
                ),
            },
        ],
    }
}

impl FiboChip {
    /// The configuration that `configure` returns.
    pub open spec fn config_of(
        cs: ConstraintSystemView,
        advice: [Column; 3],
        instance: Column,
    ) -> FiboConfig {
        FiboConfig {
            advice,
            selector: Selector { index: cs.selectors.len() as usize, simple: true },
            instance,
        }
    }

    /// The description once the chip is configured: one more selector,
    /// equality enabled on the four columns, and one more gate.
    pub open spec fn configured(
        cs: ConstraintSystemView,
        advice: [Column; 3],
        instance: Column,
    ) -> ConstraintSystemView {
        let enabled = (ConstraintSystemView {
            selectors: cs.selectors.push(true),
            ..cs
        }).with_equality(advice[0]).with_equality(advice[1]).with_equality(
            advice[2],
        ).with_equality(instance);
        ConstraintSystemView {
            gates: enabled.gates.push(add_gate(FiboChip::config_of(cs, advice, instance))),
            ..enabled
        }
    }

    /// What `assign_first_row` makes of a session: a region of one row with
    /// the selector enabled, the first two public inputs in the first two
    /// columns, bound to them, and their sum in the third.
    pub open spec fn first_row(config: FiboConfig, s: Session) -> Outcome {
        let r = s.try_enter("first row"@);
        let r = and_then(r, |t: Session| t.try_enable(config.selector, 0));
        let r = and_then(
            r,
            |t: Session| t.try_assign_from_instance(config.instance, 0, config.advice[0], 0),
        );
        let r = and_then(
            r,
            |t: Session| t.try_assign_from_instance(config.instance, 1, config.advice[1], 0),
        );
        let r = and_then(
            r,
            |t: Session|
                t.try_assign(
                    config.advice[2],
                    0,
                    Some(
                        crate::field::add_mod(
                            t.instance[config.instance.index as int][0],
                            t.instance[config.instance.index as int][1],
                        ),
                    ),
                ),
        );
        and_then(r, |t: Session| t.try_exit())
    }

    /// What `assign_row` makes of a session: a region of one row with the
    /// selector enabled, copies of the two cells in the first two columns,
    /// and the sum of their values in the third.
    pub open spec fn next_row(
        config: FiboConfig,
        s: Session,
        prev_b: AssignedCellView,
        prev_c: AssignedCellView,
    ) -> Outcome {
        let r = s.try_enter("next row"@);
        let r = and_then(r, |t: Session| t.try_enable(config.selector, 0));
        let r = and_then(r, |t: Session| t.try_copy(prev_b, config.advice[0], 0));
        let r = and_then(r, |t: Session| t.try_copy(prev_c, config.advice[1], 0));
        let r = and_then(
            r,
            |t: Session| t.try_assign(config.advice[2], 0, add_values(prev_b.value, prev_c.value)),
        );
        and_then(r, |t: Session| t.try_exit())
    }

    /// The cell of the first row, which `assign_first_row` opens in session
    /// `s`, that holds the public input at `row`.
    pub open spec fn input_cell(config: FiboConfig, s: Session, row: int) -> AssignedCellView {
        AssignedCellView {
            cell: s.cell_below(config.advice[row]),
            value: Some(s.instance[config.instance.index as int][row]),
        }
    }

    /// The third cell of a row that is opened in session `s`: the sum of
    /// two values.
    pub open spec fn sum_cell(
        config: FiboConfig,
        s: Session,
        a: Option<nat>,
        b: Option<nat>,
    ) -> AssignedCellView {
        AssignedCellView { cell: s.cell_below(config.advice[2]), value: add_values(a, b) }
    }

    /// What `n` calls of `assign_row` in a row make of a session, each fed
    /// with the last cell of the call before and with the cell that this one
    /// returned.
    pub open spec fn next_rows(
        config: FiboConfig,
        s: Session,
        prev_b: AssignedCellView,
        prev_c: AssignedCellView,
        n: nat,
    ) -> Outcome
        decreases n,
    {
        if n == 0 {
            Outcome::ok(s)
        } else {
            let row = FiboChip::next_row(config, s, prev_b, prev_c);
            if row.error is Some {
                row
            } else {
                FiboChip::next_rows(
                    config,
                    row.session,
                    prev_c,
                    FiboChip::sum_cell(config, s, prev_b.value, prev_c.value),
                    (n - 1) as nat,
                )
            }
        }
    }

    /// The cell that the last of `n` calls of `assign_row` in a row
    /// returns, where all of them succeed.
    pub open spec fn last_cell(
        config: FiboConfig,
        s: Session,
        prev_b: AssignedCellView,
        prev_c: AssignedCellView,
        n: nat,
    ) -> AssignedCellView
        decreases n,
    {
        if n == 0 {
            prev_c
        } else {
            let row = FiboChip::next_row(config, s, prev_b, prev_c);
            if row.error is Some {
                prev_c
            } else {
                FiboChip::last_cell(
                    config,
                    row.session,
                    prev_c,
                    FiboChip::sum_cell(config, s, prev_b.value, prev_c.value),
                    (n - 1) as nat,
                )
            }
        }
    }

    /// The chip of a configuration.
    pub fn construct(config: FiboConfig) -> (r: FiboChip)
        ensures
            r.config == config,
    {
        FiboChip { config }
    }

    /// Describes the chip on the given columns.
    pub fn configure(meta: &mut ConstraintSystem, advice: [Column; 3], instance: Column) -> (r:
        FiboConfig)
        ensures
            r == FiboChip::config_of(old(meta)@, advice, instance),
            final(meta)@ == FiboChip::configured(old(meta)@, advice, instance),
    {
        let col_a = advice[0];
        let col_b = advice[1];
        let col_c = advice[2];
        let selector = meta.selector();

        meta.enable_equality(col_a);
        meta.enable_equality(col_b);
        meta.enable_equality(col_c);
        meta.enable_equality(instance);

        let s = meta.query_selector(selector);
        let a = meta.query_advice(col_a, Rotation::cur());
        let b = meta.query_advice(col_b, Rotation::cur());
        let c = meta.query_advice(col_c, Rotation::cur());
        let mut constraints: Vec<Constraint> = Vec::new();
        constraints.push(Constraint::new("", s.times(a.plus(b).minus(c))));
        let config = FiboConfig { advice, selector, instance };
        assert(constraints@.map_values(|c: Constraint| c@) =~= add_gate(config).constraints);
        meta.create_gate("add", constraints);
        config
    }

    /// Assigns the first row from the first two public inputs and returns
    /// its three cells.
    pub fn assign_first_row(&self, layouter: &mut Layouter) -> (r: Result<
        (ACell, ACell, ACell),
        Error,
    >)
        requires
            old(layouter).wf(),
        ensures
            final(layouter).wf(),
            agrees(FiboChip::first_row(self.config, old(layouter)@), r, final(layouter)@),
            r matches Ok(cells) ==> {
                let a = FiboChip::input_cell(self.config, old(layouter)@, 0);
                let b = FiboChip::input_cell(self.config, old(layouter)@, 1);
                &&& cells.0@ == a
                &&& cells.1@ == b
                &&& cells.2@ == FiboChip::sum_cell(self.config, old(layouter)@, a.value, b.value)
            },
    {
        layouter.enter_region("first row")?;
        layouter.enable_selector(self.config.selector, 0)?;
        let a_cell = ACell(
            layouter.assign_advice_from_instance(
                self.config.instance,
                0,
                self.config.advice[0],
                0,
            )?,
        );
        let b_cell = ACell(
            layouter.assign_advice_from_instance(
                self.config.instance,
                1,
                self.config.advice[1],
                0,
            )?,
        );
        let c_cell = ACell(
            layouter.assign_advice(
                self.config.advice[2],
                0,
                a_cell.0.value.add(&b_cell.0.value),
            )?,
        );
        layouter.exit_region()?;
        Ok((a_cell, b_cell, c_cell))
    }

    /// Assigns a row below the last one from two cells of the row before,
    /// and returns the cell that holds their sum.
    pub fn assign_row(&self, layouter: &mut Layouter, prev_b: &ACell, prev_c: &ACell) -> (r:
        Result<ACell, Error>)
        requires
            old(layouter).wf(),
        ensures
            final(layouter).wf(),
            agrees(
                FiboChip::next_row(self.config, old(layouter)@, prev_b@, prev_c@),
                r,
                final(layouter)@,
            ),
            r matches Ok(c_cell) ==> c_cell@ == FiboChip::sum_cell(
                self.config,
                old(layouter)@,
                prev_b@.value,
                prev_c@.value,
            ),
    {
        layouter.enter_region("next row")?;
        layouter.enable_selector(self.config.selector, 0)?;
        layouter.copy_advice(&prev_b.0, self.config.advice[0], 0)?;
        layouter.copy_advice(&prev_c.0, self.config.advice[1], 0)?;
        let c_val = prev_b.0.value.add(&prev_c.0.value);
        let c_cell = ACell(layouter.assign_advice(self.config.advice[2], 0, c_val)?);
        layouter.exit_region()?;
        Ok(c_cell)
    }

    /// Binds a cell to the public input at `row`: the public input reaches
    /// the cell, so that the addition gate on its row is held against it.
    pub fn expose_public(&self, layouter: &mut Layouter, cell: &ACell, row: usize) -> (r: Result<
        (),
        Error,
    >)
        requires
            old(layouter).wf(),
        ensures
            final(layouter).wf(),
            agrees(
                old(layouter)@.try_constrain(cell.0.cell, self.config.instance, row as nat),
                r,
                final(layouter)@,
            ),
            r is Err ==> final(layouter)@ == old(layouter)@,
    {
        layouter.constrain_instance(cell.0.cell, self.config.instance, row)
    }
}

/// The circuit that computes the tenth term of the sequence that starts
/// with the first two public inputs, and binds its cell to the third.
#[derive(Clone, Copy, Debug, Default)]
pub struct MyCircuit;

impl MyCircuit {
    /// The description with the circuit's three advice columns and its
    /// instance column.
    pub open spec fn with_columns(cs: ConstraintSystemView) -> ConstraintSystemView {
        ConstraintSystemView {
            advice: cs.advice.push(false).push(false).push(false),
            instance: cs.instance.push(false),
            ..cs
        }
    }

    /// The circuit's instance column in a description.
    pub open spec fn instance_column(cs: ConstraintSystemView) -> Column {
        Column { kind: Any::Instance, index: cs.instance.len() as usize }
    }

    /// The circuit's `i`-th advice column in a description.
    pub open spec fn advice_column(cs: ConstraintSystemView, i: int) -> Column {
        Column { kind: Any::Advice, index: (cs.advice.len() + i) as usize }
    }
}

impl Circuit for MyCircuit {
    type Config = FiboConfig;

    open spec fn configured(cs: ConstraintSystemView) -> ConstraintSystemView {
        FiboChip::configured(
            MyCircuit::with_columns(cs),
            [
                MyCircuit::advice_column(cs, 0),
                MyCircuit::advice_column(cs, 1),
                MyCircuit::advice_column(cs, 2),
            ],
            MyCircuit::instance_column(cs),
        )
    }

    open spec fn describes(cs: ConstraintSystemView, config: FiboConfig) -> bool {
        config == FiboChip::config_of(
            MyCircuit::with_columns(cs),
            [
                MyCircuit::advice_column(cs, 0),
                MyCircuit::advice_column(cs, 1),
                MyCircuit::advice_column(cs, 2),
            ],
            MyCircuit::instance_column(cs),
        )
    }

    open spec fn synthesized(&self, config: FiboConfig, s: Session) -> Outcome {
        let a = FiboChip::input_cell(config, s, 0);
        let b = FiboChip::input_cell(config, s, 1);
        let c = FiboChip::sum_cell(config, s, a.value, b.value);
        let first = FiboChip::first_row(config, s);
        let rows = and_then(first, |t: Session| FiboChip::next_rows(config, t, b, c, 7));
        and_then(
            rows,
            |u: Session|
                u.try_constrain(
                    FiboChip::last_cell(config, first.session, b, c, 7).cell,
                    config.instance,
                    2,
                ),
        )
    }

    open spec fn lacks_witnesses(&self) -> bool {
        true
    }

    fn without_witnesses(&self) -> (r: MyCircuit) {
        MyCircuit
    }

    fn configure(meta: &mut ConstraintSystem) -> (config: FiboConfig) {
        let col_a = meta.advice_column();
        let col_b = meta.advice_column();
        let col_c = meta.advice_column();
        let instance = meta.instance_column();
        assert(meta@ =~= MyCircuit::with_columns(old(meta)@));
        FiboChip::configure(meta, [col_a, col_b, col_c], instance)
    }

    fn synthesize(&self, config: FiboConfig, layouter: &mut Layouter) -> (r: Result<(), Error>) {
        let chip = FiboChip::construct(config);
        let (_, first_b, first_c) = chip.assign_first_row(layouter)?;
        let mut prev_b = first_b;
        let mut prev_c = first_c;
        let ghost start = layouter@;
        let mut i: usize = 3;
        while i < 10
            invariant
                3 <= i <= 10,
                layouter.wf(),
                chip.config == config,
                FiboChip::first_row(config, old(layouter)@) == Outcome::ok(start),
                first_b@ == FiboChip::input_cell(config, old(layouter)@, 1),
                first_c@ == FiboChip::sum_cell(
                    config,
                    old(layouter)@,
                    FiboChip::input_cell(config, old(layouter)@, 0).value,
                    first_b@.value,
                ),
                FiboChip::next_rows(config, start, first_b@, first_c@, 7) == FiboChip::next_rows(
                    config,
                    layouter@,
                    prev_b@,
                    prev_c@,
                    (10 - i) as nat,
                ),
                FiboChip::last_cell(config, start, first_b@, first_c@, 7) == FiboChip::last_cell(
                    config,
                    layouter@,
                    prev_b@,
                    prev_c@,
                    (10 - i) as nat,
                ),
            decreases 10 - i,
        {
            let c_cell = chip.assign_row(layouter, &prev_b, &prev_c)?;
            prev_b = prev_c;
            prev_c = c_cell;
            i = i + 1;
        }
        chip.expose_public(layouter, &prev_c, 2)
    }
}

/// The circuit's `i`-th advice column.
pub open spec fn advice(i: int) -> Column {
    Column { kind: Any::Advice, index: i as usize }
}

/// The circuit's instance column.
pub open spec fn instance() -> Column {
    Column { kind: Any::Instance, index: 0 }
}

/// What holds of the circuit's session once `m` rows are assigned from the
/// public inputs `a`, `b` and `out`: every row is a region of its own, the
/// three advice cells of row `r` hold the terms `r`, `r + 1` and `r + 2` of
/// the sequence, the selector is enabled on these rows, and every copy
/// constraint holds and leaves the third cell of the last row alone.
pub open spec fn assigned_rows(s: Session, k: u32, a: nat, b: nat, out: nat, m: nat) -> bool {
    let start = Session::initial(
        MyCircuit::configured(ConstraintSystemView::empty()),
        k,
        seq![seq![a, b, out]],
        false,
    );
    &&& s.cs == start.cs
    &&& s.rows == start.rows
    &&& s.usable_rows == start.usable_rows
    &&& s.dry_run == start.dry_run
    &&& s.instance == start.instance
    &&& s.tables == start.tables
    &&& s.bound_rows == seq![2nat]
    &&& !s.open
    &&& s.regions.len() == m
    &&& m > 0
    &&& forall|i: int|
        0 <= i < m ==> (#[trigger] s.regions[i]).start == i && s.regions[i].rows == 1
            && s.regions[i].name == (if i == 0 {
            "first row"@
        } else {
            "next row"@
        })
    &&& m <= s.usable_rows < 0x1_0000_0000
    &&& s.cells == Map::new(
        |key: (Column, int)| key.0.kind == Any::Advice && key.0.index < 3 && 0 <= key.1 < m,
        |key: (Column, int)| Some(fib(a, b, (key.1 + key.0.index) as nat)),
    )
    &&& s.selectors == Set::new(|key: (int, int)| key.0 == 0 && 0 <= key.1 < m)
    &&& forall|i: int|
        0 <= i < s.copies.len() ==> #[trigger] s.copy_holds(s.copies[i].0, s.copies[i].1) && (
        s.copies[i].0.column == advice(2) ==> s.copies[i].0.row + 1 < m) && s.copies[i].1.column
            != advice(2)
}

/// One more row: where `m` rows are assigned and another fits, `assign_row`
/// succeeds on two cells that hold the terms `m` and `m + 1`, and leaves
/// `m + 1` rows assigned.
pub proof fn lemma_next_row(
    config: FiboConfig,
    s: Session,
    k: u32,
    a: nat,
    b: nat,
    out: nat,
    m: nat,
    prev_b: AssignedCellView,
    prev_c: AssignedCellView,
)
    requires
        MyCircuit::describes(ConstraintSystemView::empty(), config),
        assigned_rows(s, k, a, b, out, m),
        m < s.usable_rows,
        prev_b.cell.column.kind == Any::Advice,
        prev_c.cell.column.kind == Any::Advice,
        prev_b.value == Some(fib(a, b, m)),
        prev_c.value == Some(fib(a, b, m + 1)),
        s.known_at(prev_b.cell) == prev_b.value,
        s.known_at(prev_c.cell) == prev_c.value,
    ensures
        ({
            let row = FiboChip::next_row(config, s, prev_b, prev_c);
            &&& row.error is None
            &&& assigned_rows(row.session, k, a, b, out, m + 1)
            &&& row.session.copies.len() == s.copies.len() + 2
            &&& row.session.known_at(prev_c.cell) == prev_c.value
            &&& row.session.known_at(
                FiboChip::sum_cell(config, s, prev_b.value, prev_c.value).cell,
            ) == Some(fib(a, b, m + 2))
        }),
        FiboChip::sum_cell(config, s, prev_b.value, prev_c.value) == (AssignedCellView {
            cell: Cell { column: advice(2), row: m as usize },
            value: Some(fib(a, b, m + 2)),
        }),
{
    let s1 = s.entered("next row"@);
    let s2 = s1.enabled(config.selector, 0);
    let s3 = s2.copied(prev_b, config.advice[0], 0);
    let s4 = s3.copied(prev_c, config.advice[1], 0);
    let s5 = s4.assigned(config.advice[2], 0, add_values(prev_b.value, prev_c.value));
    let t = s5.exited();
    assert(s.next_row() == m) by {
        assert(s.regions.last() == s.regions[m - 1]);
    }
    assert(s.cells.contains_key((prev_b.cell.column, prev_b.cell.row as int)));
    assert(s.cells.contains_key((prev_c.cell.column, prev_c.cell.row as int)));
    assert(FiboChip::next_row(config, s, prev_b, prev_c) == Outcome::ok(t));
    assert(t.cells =~= Map::new(
        |key: (Column, int)| key.0.kind == Any::Advice && key.0.index < 3 && 0 <= key.1 < m + 1,
        |key: (Column, int)| Some(fib(a, b, (key.1 + key.0.index) as nat)),
    ));
    assert(t.selectors =~= Set::new(|key: (int, int)| key.0 == 0 && 0 <= key.1 < m + 1));
    assert(t.copies =~= s.copies.push(
        (prev_b.cell, Cell { column: advice(0), row: m as usize }),
    ).push((prev_c.cell, Cell { column: advice(1), row: m as usize })));
    assert(t.regions =~= s.regions.push(RegionView { name: "next row"@, start: m, rows: 1 }));
    assert forall|i: int| 0 <= i < t.copies.len() implies #[trigger] t.copy_holds(
        t.copies[i].0,
        t.copies[i].1,
    ) && (t.copies[i].0.column == advice(2) ==> t.copies[i].0.row + 1 < m + 1)
        && t.copies[i].1.column != advice(2) by {
        if i < s.copies.len() {
            assert(s.copy_holds(s.copies[i].0, s.copies[i].1));
        }
    }
    assert forall|i: int| 0 <= i < m + 1 implies (#[trigger] t.regions[i]).start == i
        && t.regions[i].rows == 1 && t.regions[i].name == (if i == 0 {
        "first row"@
    } else {
        "next row"@
    }) by {
        if i < m {
            assert(t.regions[i] == s.regions[i]);
        }
    }
}

/// Row after row: where `m` rows are assigned and `n` more fit, `n` calls
/// of `assign_row` succeed and leave `m + n` rows assigned, and the last of
/// them returns the third cell of the last row, which holds the term
/// `m + n + 1`.
pub proof fn lemma_next_rows(
    config: FiboConfig,
    s: Session,
    k: u32,
    a: nat,
    b: nat,
    out: nat,
    m: nat,
    prev_b: AssignedCellView,
    prev_c: AssignedCellView,
    n: nat,
)
    requires
        MyCircuit::describes(ConstraintSystemView::empty(), config),
        assigned_rows(s, k, a, b, out, m),
        m + n <= s.usable_rows,
        prev_b.cell.column.kind == Any::Advice,
        prev_c.cell.column.kind == Any::Advice,
        prev_b.value == Some(fib(a, b, m)),
        prev_c.value == Some(fib(a, b, m + 1)),
        s.known_at(prev_b.cell) == prev_b.value,
        s.known_at(prev_c.cell) == prev_c.value,
    ensures
        ({
            let rows = FiboChip::next_rows(config, s, prev_b, prev_c, n);
            &&& rows.error is None
            &&& assigned_rows(rows.session, k, a, b, out, m + n)
            &&& rows.session.copies.len() == s.copies.len() + 2 * n
            &&& rows.session.known_at(FiboChip::last_cell(config, s, prev_b, prev_c, n).cell)
                == Some(fib(a, b, m + n + 1))
        }),
        n > 0 ==> FiboChip::last_cell(config, s, prev_b, prev_c, n).cell == (Cell {
            column: advice(2),
            row: (m + n - 1) as usize,
        }),
    decreases n,
{
    if n > 0 {
        lemma_next_row(config, s, k, a, b, out, m, prev_b, prev_c);
        let t = FiboChip::next_row(config, s, prev_b, prev_c).session;
        let sum = FiboChip::sum_cell(config, s, prev_b.value, prev_c.value);
        lemma_next_rows(config, t, k, a, b, out, m + 1, prev_c, sum, (n - 1) as nat);
    }
}

/// The first row: run on sixteen rows or more with three public inputs,
/// `assign_first_row` succeeds and leaves one row assigned.
pub proof fn lemma_first_row(config: FiboConfig, k: u32, a: nat, b: nat, out: nat)
    requires
        MyCircuit::describes(ConstraintSystemView::empty(), config),
        4 <= k < 32,
    ensures
        ({
            let start = Session::initial(
                MyCircuit::configured(ConstraintSystemView::empty()),
                k,
                seq![seq![a, b, out]],
                false,
            );
            let first = FiboChip::first_row(config, start);
            let first_b = FiboChip::input_cell(config, start, 1);
            let first_c = FiboChip::sum_cell(
                config,
                start,
                FiboChip::input_cell(config, start, 0).value,
                first_b.value,
            );
            &&& Session::initial_error(start.cs, k, seq![seq![a, b, out]]) is None
            &&& first.error is None
            &&& assigned_rows(first.session, k, a, b, out, 1)
            &&& first.session.copies.len() == 2
            &&& first.session.known_at(first_b.cell) == first_b.value
            &&& first.session.known_at(first_c.cell) == first_c.value
            &&& first_b == (AssignedCellView {
                cell: Cell { column: advice(1), row: 0 },
                value: Some(fib(a, b, 1)),
            })
            &&& first_c == (AssignedCellView {
                cell: Cell { column: advice(2), row: 0 },
                value: Some(fib(a, b, 2)),
            })
        }),
{
    let cs = MyCircuit::configured(ConstraintSystemView::empty());
    let public = seq![seq![a, b, out]];
    vstd::arithmetic::power2::lemma2_to64();
    if k > 4 {
        vstd::arithmetic::power2::lemma_pow2_strictly_increases(4, k as nat);
    }
    vstd::arithmetic::power2::lemma_pow2_strictly_increases(k as nat, 32);
    let usable = vstd::arithmetic::power2::pow2(k as nat) - 6;
    assert(cs.rotations_within(usable)) by {
        reveal_with_fuel(Expr::rotations_within, 6);
        assert(add_gate(config).constraints[0].poly.rotations_within(usable));
    }
    assert(cs.selectors_apart()) by {
        reveal_with_fuel(Expr::selectors_apart, 6);
        reveal_with_fuel(Expr::mentions_selector, 6);
        assert(add_gate(config).constraints[0].poly.selectors_apart());
    }
    let start = Session::initial(cs, k, public, false);
    let s1 = start.entered("first row"@);
    let s2 = s1.enabled(config.selector, 0);
    let s3 = s2.assigned_from_instance(config.instance, 0, config.advice[0], 0);
    let s4 = s3.assigned_from_instance(config.instance, 1, config.advice[1], 0);
    let s5 = s4.assigned(config.advice[2], 0, Some(crate::field::add_mod(a, b)));
    let first = s5.exited();
    assert(s4.instance[config.instance.index as int] == seq![a, b, out]);
    assert(FiboChip::first_row(config, start) == Outcome::ok(first));
    assert(fib(a, b, 0) == a);
    assert(fib(a, b, 1) == b);
    assert(fib(a, b, 2) == crate::field::add_mod(a, b));
    assert(first.cells =~= Map::new(
        |key: (Column, int)| key.0.kind == Any::Advice && key.0.index < 3 && 0 <= key.1 < 1,
        |key: (Column, int)| Some(fib(a, b, (key.1 + key.0.index) as nat)),
    ));
    assert(first.selectors =~= Set::new(|key: (int, int)| key.0 == 0 && 0 <= key.1 < 1));
    assert(first.bound_rows =~= seq![2nat]);
    assert(first.copies =~= seq![
        (Cell { column: instance(), row: 0 }, Cell { column: advice(0), row: 0 }),
        (Cell { column: instance(), row: 1 }, Cell { column: advice(1), row: 0 }),
    ]);
    assert(first.regions =~= seq![RegionView { name: "first row"@, start: 0, rows: 1 }]);
    assert(first.copy_holds(first.copies[0].0, first.copies[0].1));
    assert(first.copy_holds(first.copies[1].0, first.copies[1].1));
}

/// Run on sixteen rows or more with three public inputs, the circuit
/// assigns eight rows and binds the third cell of the last, which holds the
/// tenth term, to the third input. The result is the session of the eight
/// rows before that binding.
pub proof fn lemma_runs(
    circuit: MyCircuit,
    config: FiboConfig,
    k: u32,
    a: nat,
    b: nat,
    out: nat,
) -> (rows: Session)
    requires
        MyCircuit::describes(ConstraintSystemView::empty(), config),
        4 <= k < 32,
    ensures
        assigned_rows(rows, k, a, b, out, 8),
        rows.copies.len() == 16,
        MockProver::ran(&circuit, config, k, seq![seq![a, b, out]], false) == Ok::<Session, Error>(
            rows.constrained(Cell { column: advice(2), row: 7 }, instance(), 2),
        ),
{
    lemma_first_row(config, k, a, b, out);
    vstd::arithmetic::power2::lemma2_to64();
    if k > 4 {
        vstd::arithmetic::power2::lemma_pow2_strictly_increases(4, k as nat);
    }
    let start = Session::initial(
        MyCircuit::configured(ConstraintSystemView::empty()),
        k,
        seq![seq![a, b, out]],
        false,
    );
    let first = FiboChip::first_row(config, start).session;
    let first_a = FiboChip::input_cell(config, start, 0);
    let first_b = FiboChip::input_cell(config, start, 1);
    let first_c = FiboChip::sum_cell(config, start, first_a.value, first_b.value);
    lemma_next_rows(config, first, k, a, b, out, 1, first_b, first_c, 7);
    let rows = FiboChip::next_rows(config, first, first_b, first_c, 7).session;
    assert(rows.constrain_error(Cell { column: advice(2), row: 7 }, instance(), 2) is None);
    rows
}

/// The circuit accepts exactly where the third public input is the tenth
/// term of the sequence that starts with the first two. Any other third
/// input fails in one place and in one way: on the last row the constraint
/// of the addition gate is not satisfied, since the sum of the eighth and
/// ninth terms is not the input that reached the row's third cell. Every
/// other row is satisfied, and so are the copy constraints.
#[verifier::rlimit(60)]
pub proof fn lemma_accepts_the_tenth_term(
    circuit: MyCircuit,
    config: FiboConfig,
    k: u32,
    a: nat,
    b: nat,
    out: nat,
)
    requires
        MyCircuit::describes(ConstraintSystemView::empty(), config),
        4 <= k < 32,
        a < modulus(),
        b < modulus(),
        out < modulus(),
    ensures
        MockProver::ran(&circuit, config, k, seq![seq![a, b, out]], false) matches Ok(s) && (
        s.failures().len() == 0 <==> out == fib(a, b, 9)) && (out != fib(a, b, 9) ==> s.failures()
            == seq![
            FailureView::ConstraintNotSatisfied {
                gate: NamedView { index: 0, name: "add"@ },
                constraint: NamedView { index: 0, name: ""@ },
                location: LocationView::InRegion {
                    region: NamedView { index: 7, name: "next row"@ },
                    offset: 0,
                },
                cell_values: seq![
                    (advice(0), 0int, fib(a, b, 7)),
                    (advice(1), 0int, fib(a, b, 8)),
                    (advice(2), 0int, out),
                ],
            },
        ]),
{
    let rows = lemma_runs(circuit, config, k, a, b, out);
    let last = Cell { column: advice(2), row: 7 };
    let s = rows.constrained(last, instance(), 2);

    // The gates.
    let sum = Expr::sum(Expr::Query(advice(0), 0), Expr::Query(advice(1), 0));
    let poly = Expr::difference(sum, Expr::Query(advice(2), 0));
    let gated = Expr::product(Expr::Selector(config.selector), poly);
    let third = |row: int|
        if row == 7 {
            out
        } else {
            fib(a, b, (row + 2) as nat)
        };
    assert(s.all_known());
    assert forall|row: int| 0 <= row < 8 implies #[trigger] s.eval(gated, row) == Some(
        crate::field::sub_mod(fib(a, b, (row + 2) as nat), third(row)),
    ) by {
        s.lemma_difference(sum, Expr::Query(advice(2), 0), row);
        let next = fib(a, b, (row + 2) as nat);
        assert(next == crate::field::add_mod(fib(a, b, row as nat), fib(a, b, (row + 1) as nat)));
        assert(s.eval(Expr::Query(advice(0), 0), row) == Some(fib(a, b, row as nat)));
        assert(s.eval(Expr::Query(advice(1), 0), row) == Some(fib(a, b, (row + 1) as nat)));
        assert(s.eval(sum, row) == Some(next));
        assert(s.eval(Expr::Query(advice(2), 0), row) == Some(third(row)));
        crate::field::lemma_results_bounded(next, third(row));
        s.lemma_switched(config.selector, poly, row);
        vstd::arithmetic::div_mod::lemma_small_mod(
            crate::field::sub_mod(next, third(row)),
            modulus(),
        );
    }
    crate::field::lemma_results_bounded(fib(a, b, 7), fib(a, b, 8));
    assert(fib(a, b, 9) == crate::field::add_mod(fib(a, b, 7), fib(a, b, 8)));
    crate::field::lemma_sub_zero(fib(a, b, 9), out);
    assert forall|row: int, g: int, c: int|
        0 <= row < s.usable_rows && row != 7 && 0 <= g < s.cs.gates.len() && 0 <= c
            < s.cs.gates[g].constraints.len() implies (#[trigger] s.constraint_failure(
        g,
        c,
        row,
    )) is None by {
        if row < 8 {
            assert(s.eval(gated, row) == Some(
                crate::field::sub_mod(fib(a, b, (row + 2) as nat), third(row)),
            ));
            crate::field::lemma_results_bounded(
                fib(a, b, row as nat),
                fib(a, b, (row + 1) as nat),
            );
            crate::field::lemma_sub_zero(
                fib(a, b, (row + 2) as nat),
                fib(a, b, (row + 2) as nat),
            );
        } else {
            s.lemma_eval_known(poly, row);
            s.lemma_switched(config.selector, poly, row);
        }
    }
    assert(s.eval(gated, 7) == Some(crate::field::sub_mod(fib(a, b, 9), out)));
    s.lemma_gates_failures(7);
    assert(s.gates_failures(7) =~= Seq::empty());
    s.lemma_gates_failures_skip(8, s.usable_rows as int);
    assert(s.gate_failures(0, 7, 1) =~= s.gate_failures(0, 7, 0) + crate::checker::maybe(
        s.constraint_failure(0, 0, 7),
    ));
    assert(s.row_failures(7, 1) =~= s.row_failures(7, 0) + s.gate_failures(0, 7, 1));
    assert(s.gates_failures(8) =~= s.gates_failures(7) + s.row_failures(7, 1));
    assert(s.lookups_failures(0) =~= Seq::empty());
    assert(s.bound_rows =~= seq![3nat]);
    assert(s.configuration_error() is None);

    // The copy constraints: those of the rows leave the last cell alone, and
    // the public input has reached it.
    assert forall|i: int| 0 <= i < 17 implies (#[trigger] s.copy_failure(i)) is None by {
        if i < 16 {
            assert(rows.copy_holds(rows.copies[i].0, rows.copies[i].1));
            assert(rows.copies[i].0 != last);
            assert(rows.copies[i].1 != last);
            assert(s.known_at(rows.copies[i].0) == rows.known_at(rows.copies[i].0));
            assert(s.known_at(rows.copies[i].1) == rows.known_at(rows.copies[i].1));
        }
    }
    s.lemma_copies_failures(17);
    assert(s.copies_failures(17) =~= Seq::empty());

    if out == fib(a, b, 9) {
        assert(s.constraint_failure(0, 0, 7) is None);
        assert(s.failures() =~= Seq::empty());
    } else {
        s.lemma_find_region_of_single_rows(7, 0);
        assert(s.cell_values(gated, 7) =~= seq![
            (advice(0), 0int, fib(a, b, 7)),
            (advice(1), 0int, fib(a, b, 8)),
            (advice(2), 0int, out),
        ]) by {
            reveal_with_fuel(Expr::queried_onto, 6);
            let none = Seq::<(Column, int)>::empty();
            let one = none.push((advice(0), 0int));
            let two = one.push((advice(1), 0int));
            assert(!none.contains((advice(0), 0int)));
            assert(!one.contains((advice(1), 0int))) by {
                assert forall|i: int| 0 <= i < one.len() implies one[i] != (advice(1), 0int) by {}
            }
            assert(!two.contains((advice(2), 0int))) by {
                assert forall|i: int| 0 <= i < two.len() implies two[i] != (advice(2), 0int) by {}
            }
            assert(gated.queried() =~= seq![
                (advice(0), 0int),
                (advice(1), 0int),
                (advice(2), 0int),
            ]);
        }
        assert(s.failures() =~= seq![s.constraint_failure(0, 0, 7).unwrap()]);
    }
}

} // verus!
