//! A range check by a polynomial: one advice cell, and a gate that vanishes
//! where the cell holds one of `0, ..., RANGE - 1`.

use crate::constraint_system::constraints_view;
use crate::constraint_system::Constraint;
use crate::constraint_system::ConstraintSystem;
use crate::constraint_system::ConstraintSystemView;
use crate::constraint_system::ConstraintView;
use crate::constraint_system::Constraints;
use crate::expression::Any;
use crate::expression::Column;
use crate::expression::Expr;
use crate::expression::Rotation;
use crate::expression::Selector;
use crate::layouter::Layouter;
use crate::failure::FailureView;
use crate::failure::LocationView;
use crate::failure::NamedView;
use crate::prover::Circuit;
use crate::prover::MockProver;
use crate::range_check::range_check;
use crate::range_check::range_check_gate;
use crate::range_check::range_check_poly;
use crate::session::and_then;
use crate::session::Error;
use crate::session::Outcome;
use crate::session::Session;
use crate::value::Value;
use vstd::prelude::*;

verus! {

/// The column and the selector of the circuit.
#[derive(Clone, Copy, Debug)]
pub struct MyConfig<const RANGE: usize> {
    pub advice_column: Column,
    pub q_range_check: Selector,
}

/// The circuit that checks that one value lies below `RANGE`.
#[derive(Clone, Copy, Debug)]
pub struct MyCircuit<const RANGE: usize> {
    pub assigned_value: Value,
}

impl<const RANGE: usize> MyCircuit<RANGE> {
    /// The configuration that `configure` returns.
    pub open spec fn config_of(cs: ConstraintSystemView) -> MyConfig<RANGE> {
        MyConfig {
            advice_column: Column { kind: Any::Advice, index: cs.advice.len() as usize },
            q_range_check: Selector { index: cs.selectors.len() as usize, simple: true },
        }
    }
}

impl<const RANGE: usize> Circuit for MyCircuit<RANGE> {
    type Config = MyConfig<RANGE>;

    open spec fn configured(cs: ConstraintSystemView) -> ConstraintSystemView {
        let config = MyCircuit::<RANGE>::config_of(cs);
        ConstraintSystemView {
            advice: cs.advice.push(false),
            selectors: cs.selectors.push(true),
            gates: cs.gates.push(
                range_check_gate(config.q_range_check, config.advice_column, RANGE as nat),
            ),
            ..cs
        }
    }

    open spec fn describes(cs: ConstraintSystemView, config: MyConfig<RANGE>) -> bool {
        config == MyCircuit::<RANGE>::config_of(cs)
    }

    open spec fn synthesized(&self, config: MyConfig<RANGE>, s: Session) -> Outcome {
        let r = s.try_enter("Assign value"@);
        let r = and_then(r, |t: Session| t.try_enable(config.q_range_check, 0));
        let r = and_then(
            r,
            |t: Session| t.try_assign(config.advice_column, 0, self.assigned_value@),
        );
        and_then(r, |t: Session| t.try_exit())
    }

    open spec fn lacks_witnesses(&self) -> bool {
        self.assigned_value == Value::Unknown
    }

    fn without_witnesses(&self) -> (r: MyCircuit<RANGE>) {
        MyCircuit { assigned_value: Value::Unknown }
    }

    fn configure(cs: &mut ConstraintSystem) -> (config: MyConfig<RANGE>) {
        let advice_column = cs.advice_column();
        let q_range_check = cs.selector();

        let q = cs.query_selector(q_range_check);
        let value = cs.query_advice(advice_column, Rotation::cur());
        let rc_polynomial = range_check(RANGE, &value);
        let mut constraints: Vec<Constraint> = Vec::new();
        constraints.push(Constraint::new("range check", rc_polynomial));
        assert(constraints_view(constraints@) =~= seq![
            ConstraintView {
                name: "range check"@,
                poly: range_check_poly(Expr::Query(advice_column, 0), RANGE as nat),
            },
        ]);
        let constraints = Constraints::with_selector(&q, &constraints);
        cs.create_gate("range check", constraints);
        assert(cs@ =~= Self::configured(old(cs)@));

        MyConfig { q_range_check, advice_column }
    }

    fn synthesize(&self, config: MyConfig<RANGE>, layouter: &mut Layouter) -> (r: Result<
        (),
        Error,
    >) {
        layouter.enter_region("Assign value")?;
        layouter.enable_selector(config.q_range_check, 0)?;
        layouter.assign_advice(config.advice_column, 0, self.assigned_value)?;
        layouter.exit_region()?;
        Ok(())
    }
}

/// The session that the circuit leaves: one region of one row, on which the
/// selector is enabled and the advice cell holds the value.
pub open spec fn assigned_session<const RANGE: usize>(k: u32, value: Option<nat>) -> Session {
    let start = Session::initial(
        MyCircuit::<RANGE>::configured(ConstraintSystemView::empty()),
        k,
        Seq::empty(),
        false,
    );
    Session {
        cells: start.cells.insert((Column { kind: Any::Advice, index: 0 }, 0), value),
        selectors: start.selectors.insert((0, 0)),
        regions: seq![crate::session::RegionView { name: "Assign value"@, start: 0, rows: 1 }],
        ..start
    }
}

/// Run on eight rows or more, the circuit leaves the session with its one
/// region.
pub proof fn lemma_runs<const RANGE: usize>(
    circuit: MyCircuit<RANGE>,
    config: MyConfig<RANGE>,
    k: u32,
)
    requires
        MyCircuit::<RANGE>::describes(ConstraintSystemView::empty(), config),
        3 <= k < 32,
    ensures
        MockProver::ran(&circuit, config, k, Seq::empty(), false) == Ok::<Session, Error>(
            assigned_session::<RANGE>(k, circuit.assigned_value@),
        ),
{
    let cs = MyCircuit::<RANGE>::configured(ConstraintSystemView::empty());
    vstd::arithmetic::power2::lemma2_to64();
    if k > 3 {
        vstd::arithmetic::power2::lemma_pow2_strictly_increases(3, k as nat);
    }
    let usable = vstd::arithmetic::power2::pow2(k as nat) - 6;
    assert(cs.rotations_within(usable)) by {
        reveal_with_fuel(Expr::rotations_within, 2);
        crate::range_check::lemma_range_check_rotations(config.advice_column, RANGE as nat, usable);
    }
    assert(cs.selectors_apart()) by {
        reveal_with_fuel(Expr::selectors_apart, 2);
        reveal_with_fuel(Expr::mentions_selector, 2);
        crate::range_check::lemma_range_check_selectors(config.advice_column, RANGE as nat, true);
        crate::range_check::lemma_range_check_selectors(config.advice_column, RANGE as nat, false);
    }
    let start = Session::initial(cs, k, Seq::empty(), false);
    let entered = start.entered("Assign value"@);
    let enabled = entered.enabled(config.q_range_check, 0);
    let assigned = enabled.assigned(config.advice_column, 0, circuit.assigned_value@);
    assert(assigned.exited() =~= assigned_session::<RANGE>(k, circuit.assigned_value@));
}

/// The circuit accepts every value below the range.
pub proof fn lemma_accepts_below_range<const RANGE: usize>(
    circuit: MyCircuit<RANGE>,
    config: MyConfig<RANGE>,
    k: u32,
    v: nat,
)
    requires
        MyCircuit::<RANGE>::describes(ConstraintSystemView::empty(), config),
        3 <= k < 32,
        circuit.assigned_value@ == Some(v),
        v < RANGE,
        v < crate::field::modulus(),
    ensures
        MockProver::ran(&circuit, config, k, Seq::empty(), false) matches Ok(s)
            && s.failures().len() == 0,
{
    lemma_runs(circuit, config, k);
    let s = assigned_session::<RANGE>(k, Some(v));
    let column = Column { kind: Any::Advice, index: 0 };
    let poly = range_check_poly(Expr::Query(column, 0), RANGE as nat);
    s.lemma_accepts_iff_satisfied();
    assert(s.satisfied()) by {
        assert forall|row: int, g: int, c: int|
            0 <= row < s.usable_rows && 0 <= g < s.cs.gates.len() && 0 <= c
                < s.cs.gates[g].constraints.len() implies (#[trigger] s.constraint_failure(
            g,
            c,
            row,
        )) is None by {
            let value = if row == 0 {
                v
            } else {
                0
            };
            assert(s.value_at(column, row) == Some(value));
            crate::range_check::lemma_range_check_accepts(s, column, row, RANGE as nat, value);
            s.lemma_switched(config.q_range_check, poly, row);
        }
    }
}

/// For the range of eight, the circuit rejects the value eight with one
/// failure: the range-check constraint is not satisfied on the row of the
/// value.
pub proof fn lemma_rejects_eight(circuit: MyCircuit<8>, config: MyConfig<8>, k: u32)
    requires
        MyCircuit::<8>::describes(ConstraintSystemView::empty(), config),
        3 <= k < 32,
        circuit.assigned_value@ == Some(8nat),
    ensures
        MockProver::ran(&circuit, config, k, Seq::empty(), false) matches Ok(s) && s.failures()
            == seq![
            FailureView::ConstraintNotSatisfied {
                gate: NamedView { index: 0, name: "range check"@ },
                constraint: NamedView { index: 0, name: "range check"@ },
                location: LocationView::InRegion {
                    region: NamedView { index: 0, name: "Assign value"@ },
                    offset: 0,
                },
                cell_values: seq![(Column { kind: Any::Advice, index: 0 }, 0int, 8nat)],
            },
        ],
{
    lemma_runs(circuit, config, k);
    vstd::arithmetic::power2::lemma2_to64();
    if k > 3 {
        vstd::arithmetic::power2::lemma_pow2_strictly_increases(3, k as nat);
    }
    let s = assigned_session::<8>(k, Some(8nat));
    let column = Column { kind: Any::Advice, index: 0 };
    let poly = range_check_poly(Expr::Query(column, 0), 8);
    let gated = Expr::product(Expr::Selector(config.q_range_check), poly);
    assert forall|row: int, g: int, c: int|
        1 <= row < s.usable_rows && 0 <= g < s.cs.gates.len() && 0 <= c
            < s.cs.gates[g].constraints.len() implies (#[trigger] s.constraint_failure(
        g,
        c,
        row,
    )) is None by {
        assert(s.value_at(column, row) == Some(0nat));
        crate::range_check::lemma_range_check_accepts(s, column, row, 8, 0);
        s.lemma_switched(config.q_range_check, poly, row);
    }
    s.lemma_gates_failures_skip(1, s.usable_rows as int);
    assert(s.value_at(column, 0) == Some(8nat));
    crate::range_check::lemma_range_check_of_eight(s, column, 0, 8);
    crate::range_check::lemma_range_check_value(s, column, 0, 8, 8);
    s.lemma_switched(config.q_range_check, poly, 0);
    vstd::arithmetic::div_mod::lemma_mod_twice(
        crate::range_check::range_product(8, 8),
        crate::field::modulus() as int,
    );
    assert(s.eval(gated, 0) == s.eval(poly, 0));
    assert(s.find_region(0, 0) == Some(0int));
    assert(s.cell_values(gated, 0) =~= seq![(column, 0int, 8nat)]) by {
        reveal_with_fuel(Expr::queried_onto, 2);
        crate::range_check::lemma_range_check_queries(column, 8);
        assert(Seq::<(Column, int)>::empty().push((column, 0int)) =~= seq![(column, 0int)]);
    }
    assert(s.gate_failures(0, 0, 1) =~= s.gate_failures(0, 0, 0) + crate::checker::maybe(
        s.constraint_failure(0, 0, 0),
    ));
    assert(s.row_failures(0, 1) =~= s.row_failures(0, 0) + s.gate_failures(0, 0, 1));
    assert(s.gates_failures(1) =~= s.gates_failures(0) + s.row_failures(0, 1));
    assert(s.lookups_failures(0) =~= Seq::empty());
    assert(s.copies_failures(0) =~= Seq::empty());
    assert(s.failures() =~= seq![s.constraint_failure(0, 0, 0).unwrap()]);
}

} // verus!
