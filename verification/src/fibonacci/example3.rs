//! A circuit for the function `f(a, b, c) = if a == b { c } else { a - b }`,
//! which decides between its two cases with the is-zero gadget on `a - b`.

use crate::constraint_system::Constraint;
use crate::constraint_system::ConstraintSystem;
use crate::constraint_system::ConstraintSystemView;
use crate::constraint_system::ConstraintView;
use crate::constraint_system::GateView;
use crate::expression::Any;
use crate::expression::Column;
use crate::expression::Expr;
use crate::expression::Expression;
use crate::expression::Rotation;
use crate::expression::Selector;
use crate::field::sub_mod;
use crate::field::Fp;
use crate::is_zero::inverse_or_zero;
use crate::is_zero::is_zero_expr;
use crate::is_zero::is_zero_gate;
use crate::is_zero::IsZeroChip;
use crate::is_zero::IsZeroConfig;
use crate::layouter::Layouter;
use crate::is_zero::lemma_is_zero_expr;
use crate::field::modulus;
use crate::field::mul_mod;
use crate::prover::Circuit;
use crate::prover::MockProver;
use crate::session::agrees;
use crate::session::and_then;
use crate::session::AssignedCell;
use crate::session::AssignedCellView;
use crate::session::Error;
use crate::session::Outcome;
use crate::session::Session;
use crate::value::Value;
use vstd::prelude::*;

verus! {

/// The columns, the selector and the gadget of the circuit.
#[derive(Debug)]
pub struct FunctionConfig {
    pub selector: Selector,
    pub a: Column,
    pub b: Column,
    pub c: Column,
    pub a_equals_b: IsZeroConfig,
    pub output: Column,
}

/// The chip that lays one application of the function out.
#[derive(Debug)]
pub struct FunctionChip {
    pub config: FunctionConfig,
}

/// The content of a [`FunctionConfig`].
pub struct FunctionColumns {
    pub selector: Selector,
    pub a: Column,
    pub b: Column,
    pub c: Column,
    pub value_inv: Column,
    /// The gadget's expression, which is one where `a == b` and zero
    /// elsewhere.
    pub is_zero_expr: Expr,
    pub output: Column,
}

impl View for FunctionConfig {
    type V = FunctionColumns;

    open spec fn view(&self) -> FunctionColumns {
        FunctionColumns {
            selector: self.selector,
            a: self.a,
            b: self.b,
            c: self.c,
            value_inv: self.a_equals_b.value_inv,
            is_zero_expr: self.a_equals_b.is_zero_expr@,
            output: self.output,
        }
    }
}

/// The name of the function's gate and of its region.
pub open spec fn function_name() -> Seq<char> {
    "f(a, b, c) = if a == b {c} else {a - b}"@
}

impl FunctionColumns {
    /// The columns and the selector that `configure` allocates.
    pub open spec fn allocated(cs: ConstraintSystemView) -> FunctionColumns {
        let first = cs.advice.len();
        let a = Column { kind: Any::Advice, index: first as usize };
        let b = Column { kind: Any::Advice, index: (first + 1) as usize };
        let value_inv = Column { kind: Any::Advice, index: (first + 4) as usize };
        FunctionColumns {
            selector: Selector { index: cs.selectors.len() as usize, simple: true },
            a,
            b,
            c: Column { kind: Any::Advice, index: (first + 2) as usize },
            output: Column { kind: Any::Advice, index: (first + 3) as usize },
            value_inv,
            is_zero_expr: is_zero_expr(
                Expr::difference(Expr::Query(a, 0), Expr::Query(b, 0)),
                value_inv,
            ),
        }
    }

    /// The expression `a - b` on one row.
    pub open spec fn difference(self) -> Expr {
        Expr::difference(Expr::Query(self.a, 0), Expr::Query(self.b, 0))
    }

    /// The expression that is one where `a == b` and zero elsewhere.
    pub open spec fn equal(self) -> Expr {
        self.is_zero_expr
    }

    /// The function's gate: where `a == b` the output is `c`, and elsewhere
    /// it is `a - b`.
    pub open spec fn function_gate(self) -> GateView {
        GateView {
            name: function_name(),
            constraints: seq![
                ConstraintView {
                    name: ""@,
                    poly: Expr::product(
                        Expr::Selector(self.selector),
                        Expr::product(
                            self.equal(),
                            Expr::difference(Expr::Query(self.output, 0), Expr::Query(self.c, 0)),
                        ),
                    ),
                },
                ConstraintView {
                    name: ""@,
                    poly: Expr::product(
                        Expr::product(
                            Expr::Selector(self.selector),
                            Expr::difference(Expr::Constant(1), self.equal()),
                        ),
                        Expr::difference(Expr::Query(self.output, 0), self.difference()),
                    ),
                },
            ],
        }
    }

    /// The value of the function.
    pub open spec fn value(a: nat, b: nat, c: nat) -> nat {
        if a == b {
            c
        } else {
            sub_mod(a, b)
        }
    }

    /// What `assign` makes of a session: a region of one row with the
    /// selector enabled, the three arguments, the gadget's witness for
    /// `a - b`, and the value of the function.
    pub open spec fn assigned(self, s: Session, a: nat, b: nat, c: nat) -> Outcome {
        let r = s.try_enter(function_name());
        let r = and_then(r, |t: Session| t.try_enable(self.selector, 0));
        let r = and_then(r, |t: Session| t.try_assign(self.a, 0, Some(a)));
        let r = and_then(r, |t: Session| t.try_assign(self.b, 0, Some(b)));
        let r = and_then(r, |t: Session| t.try_assign(self.c, 0, Some(c)));
        let r = and_then(
            r,
            |t: Session| t.try_assign(self.value_inv, 0, inverse_or_zero(Some(sub_mod(a, b)))),
        );
        let r = and_then(
            r,
            |t: Session| t.try_assign(self.output, 0, Some(FunctionColumns::value(a, b, c))),
        );
        and_then(r, |t: Session| t.try_exit())
    }
}

impl FunctionChip {
    /// The description once the chip is configured: one more selector, five
    /// more advice columns, the gadget's gate and the function's.
    pub open spec fn configured(cs: ConstraintSystemView) -> ConstraintSystemView {
        let columns = FunctionColumns::allocated(cs);
        ConstraintSystemView {
            selectors: cs.selectors.push(true),
            advice: cs.advice.push(false).push(false).push(false).push(false).push(false),
            gates: cs.gates.push(
                is_zero_gate(Expr::Selector(columns.selector), columns.difference(), columns.value_inv),
            ).push(columns.function_gate()),
            ..cs
        }
    }

    /// Whether a configuration is the one that `configure` returns.
    pub open spec fn describes(cs: ConstraintSystemView, config: FunctionConfig) -> bool {
        config@ == FunctionColumns::allocated(cs)
    }

    /// The chip of a configuration.
    pub fn construct(config: FunctionConfig) -> (r: FunctionChip)
        ensures
            r.config == config,
    {
        FunctionChip { config }
    }

    /// Describes the chip.
    pub fn configure(meta: &mut ConstraintSystem) -> (r: FunctionConfig)
        ensures
            FunctionChip::describes(old(meta)@, r),
            final(meta)@ == FunctionChip::configured(old(meta)@),
    {
        let selector = meta.selector();
        let a = meta.advice_column();
        let b = meta.advice_column();
        let c = meta.advice_column();
        let output = meta.advice_column();

        let is_zero_advice_column = meta.advice_column();
        let ghost columns = FunctionColumns::allocated(old(meta)@);

        let q_enable = meta.query_selector(selector);
        let difference = meta.query_advice(a, Rotation::cur()).minus(
            meta.query_advice(b, Rotation::cur()),
        );
        let a_equals_b: IsZeroConfig = IsZeroChip::configure(
            meta,
            q_enable,
            difference,
            is_zero_advice_column,
        );

        let sel = meta.query_selector(selector);
        let a_query = meta.query_advice(a, Rotation::cur());
        let b_query = meta.query_advice(b, Rotation::cur());
        let c_query = meta.query_advice(c, Rotation::cur());
        let output_query = meta.query_advice(output, Rotation::cur());

        let mut constraints: Vec<Constraint> = Vec::new();
        constraints.push(
            Constraint::new(
                "",
                sel.duplicate().times(
                    a_equals_b.expr().times(output_query.duplicate().minus(c_query)),
                ),
            ),
        );
        constraints.push(
            Constraint::new(
                "",
                sel.times(Expression::Constant(Fp::one()).minus(a_equals_b.expr())).times(
                    output_query.minus(a_query.minus(b_query)),
                ),
            ),
        );
        assert(constraints@.map_values(|c: Constraint| c@) =~= columns.function_gate().constraints);
        meta.create_gate("f(a, b, c) = if a == b {c} else {a - b}", constraints);
        assert(meta@ =~= FunctionChip::configured(old(meta)@));

        FunctionConfig { selector, a, b, c, a_equals_b, output }
    }

    /// Lays one application of the function out and returns the cell that
    /// holds its value.
    pub fn assign(&self, layouter: &mut Layouter, a: Fp, b: Fp, c: Fp) -> (r: Result<
        AssignedCell,
        Error,
    >)
        requires
            old(layouter).wf(),
        ensures
            final(layouter).wf(),
            agrees(self.config@.assigned(old(layouter)@, a@, b@, c@), r, final(layouter)@),
            r matches Ok(cell) ==> cell@ == (AssignedCellView {
                cell: old(layouter)@.cell_below(self.config.output),
                value: Some(FunctionColumns::value(a@, b@, c@)),
            }),
    {
        let is_zero_chip = IsZeroChip::construct(self.config.a_equals_b.duplicate());

        layouter.enter_region("f(a, b, c) = if a == b {c} else {a - b}")?;
        layouter.enable_selector(self.config.selector, 0)?;
        layouter.assign_advice(self.config.a, 0, Value::known(a))?;
        layouter.assign_advice(self.config.b, 0, Value::known(b))?;
        layouter.assign_advice(self.config.c, 0, Value::known(c))?;

        is_zero_chip.assign(layouter, 0, Value::known(a.sub(&b)))?;

        let output = if a.equals(&b) {
            c
        } else {
            a.sub(&b)
        };
        let cell = layouter.assign_advice(self.config.output, 0, Value::known(output))?;
        layouter.exit_region()?;
        Ok(cell)
    }
}

/// The circuit that applies the function to three values.
#[derive(Clone, Copy, Debug)]
pub struct FunctionCircuit {
    pub a: Fp,
    pub b: Fp,
    pub c: Fp,
}

impl Circuit for FunctionCircuit {
    type Config = FunctionConfig;

    open spec fn configured(cs: ConstraintSystemView) -> ConstraintSystemView {
        FunctionChip::configured(cs)
    }

    open spec fn describes(cs: ConstraintSystemView, config: FunctionConfig) -> bool {
        FunctionChip::describes(cs, config)
    }

    open spec fn synthesized(&self, config: FunctionConfig, s: Session) -> Outcome {
        config@.assigned(s, self.a@, self.b@, self.c@)
    }

    open spec fn lacks_witnesses(&self) -> bool {
        self.a@ == 0 && self.b@ == 0 && self.c@ == 0
    }

    fn without_witnesses(&self) -> (r: FunctionCircuit) {
        FunctionCircuit { a: Fp::zero(), b: Fp::zero(), c: Fp::zero() }
    }

    fn configure(meta: &mut ConstraintSystem) -> (config: FunctionConfig) {
        FunctionChip::configure(meta)
    }

    fn synthesize(&self, config: FunctionConfig, layouter: &mut Layouter) -> (r: Result<
        (),
        Error,
    >) {
        let chip = FunctionChip::construct(config);
        chip.assign(layouter, self.a, self.b, self.c)?;
        Ok(())
    }
}

/// The session that the circuit leaves on three arguments: one region of
/// one row, on which the selector is enabled and the five advice cells are
/// written.
pub open spec fn assigned_session(k: u32, a: nat, b: nat, c: nat) -> Session {
    let cs = FunctionChip::configured(ConstraintSystemView::empty());
    let columns = FunctionColumns::allocated(ConstraintSystemView::empty());
    let start = Session::initial(cs, k, Seq::empty(), false);
    Session {
        cells: start.cells.insert((columns.a, 0), Some(a)).insert((columns.b, 0), Some(b)).insert(
            (columns.c, 0),
            Some(c),
        ).insert((columns.value_inv, 0), inverse_or_zero(Some(sub_mod(a, b)))).insert(
            (columns.output, 0),
            Some(FunctionColumns::value(a, b, c)),
        ),
        selectors: start.selectors.insert((0, 0)),
        regions: seq![crate::session::RegionView { name: function_name(), start: 0, rows: 1 }],
        ..start
    }
}

/// Run on eight rows or more, the circuit leaves the session with its one
/// region.
pub proof fn lemma_runs(circuit: FunctionCircuit, config: FunctionConfig, k: u32)
    requires
        FunctionCircuit::describes(ConstraintSystemView::empty(), config),
        3 <= k < 32,
    ensures
        MockProver::ran(&circuit, config, k, Seq::empty(), false) == Ok::<Session, Error>(
            assigned_session(k, circuit.a@, circuit.b@, circuit.c@),
        ),
{
    let cs = FunctionChip::configured(ConstraintSystemView::empty());
    let columns = FunctionColumns::allocated(ConstraintSystemView::empty());
    vstd::arithmetic::power2::lemma2_to64();
    if k > 3 {
        vstd::arithmetic::power2::lemma_pow2_strictly_increases(3, k as nat);
    }
    let usable = vstd::arithmetic::power2::pow2(k as nat) - 6;
    assert(cs.rotations_within(usable)) by {
        reveal_with_fuel(Expr::rotations_within, 8);
        let gadget = is_zero_gate(
            Expr::Selector(columns.selector),
            columns.difference(),
            columns.value_inv,
        );
        assert(gadget.constraints[0].poly.rotations_within(usable));
        assert(gadget.constraints[1].poly.rotations_within(usable));
        assert(columns.function_gate().constraints[0].poly.rotations_within(usable));
        assert(columns.function_gate().constraints[1].poly.rotations_within(usable));
        assert forall|g: int, c: int|
            0 <= g < cs.gates.len() && 0 <= c < cs.gates[g].constraints.len() implies (
        #[trigger] cs.gates[g].constraints[c]).poly.rotations_within(usable) by {
            if g == 0 {
                assert(cs.gates[g] == gadget);
            } else {
                assert(cs.gates[g] == columns.function_gate());
            }
        }
    }
    assert(cs.selectors_apart()) by {
        reveal_with_fuel(Expr::selectors_apart, 8);
        reveal_with_fuel(Expr::mentions_selector, 8);
        let gadget = is_zero_gate(
            Expr::Selector(columns.selector),
            columns.difference(),
            columns.value_inv,
        );
        assert(gadget.constraints[0].poly.selectors_apart());
        assert(gadget.constraints[1].poly.selectors_apart());
        assert(columns.function_gate().constraints[0].poly.selectors_apart());
        assert(columns.function_gate().constraints[1].poly.selectors_apart());
        assert forall|g: int, c: int|
            0 <= g < cs.gates.len() && 0 <= c < cs.gates[g].constraints.len() implies (
        #[trigger] cs.gates[g].constraints[c]).poly.selectors_apart() by {
            if g == 0 {
                assert(cs.gates[g] == gadget);
            } else {
                assert(cs.gates[g] == columns.function_gate());
            }
        }
    }
    let (a, b, c) = (circuit.a@, circuit.b@, circuit.c@);
    let start = Session::initial(cs, k, Seq::empty(), false);
    let s1 = start.entered(function_name());
    let s2 = s1.enabled(columns.selector, 0);
    let s3 = s2.assigned(columns.a, 0, Some(a));
    let s4 = s3.assigned(columns.b, 0, Some(b));
    let s5 = s4.assigned(columns.c, 0, Some(c));
    let s6 = s5.assigned(columns.value_inv, 0, inverse_or_zero(Some(sub_mod(a, b))));
    let s7 = s6.assigned(columns.output, 0, Some(FunctionColumns::value(a, b, c)));
    assert(s7.exited() =~= assigned_session(k, a, b, c));
}

/// The circuit accepts every three arguments. What it takes for granted is
/// that the difference `a - b`, where it is not zero, has an inverse in the
/// field.
pub proof fn lemma_accepts(circuit: FunctionCircuit, config: FunctionConfig, k: u32, inverse: nat)
    requires
        FunctionCircuit::describes(ConstraintSystemView::empty(), config),
        3 <= k < 32,
        circuit.a@ < modulus(),
        circuit.b@ < modulus(),
        circuit.c@ < modulus(),
        circuit.a@ != circuit.b@ ==> inverse < modulus() && mul_mod(
            sub_mod(circuit.a@, circuit.b@),
            inverse,
        ) == 1,
    ensures
        MockProver::ran(&circuit, config, k, Seq::empty(), false) matches Ok(s)
            && s.failures().len() == 0,
{
    lemma_runs(circuit, config, k);
    let (a, b, c) = (circuit.a@, circuit.b@, circuit.c@);
    let s = assigned_session(k, a, b, c);
    let columns = FunctionColumns::allocated(ConstraintSystemView::empty());
    let d = sub_mod(a, b);
    let out = FunctionColumns::value(a, b, c);
    let w = inverse_or_zero(Some(d)).unwrap();
    crate::field::lemma_results_bounded(a, b);
    crate::field::lemma_sub_zero(a, b);
    if a != b {
        crate::field::lemma_inverse_unique(d, inverse, crate::field::inv_mod(d));
    }
    let sel = Expr::Selector(columns.selector);
    let difference = columns.difference();
    let equal = columns.equal();
    let not_equal = Expr::difference(Expr::Constant(1), equal);
    let out_less_c = Expr::difference(Expr::Query(columns.output, 0), Expr::Query(columns.c, 0));
    let out_less_d = Expr::difference(Expr::Query(columns.output, 0), difference);
    s.lemma_accepts_iff_satisfied();
    assert(s.all_known());
    assert(s.satisfied()) by {
        assert forall|row: int, g: int, i: int|
            0 <= row < s.usable_rows && 0 <= g < s.cs.gates.len() && 0 <= i
                < s.cs.gates[g].constraints.len() implies (#[trigger] s.constraint_failure(
            g,
            i,
            row,
        )) is None by {
            s.lemma_eval_known(difference, row);
            s.lemma_eval_known(equal, row);
            s.lemma_eval_known(not_equal, row);
            s.lemma_eval_known(out_less_c, row);
            s.lemma_eval_known(out_less_d, row);
            s.lemma_eval_known(Expr::product(equal, out_less_c), row);
            s.lemma_difference(Expr::Query(columns.a, 0), Expr::Query(columns.b, 0), row);
            s.lemma_difference(Expr::Query(columns.output, 0), Expr::Query(columns.c, 0), row);
            s.lemma_difference(Expr::Query(columns.output, 0), difference, row);
            s.lemma_difference(Expr::Constant(1), equal, row);
            if row == 0 {
                assert(s.eval(sel, row) == Some(1nat));
                assert(s.eval(difference, row) == Some(d));
                lemma_is_zero_expr(s, difference, columns.value_inv, row, d, w);
                crate::is_zero::lemma_is_zero_constraint(
                    s,
                    sel,
                    difference,
                    columns.value_inv,
                    row,
                    d,
                    inverse,
                    w,
                );
                crate::field::lemma_sub_zero(out, c);
                crate::field::lemma_sub_zero(out, d);
                crate::field::lemma_sub_zero(1, 1);
                crate::field::lemma_mul_zero(1);
                if a == b {
                    s.lemma_product_zero(equal, out_less_c, row);
                    s.lemma_product_zero(sel, not_equal, row);
                } else {
                    s.lemma_product_zero(equal, out_less_c, row);
                    s.lemma_eval_known(Expr::product(sel, not_equal), row);
                }
                s.lemma_product_zero(sel, Expr::product(equal, out_less_c), row);
                s.lemma_product_zero(Expr::product(sel, not_equal), out_less_d, row);
            } else {
                assert(s.eval(sel, row) == Some(0nat));
                s.lemma_product_zero(sel, difference, row);
                s.lemma_product_zero(Expr::product(sel, difference), equal, row);
                s.lemma_eval_known(Expr::Query(columns.value_inv, 0), row);
                s.lemma_product_zero(sel, Expr::Query(columns.value_inv, 0), row);
                s.lemma_product_zero(
                    Expr::product(sel, Expr::Query(columns.value_inv, 0)),
                    equal,
                    row,
                );
                s.lemma_product_zero(sel, Expr::product(equal, out_less_c), row);
                s.lemma_product_zero(sel, not_equal, row);
                s.lemma_product_zero(Expr::product(sel, not_equal), out_less_d, row);
            }
        }
    }
}

} // verus!
