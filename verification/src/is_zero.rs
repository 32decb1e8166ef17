//! A gadget that tells whether a value is zero.
//!
//! Beside the value stands a witness `value_inv`: the inverse of the value,
//! or zero where the value is zero. The expression `1 - value * value_inv`
//! is then one where the value is zero and zero elsewhere. Two constraints
//! hold of such a witness and of no other: `value * (1 - value * value_inv)`
//! and `value_inv * (1 - value * value_inv)`.

use crate::constraint_system::Constraint;
use crate::constraint_system::ConstraintSystem;
use crate::constraint_system::ConstraintSystemView;
use crate::constraint_system::ConstraintView;
use crate::constraint_system::GateView;
use crate::expression::Column;
use crate::expression::Expr;
use crate::expression::Expression;
use crate::expression::Rotation;
use crate::failure::FailureView;
use crate::failure::NamedView;
use crate::field::inv_mod;
use crate::field::modulus;
use crate::field::mul_mod;
use crate::field::sub_mod;
use crate::field::Fp;
use crate::layouter::Layouter;
use crate::session::agrees;
use crate::session::Error;
use crate::session::Session;
use crate::value::Value;
use vstd::prelude::*;

verus! {

/// The gadget's witness column and the expression that is one where the
/// value is zero.
#[derive(Debug)]
pub struct IsZeroConfig {
    pub value_inv: Column,
    pub is_zero_expr: Expression,
}

/// The chip that assigns the gadget's witness.
#[derive(Debug)]
pub struct IsZeroChip {
    pub config: IsZeroConfig,
}

/// The expression `1 - value * value_inv`.
pub open spec fn is_zero_expr(value: Expr, value_inv: Column) -> Expr {
    Expr::difference(Expr::Constant(1), Expr::product(value, Expr::Query(value_inv, 0)))
}

/// The gadget's gate, with its two constraints:
/// `q_enable * value * (1 - value * value_inv)`, which admits no witness but
/// the inverse where the value is not zero, and
/// `q_enable * value_inv * (1 - value * value_inv)`, which admits no witness
/// but zero where the value is zero.
pub open spec fn is_zero_gate(q_enable: Expr, value: Expr, value_inv: Column) -> GateView {
    GateView {
        name: "is_zero"@,
        constraints: seq![
            ConstraintView {
                name: ""@,
                poly: Expr::product(Expr::product(q_enable, value), is_zero_expr(value, value_inv)),
            },
            ConstraintView {
                name: ""@,
                poly: Expr::product(
                    Expr::product(q_enable, Expr::Query(value_inv, 0)),
                    is_zero_expr(value, value_inv),
                ),
            },
        ],
    }
}

/// The inverse of a value, or zero where the value is zero.
pub open spec fn inverse_or_zero(value: Option<nat>) -> Option<nat> {
    match value {
        Some(x) => Some(
            if x == 0 {
                0
            } else {
                inv_mod(x)
            },
        ),
        None => None,
    }
}

/// The value of the expression `1 - value * value_inv` on a row on which the
/// value is `v` and the witness is `w`.
pub proof fn lemma_is_zero_expr(
    s: Session,
    value: Expr,
    value_inv: Column,
    row: int,
    v: nat,
    w: nat,
)
    requires
        s.eval(value, row) == Some(v),
        s.value_at(value_inv, row) == Some(w),
    ensures
        s.eval(is_zero_expr(value, value_inv), row) == Some(sub_mod(1, mul_mod(v, w))),
{
    reveal_with_fuel(Session::eval, 2);
    s.lemma_difference(Expr::Constant(1), Expr::product(value, Expr::Query(value_inv, 0)), row);
}

/// The gadget's two constraints on a row on which it is switched on, the
/// value is `v` and the witness is `w`. Where `v` is zero, they hold exactly
/// when the witness is zero. Where `v` is not zero and `inverse` is its
/// inverse, they hold exactly when the witness is that inverse. With the
/// witness that they admit, the gadget's expression is one where `v` is zero
/// and zero elsewhere.
pub proof fn lemma_is_zero_constraint(
    s: Session,
    q_enable: Expr,
    value: Expr,
    value_inv: Column,
    row: int,
    v: nat,
    inverse: nat,
    w: nat,
)
    requires
        s.eval(q_enable, row) == Some(1nat),
        s.eval(value, row) == Some(v),
        s.value_at(value_inv, row) == Some(w),
        v < modulus(),
        w < modulus(),
        v != 0 ==> inverse < modulus() && mul_mod(v, inverse) == 1,
    ensures
        ({
            let gate = is_zero_gate(q_enable, value, value_inv);
            let first = s.eval(gate.constraints[0].poly, row) == Some(0nat);
            let second = s.eval(gate.constraints[1].poly, row) == Some(0nat);
            &&& s.eval(gate.constraints[0].poly, row) is Some
            &&& s.eval(gate.constraints[1].poly, row) is Some
            &&& first <==> (v == 0 || w == inverse)
            &&& v == 0 ==> (second <==> w == 0)
            &&& v != 0 && w == inverse ==> second
            &&& first && second <==> w == (if v == 0 {
                0
            } else {
                inverse
            })
        }),
        v == 0 ==> s.eval(is_zero_expr(value, value_inv), row) == Some(1nat),
        v != 0 && w == inverse ==> s.eval(is_zero_expr(value, value_inv), row) == Some(0nat),
{
    reveal_with_fuel(Session::eval, 2);
    lemma_is_zero_expr(s, value, value_inv, row, v, w);
    let product = mul_mod(v, w);
    let rest = sub_mod(1, product);
    crate::field::lemma_mul_one(v);
    crate::field::lemma_mul_one(w);
    crate::field::lemma_results_bounded(1, product);
    crate::field::lemma_results_bounded(v, w);
    let gate = is_zero_gate(q_enable, value, value_inv);
    assert(s.eval(Expr::Query(value_inv, 0), row) == Some(w));
    assert(s.eval(gate.constraints[0].poly, row) == Some(mul_mod(v, rest)));
    assert(s.eval(gate.constraints[1].poly, row) == Some(mul_mod(w, rest)));
    crate::field::lemma_sub_zero(1, product);
    crate::field::lemma_mul_zero(w);
    crate::field::lemma_mul_zero(v);
    crate::field::lemma_mul_zero(rest);
    if v == 0 {
        crate::field::lemma_sub_zero(1, 0);
        vstd::arithmetic::div_mod::lemma_small_mod(1, modulus());
        assert(rest == 1);
    } else {
        if product == 1 {
            crate::field::lemma_inverse_unique(v, w, inverse);
        }
        if mul_mod(v, rest) == 0 {
            // Multiplied by the inverse, the constraint gives the rest alone.
            crate::field::lemma_mul_associates(inverse, v, rest);
            crate::field::lemma_mul_commutes(inverse, v);
            crate::field::lemma_mul_one(rest);
            crate::field::lemma_mul_zero(inverse);
        }
    }
}

/// What the check reports of the gadget's gate on a row on which it is
/// switched on: nothing where the witness is the one that the gadget asks
/// for; that the first constraint is not satisfied where the value is not
/// zero and the witness is not its inverse; and that the second constraint
/// is not satisfied where the value is zero and the witness is not.
pub proof fn lemma_is_zero_failure(
    s: Session,
    g: int,
    q_enable: Expr,
    value: Expr,
    value_inv: Column,
    row: int,
    v: nat,
    inverse: nat,
    w: nat,
)
    requires
        0 <= g < s.cs.gates.len(),
        s.cs.gates[g] == is_zero_gate(q_enable, value, value_inv),
        s.eval(q_enable, row) == Some(1nat),
        s.eval(value, row) == Some(v),
        s.value_at(value_inv, row) == Some(w),
        v < modulus(),
        w < modulus(),
        v != 0 ==> inverse < modulus() && mul_mod(v, inverse) == 1,
    ensures
        w == (if v == 0 {
            0
        } else {
            inverse
        }) ==> s.constraint_failure(g, 0, row) is None && s.constraint_failure(g, 1, row) is None,
        v != 0 && w != inverse ==> (s.constraint_failure(g, 0, row) matches Some(
            FailureView::ConstraintNotSatisfied { gate, constraint, location, .. },
        ) && gate == (NamedView { index: g as nat, name: "is_zero"@ }) && constraint == (NamedView {
            index: 0,
            name: ""@,
        }) && location == s.location(row)),
        v == 0 && w != 0 ==> s.constraint_failure(g, 0, row) is None && (s.constraint_failure(
            g,
            1,
            row,
        ) matches Some(FailureView::ConstraintNotSatisfied { gate, constraint, location, .. })
            && gate == (NamedView { index: g as nat, name: "is_zero"@ }) && constraint
            == (NamedView { index: 1, name: ""@ }) && location == s.location(row)),
{
    lemma_is_zero_constraint(s, q_enable, value, value_inv, row, v, inverse, w);
}

impl IsZeroConfig {
    /// A copy of the configuration.
    pub fn duplicate(&self) -> (r: IsZeroConfig)
        ensures
            r.value_inv == self.value_inv,
            r.is_zero_expr@ == self.is_zero_expr@,
    {
        IsZeroConfig { value_inv: self.value_inv, is_zero_expr: self.is_zero_expr.duplicate() }
    }

    /// The expression that is one where the value is zero, and zero
    /// elsewhere.
    pub fn expr(&self) -> (r: Expression)
        ensures
            r@ == self.is_zero_expr@,
    {
        self.is_zero_expr.duplicate()
    }
}

impl IsZeroChip {
    /// The chip of a configuration.
    pub fn construct(config: IsZeroConfig) -> (r: IsZeroChip)
        ensures
            r.config == config,
    {
        IsZeroChip { config }
    }

    /// Describes the gadget for the value that the expression `value`
    /// gives, with its witness in the column `value_inv`, switched by the
    /// expression `q_enable`.
    pub fn configure(
        meta: &mut ConstraintSystem,
        q_enable: Expression,
        value: Expression,
        value_inv: Column,
    ) -> (r: IsZeroConfig)
        ensures
            r.value_inv == value_inv,
            r.is_zero_expr@ == is_zero_expr(value@, value_inv),
            final(meta)@ == (ConstraintSystemView {
                gates: old(meta)@.gates.push(is_zero_gate(q_enable@, value@, value_inv)),
                ..old(meta)@
            }),
    {
        let inverse = meta.query_advice(value_inv, Rotation::cur());
        let is_zero = Expression::Constant(Fp::one()).minus(
            value.duplicate().times(inverse.duplicate()),
        );
        let of_value = q_enable.duplicate().times(value).times(is_zero.duplicate());
        let of_witness = q_enable.times(inverse).times(is_zero.duplicate());
        let mut constraints: Vec<Constraint> = Vec::new();
        constraints.push(Constraint::new("", of_value));
        constraints.push(Constraint::new("", of_witness));
        assert(constraints@.map_values(|c: Constraint| c@) =~= is_zero_gate(
            q_enable@,
            value@,
            value_inv,
        ).constraints);
        meta.create_gate("is_zero", constraints);
        IsZeroConfig { value_inv, is_zero_expr: is_zero }
    }

    /// Writes the witness for `value` at `offset` of the open region: the
    /// inverse of the value, or zero where the value is zero.
    pub fn assign(&self, layouter: &mut Layouter, offset: usize, value: Value) -> (r: Result<
        (),
        Error,
    >)
        requires
            old(layouter).wf(),
        ensures
            final(layouter).wf(),
            agrees(
                old(layouter)@.try_assign(
                    self.config.value_inv,
                    offset as nat,
                    inverse_or_zero(value@),
                ),
                r,
                final(layouter)@,
            ),
            r is Err ==> final(layouter)@ == old(layouter)@,
    {
        let value_inv = match value {
            Value::Known(x) => match x.invert() {
                Some(inverse) => Value::Known(inverse),
                None => Value::Known(Fp::zero()),
            },
            Value::Unknown => Value::Unknown,
        };
        layouter.assign_advice(self.config.value_inv, offset, value_inv)?;
        Ok(())
    }
}

} // verus!
