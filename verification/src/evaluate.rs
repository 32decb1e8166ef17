//! The value of an expression on a row of the witness.

use crate::expression::Column;
use crate::expression::Expr;
use crate::expression::Expression;
use crate::expression::Selector;
use crate::field::modulus;
use crate::field::Fp;
use crate::layouter::Layouter;
use crate::session::Session;
use crate::value::add_values;
use crate::value::mul_values;
use crate::value::neg_value;
use crate::value::Value;
use vstd::prelude::*;

verus! {

impl Session {
    /// The value of a selector on a row: one where it is enabled, zero
    /// elsewhere.
    pub open spec fn selector_value(self, index: int, row: int) -> nat {
        if self.selectors.contains((index, row)) {
            1
        } else {
            0
        }
    }

    /// The value of an expression on a row. A query reads the cell at the
    /// row plus the rotation. The result is known exactly when every value
    /// that goes into it is.
    pub open spec fn eval(self, e: Expr, row: int) -> Option<nat>
        decreases e,
    {
        match e {
            Expr::Constant(c) => Some(c),
            Expr::Query(column, rotation) => self.value_at(column, row + rotation),
            Expr::Selector(selector) => Some(self.selector_value(selector.index as int, row)),
            Expr::Negate(a) => neg_value(self.eval(*a, row)),
            Expr::Sum(a, b) => add_values(self.eval(*a, row), self.eval(*b, row)),
            Expr::Product(a, b) => mul_values(self.eval(*a, row), self.eval(*b, row)),
            Expr::Scaled(c, a) => mul_values(Some(c), self.eval(*a, row)),
        }
    }
}

impl Session {
    /// Whether every cell that was written holds a known value.
    pub open spec fn all_known(self) -> bool {
        forall|key: (Column, int)|
            self.cells.contains_key(key) ==> (#[trigger] self.cells[key]) is Some
    }

    /// Where every written cell holds a known value, every expression has a
    /// known value on every row.
    pub proof fn lemma_eval_known(self, e: Expr, row: int)
        requires
            self.all_known(),
        ensures
            self.eval(e, row) is Some,
        decreases e,
    {
        match e {
            Expr::Constant(_) => {},
            Expr::Query(column, rotation) => {
                if self.cells.contains_key((column, row + rotation)) {
                    assert(self.cells[(column, row + rotation)] is Some);
                }
            },
            Expr::Selector(_) => {},
            Expr::Negate(a) => {
                self.lemma_eval_known(*a, row);
            },
            Expr::Sum(a, b) => {
                self.lemma_eval_known(*a, row);
                self.lemma_eval_known(*b, row);
            },
            Expr::Product(a, b) => {
                self.lemma_eval_known(*a, row);
                self.lemma_eval_known(*b, row);
            },
            Expr::Scaled(_, a) => {
                self.lemma_eval_known(*a, row);
            },
        }
    }

    /// An expression that is multiplied by a selector is zero on the rows
    /// on which the selector is off, and has its own value, taken modulo the
    /// field's order, on those on which it is on.
    pub proof fn lemma_switched(self, selector: Selector, poly: Expr, row: int)
        requires
            self.eval(poly, row) is Some,
        ensures
            self.eval(Expr::product(Expr::Selector(selector), poly), row) == Some(
                if self.selectors.contains((selector.index as int, row)) {
                    self.eval(poly, row).unwrap() % modulus()
                } else {
                    0
                },
            ),
    {
        reveal_with_fuel(Session::eval, 2);
        let value = self.eval(poly, row).unwrap();
        crate::field::lemma_mul_zero(value);
        assert(1 * value == value) by (nonlinear_arith);
    }

    /// A product is zero where one factor is zero and the other is known.
    pub proof fn lemma_product_zero(self, a: Expr, b: Expr, row: int)
        requires
            self.eval(a, row) is Some,
            self.eval(b, row) is Some,
            self.eval(a, row) == Some(0nat) || self.eval(b, row) == Some(0nat),
        ensures
            self.eval(Expr::product(a, b), row) == Some(0nat),
    {
        crate::field::lemma_mul_zero(self.eval(a, row).unwrap());
        crate::field::lemma_mul_zero(self.eval(b, row).unwrap());
    }

    /// The value of a difference is the difference of the values.
    pub proof fn lemma_difference(self, a: Expr, b: Expr, row: int)
        ensures
            self.eval(Expr::difference(a, b), row) == crate::value::sub_values(
                self.eval(a, row),
                self.eval(b, row),
            ),
    {
        reveal_with_fuel(Session::eval, 2);
        if self.eval(a, row) is Some && self.eval(b, row) is Some {
            crate::field::lemma_add_neg(self.eval(a, row).unwrap(), self.eval(b, row).unwrap());
        }
    }
}

impl Layouter {
    /// The value of an expression on a row.
    pub fn evaluate(&self, e: &Expression, row: usize) -> (r: Value)
        requires
            self.wf(),
        ensures
            r@ == self@.eval(e@, row as int),
        decreases e,
    {
        match e {
            Expression::Constant(c) => Value::Known(*c),
            Expression::Query(column, rotation) => {
                let at: i128 = row as i128 + rotation.0 as i128;
                self.value_at(*column, at)
            },
            Expression::Selector(selector) => {
                if self.selector_enabled(*selector, row) {
                    Value::Known(Fp::one())
                } else {
                    Value::Known(Fp::zero())
                }
            },
            Expression::Negate(a) => self.evaluate(a, row).neg(),
            Expression::Sum(a, b) => {
                let x = self.evaluate(a, row);
                let y = self.evaluate(b, row);
                x.add(&y)
            },
            Expression::Product(a, b) => {
                let x = self.evaluate(a, row);
                let y = self.evaluate(b, row);
                x.mul(&y)
            },
            Expression::Scaled(c, a) => {
                let y = self.evaluate(a, row);
                Value::Known(*c).mul(&y)
            },
        }
    }
}

} // verus!
