//! Circuits that check that a value lies in a range: by a polynomial that
//! vanishes on the range, by a lookup in a table of the range, and by both.

use crate::constraint_system::gated;
use crate::constraint_system::ConstraintView;
use crate::constraint_system::GateView;
use crate::expression::Column;
use crate::expression::Expr;
use crate::expression::Expression;
use crate::expression::Selector;
use crate::expression::TableColumn;
use crate::session::fixed_of;
use crate::field::modulus;
use crate::field::Fp;
use crate::session::Session;
use crate::session::TableColumnView;
use vstd::prelude::*;

pub mod decompose_range_check;
pub mod example1b;
pub mod example2;
pub mod example3;

verus! {

/// The polynomial `v * (1 - v) * (2 - v) * ... * (range - 1 - v)`, which is
/// zero where `v` is one of `0, ..., range - 1`.
pub open spec fn range_check_poly(value: Expr, range: nat) -> Expr
    decreases range,
{
    if range <= 1 {
        value
    } else {
        Expr::product(
            range_check_poly(value, (range - 1) as nat),
            Expr::difference(Expr::Constant((range - 1) as nat), value),
        )
    }
}

/// The range-check gate: the selector times the polynomial that is zero on
/// `0, ..., range - 1`, in the advice column on the row itself.
pub open spec fn range_check_gate(
    q_range_check: Selector,
    advice_column: Column,
    range: nat,
) -> GateView {
    GateView {
        name: "range check"@,
        constraints: gated(
            Expr::Selector(q_range_check),
            seq![
                ConstraintView {
                    name: "range check"@,
                    poly: range_check_poly(Expr::Query(advice_column, 0), range),
                },
            ],
        ),
    }
}

/// Whether a table column is loaded with the values `0, ..., n - 1`, one on
/// each row of its table.
pub open spec fn holds_range(s: Session, column: TableColumn, n: nat) -> bool {
    let index = column.index as int;
    &&& s.tables.contains_key(index)
    &&& s.cs.table_rows(index) is Some
    &&& s.cs.table_rows(index).unwrap() == n
    &&& s.tables[index] + n <= s.rows
    &&& forall|j: int|
        0 <= j < n ==> #[trigger] s.read(fixed_of(column), s.tables[index] + j) == Some(
            Some(j as nat),
        )
}

/// Once a table is loaded of which column `i` holds the values
/// `0, ..., n - 1`, that column holds the range.
pub proof fn lemma_range_loaded(
    s: Session,
    name: Seq<char>,
    table: Seq<TableColumnView>,
    i: int,
    n: nat,
)
    requires
        s.valid(),
        s.try_load(name, table).error is None,
        0 <= i < table.len(),
        table[i].values == Seq::new(n, |j: int| j as nat),
    ensures
        holds_range(s.loaded(name, table), table[i].column, n),
{
    let after = s.loaded(name, table);
    s.lemma_table_columns_error(table, i, table.len() as int);
    assert forall|j: int| 0 <= j < n implies #[trigger] after.read(
        fixed_of(table[i].column),
        after.tables[table[i].column.index as int] + j,
    ) == Some(Some(j as nat)) by {
        s.lemma_loaded(name, table, i, j);
    }
    s.lemma_loaded_marks(name, table, i);
}

/// A lookup of one input in a table of the values `0, ..., n - 1` holds on
/// a row exactly when the value of the input is below `n`.
pub proof fn lemma_range_lookup(s: Session, l: int, row: int, n: nat, x: nat)
    requires
        0 <= l < s.cs.lookups.len(),
        s.cs.lookups[l].inputs.len() == 1,
        holds_range(s, s.cs.lookups[l].inputs[0].table, n),
        s.eval(s.cs.lookups[l].inputs[0].input, row) == Some(x),
    ensures
        s.lookup_holds(l, row) <==> x < n,
        s.lookup_failure(l, row) is None <==> x < n,
{
    let column = s.cs.lookups[l].inputs[0].table;
    let start = s.tables[column.index as int];
    if x < n {
        let t = start as int + x as int;
        assert(s.read(fixed_of(column), start + (x as int)) == Some(Some(x)));
        assert(s.input_matches(l, 0, row, t));
        assert(s.table_row_matches(l, row, t));
    }
    if s.lookup_holds(l, row) {
        let t = choose|t: int| 0 <= t < s.rows && #[trigger] s.table_row_matches(l, row, t);
        assert(s.input_matches(l, 0, row, t));
        assert(s.read(fixed_of(column), start + (t - start)) == Some(Some((t - start) as nat)));
    }
    assert(s.inputs_known(l, row));
}

/// The number of binary digits of `n`; zero has none.
pub open spec fn bit_length(n: nat) -> nat
    decreases n,
{
    if n == 0 {
        0
    } else {
        1 + bit_length(n / 2)
    }
}

/// The bit-length tag of a value: the number of its binary digits, and one
/// for zero, which counts as a value of one digit.
pub open spec fn tag(value: nat) -> nat {
    if value == 0 {
        1
    } else {
        bit_length(value)
    }
}

/// A number between `2^k` and `2^(k + 1)` has `k + 1` binary digits.
pub proof fn lemma_bit_length(n: nat, k: nat)
    requires
        vstd::arithmetic::power2::pow2(k) <= n < vstd::arithmetic::power2::pow2(k + 1),
    ensures
        bit_length(n) == k + 1,
    decreases k,
{
    vstd::arithmetic::power2::lemma_pow2_unfold(k + 1);
    vstd::arithmetic::power2::lemma2_to64();
    if k == 0 {
        assert(n == 1);
        assert(bit_length(1) == 1 + bit_length(0));
    } else {
        vstd::arithmetic::power2::lemma_pow2_unfold(k);
        lemma_bit_length(n / 2, (k - 1) as nat);
    }
}

/// The number of binary digits of `n`.
pub fn count_bits(n: usize) -> (r: u64)
    ensures
        r == bit_length(n as nat),
        r <= n,
{
    let mut rest: usize = n;
    let mut count: u64 = 0;
    while rest > 0
        invariant
            count + bit_length(rest as nat) == bit_length(n as nat),
            count + rest <= n,
        decreases rest,
    {
        rest = rest / 2;
        count = count + 1;
    }
    count
}

/// The range-check polynomial of a cell on the row itself queries no other
/// row.
pub proof fn lemma_range_check_rotations(column: Column, range: nat, bound: int)
    requires
        bound > 0,
    ensures
        range_check_poly(Expr::Query(column, 0), range).rotations_within(bound),
    decreases range,
{
    reveal_with_fuel(Expr::rotations_within, 4);
    if range > 1 {
        lemma_range_check_rotations(column, (range - 1) as nat, bound);
    }
}

/// The range-check polynomial of a cell mentions no selector.
pub proof fn lemma_range_check_selectors(column: Column, range: nat, simple_only: bool)
    ensures
        !range_check_poly(Expr::Query(column, 0), range).mentions_selector(simple_only),
        range_check_poly(Expr::Query(column, 0), range).selectors_apart(),
    decreases range,
{
    reveal_with_fuel(Expr::mentions_selector, 4);
    reveal_with_fuel(Expr::selectors_apart, 4);
    if range > 1 {
        lemma_range_check_selectors(column, (range - 1) as nat, simple_only);
        lemma_range_check_selectors(column, (range - 1) as nat, !simple_only);
    }
}

/// The range-check polynomial of a cell queries that cell and no other.
pub proof fn lemma_range_check_queries(column: Column, range: nat)
    ensures
        range_check_poly(Expr::Query(column, 0), range).queried() == seq![(column, 0int)],
        range_check_poly(Expr::Query(column, 0), range).queried_onto(seq![(column, 0int)])
            == seq![(column, 0int)],
    decreases range,
{
    reveal_with_fuel(Expr::queried_onto, 4);
    let cell = seq![(column, 0int)];
    assert(cell[0] == (column, 0int));
    assert(cell.contains((column, 0int)));
    assert(Seq::<(Column, int)>::empty().push((column, 0int)) =~= cell);
    if range > 1 {
        lemma_range_check_queries(column, (range - 1) as nat);
    }
}

/// The product `v * (1 - v) * (2 - v) * ... * (range - 1 - v)` over the
/// integers.
pub open spec fn range_product(v: int, range: nat) -> int
    decreases range,
{
    if range <= 1 {
        v
    } else {
        range_product(v, (range - 1) as nat) * ((range - 1) - v)
    }
}

/// The value of the range-check polynomial on a cell that holds `v` is the
/// product over the integers, taken modulo the field's order.
pub proof fn lemma_range_check_value(s: Session, column: Column, row: int, range: nat, v: nat)
    requires
        s.value_at(column, row) == Some(v),
        v < modulus(),
    ensures
        s.eval(range_check_poly(Expr::Query(column, 0), range), row) == Some(
            (range_product(v as int, range) % (modulus() as int)) as nat,
        ),
    decreases range,
{
    let p = modulus() as int;
    if range <= 1 {
        vstd::arithmetic::div_mod::lemma_small_mod(v, modulus());
    } else {
        let shorter = (range - 1) as nat;
        lemma_range_check_value(s, column, row, shorter, v);
        s.lemma_difference(Expr::Constant(shorter), Expr::Query(column, 0), row);
        assert(s.eval(Expr::Constant(shorter), row) == Some(shorter));
        assert(s.eval(Expr::Query(column, 0), row) == Some(v));
        let before = range_product(v as int, shorter);
        vstd::arithmetic::div_mod::lemma_mul_mod_noop_general(before, shorter - v, p);
        vstd::arithmetic::div_mod::lemma_mod_bound(before, p);
        vstd::arithmetic::div_mod::lemma_mod_bound(shorter - v, p);
    }
}

/// The product is zero where `v` is one of `0, ..., range - 1`.
pub proof fn lemma_range_product_zero(v: nat, range: nat)
    requires
        v < range,
    ensures
        range_product(v as int, range) == 0,
    decreases range,
{
    if range > 1 {
        let before = range_product(v as int, (range - 1) as nat);
        if v < range - 1 {
            lemma_range_product_zero(v, (range - 1) as nat);
            assert(0 * ((range - 1) - v) == 0);
        } else {
            assert(before * 0 == 0) by (nonlinear_arith);
        }
    }
}

/// The range-check polynomial is zero on a cell that holds a value below
/// the range.
pub proof fn lemma_range_check_accepts(s: Session, column: Column, row: int, range: nat, v: nat)
    requires
        s.value_at(column, row) == Some(v),
        v < range,
        v < modulus(),
    ensures
        s.eval(range_check_poly(Expr::Query(column, 0), range), row) == Some(0nat),
{
    lemma_range_check_value(s, column, row, range, v);
    lemma_range_product_zero(v, range);
}

/// The product for eight over the range of eight is the factorial of eight,
/// negated.
proof fn lemma_range_product_at_eight()
    ensures
        range_product(8, 8) == -40320,
{
    assert(range_product(8, 1) == 8);
    assert(range_product(8, 2) == range_product(8, 1) * (1 - 8));
    assert(range_product(8, 2) == -56);
    assert(range_product(8, 3) == range_product(8, 2) * (2 - 8));
    assert(range_product(8, 3) == 336);
    assert(range_product(8, 4) == range_product(8, 3) * (3 - 8));
    assert(range_product(8, 4) == -1680);
    assert(range_product(8, 5) == range_product(8, 4) * (4 - 8));
    assert(range_product(8, 5) == 6720);
    assert(range_product(8, 6) == range_product(8, 5) * (5 - 8));
    assert(range_product(8, 6) == -20160);
    assert(range_product(8, 7) == range_product(8, 6) * (6 - 8));
    assert(range_product(8, 7) == 40320);
    assert(range_product(8, 8) == range_product(8, 7) * (7 - 8));
    assert(range_product(8, 8) == -40320);
}

/// For the range of eight, the range-check polynomial is zero on the values
/// below eight, and it is not zero on eight.
pub proof fn lemma_range_check_of_eight(s: Session, column: Column, row: int, v: nat)
    requires
        s.value_at(column, row) == Some(v),
        v <= 8,
    ensures
        s.eval(range_check_poly(Expr::Query(column, 0), 8), row) == Some(0nat) <==> v < 8,
{
    lemma_range_check_value(s, column, row, 8, v);
    if v < 8 {
        lemma_range_product_zero(v, 8);
    } else {
        lemma_range_product_at_eight();
    }
}

/// The polynomial in `value` that is zero on `0, ..., range - 1`.
pub fn range_check(range: usize, value: &Expression) -> (r: Expression)
    ensures
        r@ == range_check_poly(value@, range as nat),
{
    let mut expr = value.duplicate();
    let mut i: usize = 1;
    while i < range
        invariant
            1 <= i,
            i <= range || i == 1,
            expr@ == range_check_poly(value@, i as nat),
        decreases range - i,
    {
        expr = expr.times(Expression::Constant(Fp::from_u64(i as u64)).minus(value.duplicate()));
        i = i + 1;
    }
    expr
}

} // verus!
