//! A range check by decomposition: a value is split into windows of
//! `NUM_BITS` bits each, every window is looked up in a table of the values
//! of that many bits, and a gate holds the weighted sum of the windows
//! against the value.

use crate::constraint_system::constraints_view;
use crate::constraint_system::gated;
use crate::constraint_system::Constraint;
use crate::constraint_system::ConstraintSystem;
use crate::constraint_system::ConstraintSystemView;
use crate::constraint_system::ConstraintView;
use crate::constraint_system::Constraints;
use crate::constraint_system::GateView;
use crate::constraint_system::LookupInput;
use crate::constraint_system::LookupInputView;
use crate::constraint_system::LookupView;
use crate::expression::Any;
use crate::expression::Column;
use crate::expression::Expr;
use crate::expression::Expression;
use crate::expression::Rotation;
use crate::expression::Selector;
use crate::field::modulus;
use crate::field::Fp;
use crate::layouter::Layouter;
use crate::prover::Circuit;
use crate::prover::MockProver;
use crate::session::RegionView;
use crate::session::agrees;
use crate::session::and_then;
use crate::session::Error;
use crate::session::Outcome;
use crate::session::Session;
use crate::value::Value;
use vstd::arithmetic::power2::lemma2_to64;
use vstd::arithmetic::power2::pow2;
use vstd::prelude::*;

pub mod table;

use table::RangeTableConfig;

verus! {

/// The number of windows times the size of the lookup table.
pub const RANGE: usize = 64;

/// The number of bits of a window.
pub const NUM_BITS: usize = 3;

/// The number of values of a window, which is the size of the lookup table.
pub const LOOKUP_RANGE: usize = 8;

/// The number of windows, `RANGE / LOOKUP_RANGE`. With eight windows of
/// three bits the values that are accepted are those below `2^24`.
pub const DECOMPOSED_PARTS: usize = 8;

/// The columns, the selectors and the table of the check.
#[derive(Clone, Copy, Debug)]
pub struct DecomposeRangeCheckConfig {
    pub value: Column,
    pub value_decomposed: Column,
    pub q_decomposed: Selector,
    pub q_range_check: Selector,
    pub table: RangeTableConfig<LOOKUP_RANGE>,
}

/// The weight of window `i`: two to the power of `NUM_BITS * i`.
pub open spec fn weight(i: nat) -> nat {
    pow2(3 * i)
}

/// The sum of the first `n` windows, each with its weight: window `i` is
/// the column `i` rows below.
pub open spec fn weighted_sum(value_decomposed: Column, n: nat) -> Expr
    decreases n,
{
    if n == 0 {
        Expr::Constant(0)
    } else {
        Expr::sum(
            weighted_sum(value_decomposed, (n - 1) as nat),
            Expr::product(
                Expr::Query(value_decomposed, n - 1),
                Expr::Constant(weight((n - 1) as nat)),
            ),
        )
    }
}

/// The value of the window `i` rows below a row: what the cell there holds,
/// and zero where that is not known.
pub open spec fn window_at(s: Session, value_decomposed: Column, row: int, i: int) -> nat {
    s.reported_value(value_decomposed, row + i)
}

/// The sum over the integers of the first `n` windows below a row, each
/// with its weight.
pub open spec fn windows_value(s: Session, value_decomposed: Column, row: int, n: nat) -> int
    decreases n,
{
    if n == 0 {
        0
    } else {
        windows_value(s, value_decomposed, row, (n - 1) as nat) + window_at(
            s,
            value_decomposed,
            row,
            n - 1,
        ) * weight((n - 1) as nat)
    }
}

/// The weighted sum of windows that are known has the value of the sum
/// over the integers, taken modulo the field's order.
pub proof fn lemma_weighted_sum(s: Session, value_decomposed: Column, row: int, n: nat)
    requires
        forall|i: int| 0 <= i < n ==> (#[trigger] s.value_at(value_decomposed, row + i)) is Some,
    ensures
        s.eval(weighted_sum(value_decomposed, n), row) == Some(
            (windows_value(s, value_decomposed, row, n) % (modulus() as int)) as nat,
        ),
    decreases n,
{
    let p = modulus() as int;
    reveal_with_fuel(Session::eval, 3);
    if n > 0 {
        let shorter = (n - 1) as nat;
        lemma_weighted_sum(s, value_decomposed, row, shorter);
        let before = windows_value(s, value_decomposed, row, shorter);
        let window = window_at(s, value_decomposed, row, n - 1);
        assert(s.value_at(value_decomposed, row + (n - 1)) is Some);
        assert(s.eval(Expr::Query(value_decomposed, n - 1), row) == Some(window));
        let term = window * weight(shorter);
        assert(term >= 0) by (nonlinear_arith)
            requires
                term == window * weight(shorter),
        ;
        vstd::arithmetic::div_mod::lemma_add_mod_noop(before, term as int, p);
        vstd::arithmetic::div_mod::lemma_mod_twice(before, p);
        vstd::arithmetic::div_mod::lemma_mod_bound(before, p);
        vstd::arithmetic::div_mod::lemma_mod_bound(term as int, p);
    }
}

/// The decomposition constraint on a row on which its selector is enabled,
/// the value is `v` and the windows are known: it holds exactly when the
/// weighted sum of the windows and the value are the same in the field. So
/// windows whose weighted sum is the value are accepted; and where both the
/// sum and the value lie below the field's order, any other windows fail
/// the constraint.
pub proof fn lemma_decompose_constraint(
    s: Session,
    config: DecomposeRangeCheckConfig,
    row: int,
    v: nat,
)
    requires
        s.selectors.contains((config.q_decomposed.index as int, row)),
        s.value_at(config.value, row) == Some(v),
        forall|i: int|
            0 <= i < DECOMPOSED_PARTS ==> (#[trigger] s.value_at(config.value_decomposed, row + i))
                is Some,
    ensures
        ({
            let sum = windows_value(s, config.value_decomposed, row, DECOMPOSED_PARTS as nat);
            let holds = s.eval(config.decompose_gate().constraints[0].poly, row) == Some(0nat);
            &&& holds <==> (sum - v) % (modulus() as int) == 0
            &&& sum == v ==> holds
            &&& sum < modulus() && v < modulus() && sum != v ==> !holds
        }),
{
    let p = modulus() as int;
    let sum = windows_value(s, config.value_decomposed, row, DECOMPOSED_PARTS as nat);
    let check = Expr::difference(
        weighted_sum(config.value_decomposed, DECOMPOSED_PARTS as nat),
        Expr::Query(config.value, 0),
    );
    lemma_weighted_sum(s, config.value_decomposed, row, DECOMPOSED_PARTS as nat);
    s.lemma_difference(
        weighted_sum(config.value_decomposed, DECOMPOSED_PARTS as nat),
        Expr::Query(config.value, 0),
        row,
    );
    assert(s.eval(Expr::Query(config.value, 0), row) == Some(v));
    vstd::arithmetic::div_mod::lemma_mod_bound(sum, p);
    vstd::arithmetic::div_mod::lemma_sub_mod_noop(sum, v as int, p);
    vstd::arithmetic::div_mod::lemma_sub_mod_noop(sum % p, v as int, p);
    vstd::arithmetic::div_mod::lemma_mod_twice(sum, p);
    assert(s.eval(check, row) == Some(((sum - v) % p) as nat));
    s.lemma_switched(config.q_decomposed, check, row);
    vstd::arithmetic::div_mod::lemma_mod_twice(sum - v, p);
    vstd::arithmetic::div_mod::lemma_mod_bound(sum - v, p);
    if 0 <= sum < p && v < p && sum != v {
        if sum > v {
            vstd::arithmetic::div_mod::lemma_small_mod((sum - v) as nat, p as nat);
        } else {
            vstd::arithmetic::div_mod::lemma_mod_add_multiples_vanish(sum - v, p);
            vstd::arithmetic::div_mod::lemma_small_mod((sum - v + p) as nat, p as nat);
        }
    }
    lemma_windows_value_bound(s, config.value_decomposed, row, DECOMPOSED_PARTS as nat);
}

/// The lookup of a window on a row on which the lookup's selector is
/// enabled, where the table is loaded: it fails exactly when the window
/// holds a value that is not one of `0, ..., LOOKUP_RANGE - 1`.
pub proof fn lemma_window_lookup(
    s: Session,
    config: DecomposeRangeCheckConfig,
    l: int,
    row: int,
    w: nat,
)
    requires
        0 <= l < s.cs.lookups.len(),
        s.cs.lookups[l] == config.window_lookup(),
        crate::range_check::holds_range(s, config.table.value, LOOKUP_RANGE as nat),
        s.selectors.contains((config.q_range_check.index as int, row)),
        s.value_at(config.value_decomposed, row) == Some(w),
        w < modulus(),
    ensures
        s.lookup_failure(l, row) is Some <==> w >= LOOKUP_RANGE,
        s.lookup_failure(l, row) matches Some(failure) ==> failure
            == (crate::failure::FailureView::LookupFailure {
            lookup: crate::failure::NamedView { index: l as nat, name: "window lookup"@ },
            location: s.location(row),
        }),
{
    let window = Expr::Query(config.value_decomposed, 0);
    assert(s.eval(window, row) == Some(w));
    s.lemma_switched(config.q_range_check, window, row);
    vstd::arithmetic::div_mod::lemma_small_mod(w, modulus());
    crate::range_check::lemma_range_lookup(s, l, row, LOOKUP_RANGE as nat, w);
}

/// The sum of the windows is not negative.
pub proof fn lemma_windows_value_bound(s: Session, value_decomposed: Column, row: int, n: nat)
    ensures
        windows_value(s, value_decomposed, row, n) >= 0,
    decreases n,
{
    if n > 0 {
        lemma_windows_value_bound(s, value_decomposed, row, (n - 1) as nat);
        let window = window_at(s, value_decomposed, row, n - 1);
        let weight = weight((n - 1) as nat);
        assert(window * weight >= 0) by (nonlinear_arith)
            requires
                window >= 0,
                weight >= 0,
        ;
    }
}

/// Two to the power of `NUM_BITS * i`, where `i` is the index of a window.
fn window_size(i: usize) -> (r: u128)
    requires
        i < DECOMPOSED_PARTS,
    ensures
        r == weight(i as nat),
        r > 0,
{
    proof {
        lemma2_to64();
        assert(1u128 << 0u128 == 1u128) by (bit_vector);
        assert(1u128 << 3u128 == 8u128) by (bit_vector);
        assert(1u128 << 6u128 == 0x40u128) by (bit_vector);
        assert(1u128 << 9u128 == 0x200u128) by (bit_vector);
        assert(1u128 << 12u128 == 0x1000u128) by (bit_vector);
        assert(1u128 << 15u128 == 0x8000u128) by (bit_vector);
        assert(1u128 << 18u128 == 0x40000u128) by (bit_vector);
        assert(1u128 << 21u128 == 0x200000u128) by (bit_vector);
    }
    1u128 << (i * NUM_BITS)
}

impl DecomposeRangeCheckConfig {
    /// The lookup of `q_range_check * window` in the table's column of
    /// values.
    pub open spec fn window_lookup(self) -> LookupView {
        LookupView {
            name: "window lookup"@,
            inputs: seq![
                LookupInputView {
                    input: Expr::product(
                        Expr::Selector(self.q_range_check),
                        Expr::Query(self.value_decomposed, 0),
                    ),
                    table: self.table.value,
                },
            ],
        }
    }

    /// The decomposition gate: it holds the weighted sum of the windows against the
    /// value.
    pub open spec fn decompose_gate(self) -> GateView {
        GateView {
            name: "decompose"@,
            constraints: gated(
                Expr::Selector(self.q_decomposed),
                seq![
                    ConstraintView {
                        name: "range check"@,
                        poly: Expr::difference(
                            weighted_sum(self.value_decomposed, DECOMPOSED_PARTS as nat),
                            Expr::Query(self.value, 0),
                        ),
                    },
                ],
            ),
        }
    }

    /// The configuration that `configure` returns.
    pub open spec fn config_of(cs: ConstraintSystemView) -> DecomposeRangeCheckConfig {
        DecomposeRangeCheckConfig {
            value: Column { kind: Any::Advice, index: cs.advice.len() as usize },
            value_decomposed: Column { kind: Any::Advice, index: (cs.advice.len() + 1) as usize },
            q_decomposed: Selector { index: cs.selectors.len() as usize, simple: true },
            q_range_check: Selector { index: (cs.selectors.len() + 1) as usize, simple: false },
            table: RangeTableConfig::<LOOKUP_RANGE>::config_of(cs),
        }
    }

    /// The description once the check is configured: two more advice
    /// columns, two more selectors, the table's columns, the lookup and one
    /// more gate.
    pub open spec fn configured(cs: ConstraintSystemView) -> ConstraintSystemView {
        let config = DecomposeRangeCheckConfig::config_of(cs);
        let with_table = RangeTableConfig::<LOOKUP_RANGE>::configured(cs);
        ConstraintSystemView {
            advice: cs.advice.push(false).push(false),
            selectors: cs.selectors.push(true).push(false),
            lookups: cs.lookups.push(config.window_lookup()),
            gates: cs.gates.push(config.decompose_gate()),
            ..with_table
        }
    }

    /// What the windows from `i` on make of a session in which the region
    /// is open, where `rest` is what is left of the value: window `i` holds
    /// the lowest `NUM_BITS` bits of `rest`, and the bits above them are
    /// left for the next.
    pub open spec fn windows_from(self, s: Session, rest: nat, i: nat) -> Outcome
        decreases DECOMPOSED_PARTS - i,
    {
        if i >= DECOMPOSED_PARTS {
            Outcome::ok(s)
        } else {
            let r = s.try_enable(self.q_range_check, i);
            let r = and_then(
                r,
                |t: Session|
                    t.try_assign(self.value_decomposed, i, Some(rest % (LOOKUP_RANGE as nat))),
            );
            if r.error is Some {
                r
            } else {
                self.windows_from(r.session, rest / (LOOKUP_RANGE as nat), i + 1)
            }
        }
    }

    /// What `assign_value` makes of a session: one region with the value
    /// and its selector on the first row, and a window with the lookup's
    /// selector on each row.
    pub open spec fn assigned(self, s: Session, value: nat) -> Outcome {
        let r = s.try_enter("Assign value"@);
        let r = and_then(r, |t: Session| t.try_enable(self.q_decomposed, 0));
        let r = and_then(r, |t: Session| t.try_assign(self.value, 0, Some(value)));
        let r = and_then(r, |t: Session| self.windows_from(t, value, 0));
        and_then(r, |t: Session| t.try_exit())
    }

    /// Describes the check.
    pub fn configure(meta: &mut ConstraintSystem) -> (r: DecomposeRangeCheckConfig)
        ensures
            r == DecomposeRangeCheckConfig::config_of(old(meta)@),
            final(meta)@ == DecomposeRangeCheckConfig::configured(old(meta)@),
    {
        let value = meta.advice_column();
        let value_decomposed = meta.advice_column();
        let q_decomposed = meta.selector();
        let q_range_check = meta.complex_selector();
        let table = RangeTableConfig::<LOOKUP_RANGE>::configure(meta);
        let config = DecomposeRangeCheckConfig {
            value,
            value_decomposed,
            q_decomposed,
            q_range_check,
            table,
        };

        // Each window is looked up by itself.
        let q = meta.query_selector(q_range_check);
        let decomposed_value = meta.query_advice(value_decomposed, Rotation::cur());
        let mut inputs: Vec<LookupInput> = Vec::new();
        inputs.push(LookupInput::new(q.times(decomposed_value), table.value));
        assert(inputs@.map_values(|i: LookupInput| i@) =~= config.window_lookup().inputs);
        meta.lookup("window lookup", inputs);

        // The windows add up to the value.
        let q = meta.query_selector(q_decomposed);
        let value_query = meta.query_advice(value, Rotation::cur());
        let decomposed_parts = RANGE / LOOKUP_RANGE;
        let mut decomposed_check = Expression::Constant(Fp::from_u64(0));
        let mut i: usize = 0;
        while i < decomposed_parts
            invariant
                i <= decomposed_parts,
                decomposed_parts == DECOMPOSED_PARTS,
                decomposed_check@ == weighted_sum(value_decomposed, i as nat),
            decreases decomposed_parts - i,
        {
            let size = window_size(i);
            proof {
                lemma2_to64();
            }
            let window = meta.query_advice(value_decomposed, Rotation(i as i32));
            decomposed_check = decomposed_check.plus(
                window.times(Expression::Constant(Fp::from_u128(size))),
            );
            i = i + 1;
        }
        let decomposed_check = decomposed_check.minus(value_query);

        let mut constraints: Vec<Constraint> = Vec::new();
        constraints.push(Constraint::new("range check", decomposed_check));
        assert(constraints_view(constraints@) =~= seq![
            ConstraintView {
                name: "range check"@,
                poly: Expr::difference(
                    weighted_sum(value_decomposed, DECOMPOSED_PARTS as nat),
                    Expr::Query(value, 0),
                ),
            },
        ]);
        let constraints = Constraints::with_selector(&q, &constraints);
        meta.create_gate("decompose", constraints);
        assert(meta@ =~= DecomposeRangeCheckConfig::configured(old(meta)@));

        config
    }

    /// Assigns a value and its windows in one region: window `i` holds the
    /// bits `NUM_BITS * i` to `NUM_BITS * (i + 1)` of the value.
    pub fn assign_value(&self, layouter: &mut Layouter, value: u128) -> (r: Result<bool, Error>)
        requires
            old(layouter).wf(),
        ensures
            final(layouter).wf(),
            agrees(self.assigned(old(layouter)@, value as nat), r, final(layouter)@),
            r matches Ok(done) ==> done,
    {
        layouter.enter_region("Assign value")?;
        let offset: usize = 0;

        layouter.enable_selector(self.q_decomposed, offset)?;
        layouter.assign_advice(self.value, offset, Value::known(Fp::from_u128(value)))?;

        let ghost opened = layouter@;
        let decomposed_parts = RANGE / LOOKUP_RANGE;
        let mut decompose_in_progress = value;
        let mut i: usize = 0;
        while i < decomposed_parts
            invariant
                i <= decomposed_parts,
                decomposed_parts == DECOMPOSED_PARTS,
                layouter.wf(),
                self.windows_from(opened, value as nat, 0) == self.windows_from(
                    layouter@,
                    decompose_in_progress as nat,
                    i as nat,
                ),
                self.assigned(old(layouter)@, value as nat) == and_then(
                    self.windows_from(opened, value as nat, 0),
                    |t: Session| t.try_exit(),
                ),
            decreases decomposed_parts - i,
        {
            layouter.enable_selector(self.q_range_check, i)?;
            let decomposed_val = decompose_in_progress % (LOOKUP_RANGE as u128);
            layouter.assign_advice(
                self.value_decomposed,
                i,
                Value::known(Fp::from_u128(decomposed_val)),
            )?;
            proof {
                lemma2_to64();
                vstd::bits::lemma_u128_shr_is_div(decompose_in_progress, NUM_BITS as u128);
            }
            decompose_in_progress = decompose_in_progress >> NUM_BITS;
            i = i + 1;
        }
        layouter.exit_region()?;
        Ok(true)
    }
}

/// Window `i` of a value: the `NUM_BITS` bits from bit `NUM_BITS * i` on.
pub open spec fn window(value: nat, i: nat) -> nat {
    (value / weight(i)) % (LOOKUP_RANGE as nat)
}

/// The weight of a window is `LOOKUP_RANGE` times that of the window before.
pub proof fn lemma_weight(i: nat)
    ensures
        weight(i) > 0,
        weight(i + 1) == weight(i) * 8,
{
    lemma2_to64();
    vstd::arithmetic::power2::lemma_pow2_pos(3 * i);
    vstd::arithmetic::power2::lemma_pow2_adds(3 * i, 3);
}

/// A session in which the windows from `from` up to `to` of a value are
/// written in the open region, each on its row with the selector of the
/// lookup.
pub open spec fn with_windows(
    config: DecomposeRangeCheckConfig,
    s: Session,
    value: nat,
    from: nat,
    to: nat,
) -> Session {
    let last = s.regions.last();
    let start = last.start;
    Session {
        cells: Map::new(
            |key: (Column, int)|
                s.cells.contains_key(key) || (key.0 == config.value_decomposed && start + from
                    <= key.1 < start + to),
            |key: (Column, int)|
                if key.0 == config.value_decomposed && start + from <= key.1 < start + to {
                    Some(window(value, (key.1 - start) as nat))
                } else {
                    s.cells[key]
                },
        ),
        selectors: Set::new(
            |key: (int, int)|
                s.selectors.contains(key) || (key.0 == config.q_range_check.index && start + from
                    <= key.1 < start + to),
        ),
        regions: if from < to {
            s.regions.update(
                s.regions.len() - 1,
                RegionView {
                    rows: if to > last.rows {
                        to
                    } else {
                        last.rows
                    },
                    ..last
                },
            )
        } else {
            s.regions
        },
        ..s
    }
}

/// Past the last window nothing is left to write.
proof fn lemma_windows_done(config: DecomposeRangeCheckConfig, s: Session, rest: nat, i: nat)
    requires
        i >= DECOMPOSED_PARTS,
    ensures
        config.windows_from(s, rest, i) == Outcome::ok(s),
{
}

/// Where the windows fit the usable rows, the windows from `i` on are
/// written without error, and each is its window of the value.
pub proof fn lemma_windows_from(config: DecomposeRangeCheckConfig, s: Session, value: nat, i: nat)
    requires
        s.open,
        s.regions.len() > 0,
        s.is_advice(config.value_decomposed),
        config.q_range_check.index < s.cs.selectors.len(),
        i <= DECOMPOSED_PARTS,
        s.regions.last().start + DECOMPOSED_PARTS <= s.usable_rows,
    ensures
        config.windows_from(s, value / weight(i), i) == Outcome::ok(
            with_windows(config, s, value, i, DECOMPOSED_PARTS as nat),
        ),
    decreases DECOMPOSED_PARTS - i,
{
    if i >= DECOMPOSED_PARTS {
        assert(with_windows(config, s, value, i, DECOMPOSED_PARTS as nat) =~= s);
        lemma_windows_done(config, s, value / weight(i), i);
    } else {
        let rest = value / weight(i);
        lemma_weight(i);
        vstd::arithmetic::div_mod::lemma_div_denominator(value as int, weight(i) as int, 8);
        assert(rest / 8 == value / weight(i + 1));
        let enabled = s.enabled(config.q_range_check, i);
        let t = enabled.assigned(config.value_decomposed, i, Some(rest % 8));
        assert(s.try_enable(config.q_range_check, i) == Outcome::ok(enabled));
        assert(enabled.try_assign(config.value_decomposed, i, Some(rest % 8)) == Outcome::ok(t));
        assert(window(value, i) == rest % 8);
        lemma_windows_from(config, t, value, i + 1);
        assert(config.windows_from(s, rest, i) == config.windows_from(t, rest / 8, i + 1));
        assert(with_windows(config, t, value, i + 1, DECOMPOSED_PARTS as nat) =~= with_windows(
            config,
            s,
            value,
            i,
            DECOMPOSED_PARTS as nat,
        ));
    }
}

/// The windows of a value, each with its weight, add up to the lowest
/// `NUM_BITS * n` bits of the value.
pub proof fn lemma_windows_sum(
    s: Session,
    value_decomposed: Column,
    row: int,
    value: nat,
    n: nat,
)
    requires
        forall|i: int|
            0 <= i < n ==> #[trigger] window_at(s, value_decomposed, row, i) == window(
                value,
                i as nat,
            ),
    ensures
        windows_value(s, value_decomposed, row, n) == value % weight(n),
    decreases n,
{
    lemma2_to64();
    if n > 0 {
        let shorter = (n - 1) as nat;
        lemma_windows_sum(s, value_decomposed, row, value, shorter);
        lemma_weight(shorter);
        assert(window_at(s, value_decomposed, row, n - 1) == window(value, shorter));
        vstd::arithmetic::div_mod::lemma_breakdown(value as int, weight(shorter) as int, 8);
        assert(window(value, shorter) * weight(shorter) == weight(shorter) * ((value / weight(
            shorter,
        )) % 8)) by (nonlinear_arith);
    } else {
        assert(weight(0) == 1);
    }
}

/// The session that the circuit leaves on a value once its table is loaded
/// into the session `loaded`: one region of eight rows below the table,
/// with the value and its selector on the first row and a window with the
/// selector of the lookup on each row.
pub open spec fn assigned_session(
    config: DecomposeRangeCheckConfig,
    loaded: Session,
    value: nat,
) -> Session {
    let row = loaded.next_row() as int;
    Session {
        cells: Map::new(
            |key: (Column, int)|
                loaded.cells.contains_key(key) || key == (config.value, row) || (key.0
                    == config.value_decomposed && row <= key.1 < row + DECOMPOSED_PARTS),
            |key: (Column, int)|
                if key == (config.value, row) {
                    Some(value)
                } else if key.0 == config.value_decomposed && row <= key.1 < row
                    + DECOMPOSED_PARTS {
                    Some(window(value, (key.1 - row) as nat))
                } else {
                    loaded.cells[key]
                },
        ),
        selectors: Set::new(
            |key: (int, int)|
                loaded.selectors.contains(key) || key == (config.q_decomposed.index as int, row)
                    || (key.0 == config.q_range_check.index && row <= key.1 < row
                    + DECOMPOSED_PARTS),
        ),
        regions: loaded.regions.push(
            RegionView { name: "Assign value"@, start: row as nat, rows: DECOMPOSED_PARTS as nat },
        ),
        ..loaded
    }
}

/// Run on 32 rows or more, the circuit loads the table and leaves the
/// session with its one region. The result is the session with the table
/// alone.
pub proof fn lemma_runs(
    circuit: DecomposeRangeCheckCircuit,
    config: DecomposeRangeCheckConfig,
    k: u32,
) -> (loaded: Session)
    requires
        DecomposeRangeCheckCircuit::describes(ConstraintSystemView::empty(), config),
        5 <= k < 32,
    ensures
        ({
            let start = Session::initial(
                DecomposeRangeCheckCircuit::configured(ConstraintSystemView::empty()),
                k,
                Seq::empty(),
                false,
            );
            &&& loaded == start.loaded("load range-check table"@, config.table.table())
            &&& loaded.next_row() == LOOKUP_RANGE
            &&& crate::range_check::holds_range(loaded, config.table.value, LOOKUP_RANGE as nat)
            &&& forall|column: Column, row: int|
                column.kind != Any::Fixed ==> loaded.read(column, row) is None
            &&& loaded.selectors == start.selectors
            &&& loaded.copies == start.copies
            &&& loaded.cs == start.cs
            &&& loaded.usable_rows == start.usable_rows
            &&& loaded.usable_rows >= 26
            &&& !loaded.dry_run
            &&& loaded.instance == start.instance
            &&& loaded.bound_rows == start.bound_rows
            &&& MockProver::ran(&circuit, config, k, Seq::empty(), false) == Ok::<Session, Error>(
                assigned_session(config, loaded, circuit.value as nat),
            )
        }),
{
    let cs = DecomposeRangeCheckCircuit::configured(ConstraintSystemView::empty());
    lemma2_to64();
    if k > 5 {
        vstd::arithmetic::power2::lemma_pow2_strictly_increases(5, k as nat);
    }
    vstd::arithmetic::power2::lemma_pow2_strictly_increases(k as nat, 32);
    let usable = pow2(k as nat) - 6;
    assert(cs.rotations_within(usable)) by {
        reveal_with_fuel(Expr::rotations_within, 4);
        lemma_weighted_sum_plain(config.value_decomposed, DECOMPOSED_PARTS as nat, usable);
        assert(config.decompose_gate().constraints[0].poly.rotations_within(usable));
        assert(config.window_lookup().inputs[0].input.rotations_within(usable));
    }
    assert(cs.selectors_apart()) by {
        reveal_with_fuel(Expr::selectors_apart, 4);
        reveal_with_fuel(Expr::mentions_selector, 4);
        lemma_weighted_sum_plain(config.value_decomposed, DECOMPOSED_PARTS as nat, usable);
        assert(config.decompose_gate().constraints[0].poly.selectors_apart());
    }
    let start = Session::initial(cs, k, Seq::empty(), false);
    let name = "load range-check table"@;
    let table = config.table.table();
    assert(start.table_columns_error(table, 2) is None) by {
        reveal_with_fuel(Session::table_columns_error, 3);
        assert(start.table_column_error(table, 0) is None);
        assert(start.table_column_error(table, 1) is None);
    }
    assert(Session::table_height(table, 2) == LOOKUP_RANGE) by {
        reveal_with_fuel(Session::table_height, 3);
    }
    let loaded = start.loaded(name, table);
    start.lemma_loaded_frame(name, table);
    crate::range_check::lemma_range_loaded(start, name, table, 0, LOOKUP_RANGE as nat);
    let value = circuit.value as nat;
    let s1 = loaded.entered("Assign value"@);
    let s2 = s1.enabled(config.q_decomposed, 0);
    let s3 = s2.assigned(config.value, 0, Some(value));
    assert(weight(0) == 1);
    lemma_windows_from(config, s3, value, 0);
    let s4 = with_windows(config, s3, value, 0, DECOMPOSED_PARTS as nat);
    let s5 = s4.exited();
    assert(config.assigned(loaded, value) == Outcome::ok(s5));
    assert(s5 =~= assigned_session(config, loaded, value));
    loaded
}

/// The weighted sum of the windows queries the rows from the row itself to
/// the last window's, and mentions no selector.
pub proof fn lemma_weighted_sum_plain(value_decomposed: Column, n: nat, bound: int)
    requires
        n <= bound,
    ensures
        n > 0 ==> weighted_sum(value_decomposed, n).rotations_within(bound),
        n == 0 && bound > 0 ==> weighted_sum(value_decomposed, n).rotations_within(bound),
        !weighted_sum(value_decomposed, n).mentions_selector(true),
        !weighted_sum(value_decomposed, n).mentions_selector(false),
        weighted_sum(value_decomposed, n).selectors_apart(),
    decreases n,
{
    reveal_with_fuel(Expr::rotations_within, 4);
    reveal_with_fuel(Expr::mentions_selector, 4);
    reveal_with_fuel(Expr::selectors_apart, 4);
    if n > 0 {
        lemma_weighted_sum_plain(value_decomposed, (n - 1) as nat, bound);
    }
}

/// The circuit accepts exactly the values that eight windows of three bits
/// hold: those below `2^24`. Of such a value every window is in the table
/// and the windows add up to the value. Of any other value the windows add
/// up to its lowest 24 bits only, and the decomposition constraint fails on
/// the row of the value.
#[verifier::rlimit(60)]
pub proof fn lemma_accepts_iff_decomposable(
    circuit: DecomposeRangeCheckCircuit,
    config: DecomposeRangeCheckConfig,
    k: u32,
)
    requires
        DecomposeRangeCheckCircuit::describes(ConstraintSystemView::empty(), config),
        5 <= k < 32,
    ensures
        MockProver::ran(&circuit, config, k, Seq::empty(), false) matches Ok(s) && (
        s.failures().len() == 0 <==> circuit.value < 0x100_0000) && (circuit.value >= 0x100_0000
            ==> s.constraint_failure(0, 0, LOOKUP_RANGE as int) is Some),
{
    let loaded = lemma_runs(circuit, config, k);
    let value = circuit.value as nat;
    let s = assigned_session(config, loaded, value);
    let first = LOOKUP_RANGE as int;
    lemma2_to64();
    assert(weight(8) == 0x100_0000) by {
        vstd::arithmetic::power2::lemma_pow2_adds(12, 12);
        assert(pow2(12) == 0x1000);
    }
    assert forall|row: int| #[trigger] s.value_at(config.value, row) == Some(
        if row == first {
            value
        } else {
            0
        },
    ) by {
        assert(loaded.read(config.value, row) is None);
    }
    assert forall|row: int| #[trigger] s.value_at(config.value_decomposed, row) == Some(
        if first <= row < first + 8 {
            window(value, (row - first) as nat)
        } else {
            0
        },
    ) by {
        assert(loaded.read(config.value_decomposed, row) is None);
    }
    assert(crate::range_check::holds_range(s, config.table.value, LOOKUP_RANGE as nat)) by {
        assert forall|j: int| 0 <= j < LOOKUP_RANGE implies #[trigger] s.read(
            crate::session::fixed_of(config.table.value),
            s.tables[config.table.value.index as int] + j,
        ) == Some(Some(j as nat)) by {
            assert(loaded.read(
                crate::session::fixed_of(config.table.value),
                loaded.tables[config.table.value.index as int] + j,
            ) == Some(Some(j as nat)));
        }
    }
    let check = Expr::difference(
        weighted_sum(config.value_decomposed, DECOMPOSED_PARTS as nat),
        Expr::Query(config.value, 0),
    );

    // The decomposition on the rows on which its selector is off.
    assert forall|row: int, g: int, c: int|
        0 <= row < s.usable_rows && row != first && 0 <= g < s.cs.gates.len() && 0 <= c
            < s.cs.gates[g].constraints.len() implies (#[trigger] s.constraint_failure(
        g,
        c,
        row,
    )) is None by {
        assert forall|i: int| 0 <= i < DECOMPOSED_PARTS implies (#[trigger] s.value_at(
            config.value_decomposed,
            row + i,
        )) is Some by {}
        lemma_weighted_sum(s, config.value_decomposed, row, DECOMPOSED_PARTS as nat);
        s.lemma_difference(
            weighted_sum(config.value_decomposed, DECOMPOSED_PARTS as nat),
            Expr::Query(config.value, 0),
            row,
        );
        assert(s.eval(Expr::Query(config.value, 0), row) is Some);
        s.lemma_switched(config.q_decomposed, check, row);
    }

    // The decomposition on the row of the value.
    assert forall|i: int| 0 <= i < DECOMPOSED_PARTS implies (#[trigger] s.value_at(
        config.value_decomposed,
        first + i,
    )) is Some by {}
    assert forall|i: int| 0 <= i < DECOMPOSED_PARTS implies #[trigger] window_at(
        s,
        config.value_decomposed,
        first,
        i,
    ) == window(value, i as nat) by {
        assert(s.value_at(config.value_decomposed, first + i) == Some(
            window(value, (first + i - first) as nat),
        ));
    }
    lemma_windows_sum(s, config.value_decomposed, first, value, DECOMPOSED_PARTS as nat);
    lemma_decompose_constraint(s, config, first, value);
    let sum = windows_value(s, config.value_decomposed, first, DECOMPOSED_PARTS as nat);
    assert(sum == value % 0x100_0000);
    vstd::arithmetic::div_mod::lemma_mod_bound(value as int, 0x100_0000);
    if value < 0x100_0000 {
        vstd::arithmetic::div_mod::lemma_small_mod(value, 0x100_0000);
    } else {
        assert(sum < modulus() && value < modulus() && sum != value);
        assert(s.cs.gates[0].constraints[0].poly == config.decompose_gate().constraints[0].poly);
        assert(s.eval(s.cs.gates[0].constraints[0].poly, first) != Some(0nat));
        assert(!s.dry_run);
    }

    // The lookup on every row.
    assert forall|row: int| 0 <= row < s.usable_rows implies (#[trigger] s.lookup_failure(0, row))
        is None by {
        let w: nat = if first <= row < first + 8 {
            window(value, (row - first) as nat)
        } else {
            0
        };
        assert(s.value_at(config.value_decomposed, row) == Some(w));
        assert(w < 8);
        if first <= row < first + 8 {
            lemma_window_lookup(s, config, 0, row, w);
        } else {
            let query = Expr::Query(config.value_decomposed, 0);
            assert(s.eval(query, row) == Some(w));
            s.lemma_switched(config.q_range_check, query, row);
            crate::range_check::lemma_range_lookup(s, 0, row, LOOKUP_RANGE as nat, 0);
        }
    }
    assert(s.configuration_error() is None);
    s.lemma_accepts_iff_satisfied();
    if value < 0x100_0000 {
        assert(s.constraint_failure(0, 0, first) is None);
        assert(s.satisfied());
    } else {
        assert(s.constraint_failure(0, 0, first) is Some);
    }
}

/// The circuit that loads the table and checks one value.
#[derive(Clone, Copy, Debug, Default)]
pub struct DecomposeRangeCheckCircuit {
    pub value: u128,
}

impl Circuit for DecomposeRangeCheckCircuit {
    type Config = DecomposeRangeCheckConfig;

    open spec fn configured(cs: ConstraintSystemView) -> ConstraintSystemView {
        DecomposeRangeCheckConfig::configured(cs)
    }

    open spec fn describes(cs: ConstraintSystemView, config: DecomposeRangeCheckConfig) -> bool {
        config == DecomposeRangeCheckConfig::config_of(cs)
    }

    open spec fn synthesized(&self, config: DecomposeRangeCheckConfig, s: Session) -> Outcome {
        let r = s.try_load("load range-check table"@, config.table.table());
        and_then(r, |t: Session| config.assigned(t, self.value as nat))
    }

    open spec fn lacks_witnesses(&self) -> bool {
        self.value == 0
    }

    fn without_witnesses(&self) -> (r: DecomposeRangeCheckCircuit) {
        DecomposeRangeCheckCircuit { value: 0 }
    }

    fn configure(meta: &mut ConstraintSystem) -> (config: DecomposeRangeCheckConfig) {
        let config = DecomposeRangeCheckConfig::configure(meta);
        config
    }

    fn synthesize(&self, config: DecomposeRangeCheckConfig, layouter: &mut Layouter) -> (r: Result<
        (),
        Error,
    >) {
        config.table.load(layouter)?;
        config.assign_value(layouter, self.value)?;
        Ok(())
    }
}

} // verus!
