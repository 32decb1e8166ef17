//! A range check by a lookup in a table that is tagged by bit length: the
//! pair of a value and the number of its binary digits must be a row of the
//! table.
//!
//! A lookup is made on every row, also where the selector is off. There the
//! inputs are a default pair, which therefore has to be a row of the table.

use crate::constraint_system::ConstraintSystem;
use crate::constraint_system::ConstraintSystemView;
use crate::constraint_system::LookupInput;
use crate::constraint_system::LookupInputView;
use crate::constraint_system::LookupView;
use crate::expression::Any;
use crate::expression::Column;
use crate::expression::Expr;
use crate::expression::Expression;
use crate::expression::Rotation;
use crate::expression::Selector;
use crate::field::modulus;
use crate::field::Fp;
use crate::session::fixed_of;
use crate::layouter::Layouter;
use crate::prover::Circuit;
use crate::range_check::tag;
use crate::prover::MockProver;
use crate::session::RegionView;
use crate::session::agrees;
use crate::session::and_then;
use crate::session::AssignedCell;
use crate::session::AssignedCellView;
use crate::session::Error;
use crate::session::Outcome;
use crate::session::Session;
use crate::value::Value;
use vstd::prelude::*;

pub mod table;

use table::RangeTableConfig;

verus! {

/// The two cells of a value that the circuit constrains: its bit length and
/// the value itself.
#[derive(Clone, Copy, Debug)]
pub struct RangeConstrained {
    pub num_bits: AssignedCell,
    pub assigned_cell: AssignedCell,
}

/// The columns, the selector and the table of the check.
#[derive(Clone, Copy, Debug)]
pub struct RangeCheckConfig<const NUM_BITS: usize, const RANGE: usize> {
    pub q_lookup: Selector,
    pub num_bits: Column,
    pub value: Column,
    pub table: RangeTableConfig<NUM_BITS, RANGE>,
}

/// The expression `q * column + (1 - q) * default`: the column where the
/// selector is on, the default where it is off.
pub open spec fn switched(q_lookup: Selector, column: Column, default: nat) -> Expr {
    Expr::sum(
        Expr::product(Expr::Selector(q_lookup), Expr::Query(column, 0)),
        Expr::product(
            Expr::difference(Expr::Constant(1), Expr::Selector(q_lookup)),
            Expr::Constant(default),
        ),
    )
}

impl<const NUM_BITS: usize, const RANGE: usize> RangeCheckConfig<NUM_BITS, RANGE> {
    /// The lookup of the pair of bit length and value, each switched with
    /// its default, in the two table columns.
    pub open spec fn tagged_lookup(self, default_num_bits: nat, default_value: nat) -> LookupView {
        LookupView {
            name: "tagged range check lookup"@,
            inputs: seq![
                LookupInputView {
                    input: switched(self.q_lookup, self.num_bits, default_num_bits),
                    table: self.table.num_bits,
                },
                LookupInputView {
                    input: switched(self.q_lookup, self.value, default_value),
                    table: self.table.value,
                },
            ],
        }
    }

    /// The configuration that `configure` returns.
    pub open spec fn config_of(
        cs: ConstraintSystemView,
        num_bits: Column,
        value: Column,
    ) -> RangeCheckConfig<NUM_BITS, RANGE> {
        RangeCheckConfig {
            q_lookup: Selector { index: cs.selectors.len() as usize, simple: false },
            num_bits,
            value,
            table: RangeTableConfig::<NUM_BITS, RANGE>::config_of(cs),
        }
    }

    /// The description once the check is configured with a default pair:
    /// one more selector, the table's columns and the lookup.
    pub open spec fn configured(
        cs: ConstraintSystemView,
        num_bits: Column,
        value: Column,
        default_num_bits: nat,
        default_value: nat,
    ) -> ConstraintSystemView {
        let config = RangeCheckConfig::<NUM_BITS, RANGE>::config_of(cs, num_bits, value);
        let with_table = RangeTableConfig::<NUM_BITS, RANGE>::configured(cs);
        ConstraintSystemView {
            selectors: cs.selectors.push(false),
            lookups: cs.lookups.push(config.tagged_lookup(default_num_bits, default_value)),
            ..with_table
        }
    }

    /// The bit length as a witness value.
    pub open spec fn bits_value(num_bits: Option<u8>) -> Option<nat> {
        match num_bits {
            Some(n) => Some(n as nat),
            None => None,
        }
    }

    /// What `assign` makes of a session: a region of one row with the
    /// selector enabled, the bit length and the value.
    pub open spec fn assigned(self, s: Session, num_bits: Option<u8>, value: Option<nat>) -> Outcome {
        let r = s.try_enter("Assign value"@);
        let r = and_then(r, |t: Session| t.try_enable(self.q_lookup, 0));
        let r = and_then(
            r,
            |t: Session| t.try_assign(self.num_bits, 0, Self::bits_value(num_bits)),
        );
        let r = and_then(r, |t: Session| t.try_assign(self.value, 0, value));
        and_then(r, |t: Session| t.try_exit())
    }

    /// Describes the check on two advice columns. Where the selector is
    /// off, the pair that is looked up is one digit and the value zero,
    /// which is the first row of the table.
    pub fn configure(meta: &mut ConstraintSystem, num_bits: Column, value: Column) -> (r:
        RangeCheckConfig<NUM_BITS, RANGE>)
        ensures
            r == RangeCheckConfig::<NUM_BITS, RANGE>::config_of(old(meta)@, num_bits, value),
            final(meta)@ == RangeCheckConfig::<NUM_BITS, RANGE>::configured(
                old(meta)@,
                num_bits,
                value,
                1,
                0,
            ),
    {
        Self::configure_with_default(meta, num_bits, value, Fp::one(), Fp::zero())
    }

    /// Describes the check on two advice columns, with the pair that is
    /// looked up where the selector is off. The pair has to be a row of the
    /// table: with any other, every row on which the selector is off fails
    /// the lookup.
    pub fn configure_with_default(
        meta: &mut ConstraintSystem,
        num_bits: Column,
        value: Column,
        default_num_bits: Fp,
        default_value: Fp,
    ) -> (r: RangeCheckConfig<NUM_BITS, RANGE>)
        ensures
            r == RangeCheckConfig::<NUM_BITS, RANGE>::config_of(old(meta)@, num_bits, value),
            final(meta)@ == RangeCheckConfig::<NUM_BITS, RANGE>::configured(
                old(meta)@,
                num_bits,
                value,
                default_num_bits@,
                default_value@,
            ),
    {
        let q_lookup = meta.complex_selector();
        let table = RangeTableConfig::<NUM_BITS, RANGE>::configure(meta);
        let config = RangeCheckConfig { q_lookup, num_bits, value, table };

        let q_lookup_query = meta.query_selector(q_lookup);
        let num_bits_query = meta.query_advice(num_bits, Rotation::cur());
        let value_query = meta.query_advice(value, Rotation::cur());

        let not_q_lookup = Expression::Constant(Fp::one()).minus(q_lookup_query.duplicate());
        let default_num_bits_expr = Expression::Constant(default_num_bits);
        let default_value_expr = Expression::Constant(default_value);

        let num_bits_expr = q_lookup_query.duplicate().times(num_bits_query).plus(
            not_q_lookup.duplicate().times(default_num_bits_expr),
        );
        let value_expr = q_lookup_query.times(value_query).plus(
            not_q_lookup.times(default_value_expr),
        );

        let mut inputs: Vec<LookupInput> = Vec::new();
        inputs.push(LookupInput::new(num_bits_expr, table.num_bits));
        inputs.push(LookupInput::new(value_expr, table.value));
        assert(inputs@.map_values(|i: LookupInput| i@) =~= config.tagged_lookup(
            default_num_bits@,
            default_value@,
        ).inputs);
        meta.lookup("tagged range check lookup", inputs);
        assert(meta@ =~= RangeCheckConfig::<NUM_BITS, RANGE>::configured(
            old(meta)@,
            num_bits,
            value,
            default_num_bits@,
            default_value@,
        ));

        config
    }

    /// Assigns a value with its bit length.
    pub fn assign(&self, layouter: &mut Layouter, num_bits: Option<u8>, value: Value) -> (r:
        Result<RangeConstrained, Error>)
        requires
            old(layouter).wf(),
        ensures
            final(layouter).wf(),
            agrees(self.assigned(old(layouter)@, num_bits, value@), r, final(layouter)@),
            r matches Ok(cells) ==> cells.num_bits@ == (AssignedCellView {
                cell: old(layouter)@.cell_below(self.num_bits),
                value: Self::bits_value(num_bits),
            }) && cells.assigned_cell@ == (AssignedCellView {
                cell: old(layouter)@.cell_below(self.value),
                value: value@,
            }),
    {
        layouter.enter_region("Assign value")?;
        layouter.enable_selector(self.q_lookup, 0)?;

        let num_bits_value = match num_bits {
            Some(v) => Value::Known(Fp::from_u64(v as u64)),
            None => Value::Unknown,
        };
        let num_bits_cell = layouter.assign_advice(self.num_bits, 0, num_bits_value)?;
        let assigned_cell = layouter.assign_advice(self.value, 0, value)?;
        layouter.exit_region()?;

        Ok(RangeConstrained { num_bits: num_bits_cell, assigned_cell })
    }
}

/// Whether the table's two columns are loaded side by side with the values
/// `0, ..., RANGE - 1` and their tags.
pub open spec fn holds_tagged_range<const NUM_BITS: usize, const RANGE: usize>(
    s: Session,
    table: RangeTableConfig<NUM_BITS, RANGE>,
) -> bool {
    let bits = table.num_bits.index as int;
    let values = table.value.index as int;
    &&& s.tables.contains_key(bits)
    &&& s.tables.contains_key(values)
    &&& s.tables[bits] == s.tables[values]
    &&& s.cs.table_rows(bits) == Some(RANGE)
    &&& s.cs.table_rows(values) == Some(RANGE)
    &&& s.tables[bits] + RANGE <= s.rows
    &&& forall|j: int|
        0 <= j < RANGE ==> #[trigger] s.read(fixed_of(table.num_bits), s.tables[bits] + j) == Some(
            Some(tag(j as nat)),
        )
    &&& forall|j: int|
        0 <= j < RANGE ==> #[trigger] s.read(fixed_of(table.value), s.tables[bits] + j) == Some(
            Some(j as nat),
        )
}

/// Once the table is loaded, its two columns hold the values and their tags
/// side by side.
pub proof fn lemma_table_loaded<const NUM_BITS: usize, const RANGE: usize>(
    s: Session,
    table: RangeTableConfig<NUM_BITS, RANGE>,
)
    requires
        s.valid(),
        s.try_load("load range-check table"@, table.table()).error is None,
    ensures
        holds_tagged_range(s.loaded("load range-check table"@, table.table()), table),
{
    let name = "load range-check table"@;
    let columns = table.table();
    let after = s.loaded(name, columns);
    s.lemma_table_columns_error(columns, 0, 2);
    s.lemma_table_columns_error(columns, 1, 2);
    assert forall|j: int| 0 <= j < RANGE implies #[trigger] after.read(
        fixed_of(table.num_bits),
        after.tables[table.num_bits.index as int] + j,
    ) == Some(Some(tag(j as nat))) by {
        s.lemma_loaded(name, columns, 0, j);
    }
    assert forall|j: int| 0 <= j < RANGE implies #[trigger] after.read(
        fixed_of(table.value),
        after.tables[table.num_bits.index as int] + j,
    ) == Some(Some(j as nat)) by {
        s.lemma_loaded(name, columns, 0, j);
        s.lemma_loaded(name, columns, 1, j);
    }
    s.lemma_loaded_marks(name, columns, 0);
    s.lemma_loaded_marks(name, columns, 1);
}

/// The value of a switched expression: that of the column where the
/// selector is on, and the default where it is off.
pub proof fn lemma_switched_value(
    s: Session,
    q_lookup: Selector,
    column: Column,
    default: nat,
    row: int,
    x: nat,
)
    requires
        s.value_at(column, row) == Some(x),
        x < modulus(),
        default < modulus(),
    ensures
        s.eval(switched(q_lookup, column, default), row) == Some(
            if s.selectors.contains((q_lookup.index as int, row)) {
                x
            } else {
                default
            },
        ),
{
    reveal_with_fuel(Session::eval, 3);
    let on = Expr::Selector(q_lookup);
    s.lemma_difference(Expr::Constant(1), on, row);
    crate::field::lemma_mul_zero(x);
    crate::field::lemma_mul_zero(default);
    crate::field::lemma_mul_one(x);
    crate::field::lemma_mul_one(default);
    crate::field::lemma_sub_zero(1, 1);
    crate::field::lemma_sub_zero(1, 0);
    vstd::arithmetic::div_mod::lemma_small_mod(x, modulus());
    vstd::arithmetic::div_mod::lemma_small_mod(default, modulus());
    vstd::arithmetic::div_mod::lemma_small_mod(1, modulus());
}

/// The tagged lookup on a row, where the table is loaded and the two advice
/// cells hold known values. Where the selector is on, the lookup holds
/// exactly when the value lies below `RANGE` and the other cell holds its
/// tag. Where the selector is off, it holds exactly when the default pair
/// is a row of the table: with a default pair that is none, every such row
/// fails, whatever it holds.
pub proof fn lemma_tagged_lookup<const NUM_BITS: usize, const RANGE: usize>(
    s: Session,
    config: RangeCheckConfig<NUM_BITS, RANGE>,
    default_num_bits: nat,
    default_value: nat,
    l: int,
    row: int,
    num_bits: nat,
    value: nat,
)
    requires
        0 <= l < s.cs.lookups.len(),
        s.cs.lookups[l] == config.tagged_lookup(default_num_bits, default_value),
        holds_tagged_range(s, config.table),
        s.value_at(config.num_bits, row) == Some(num_bits),
        s.value_at(config.value, row) == Some(value),
        num_bits < modulus(),
        value < modulus(),
        default_num_bits < modulus(),
        default_value < modulus(),
    ensures
        ({
            let on = s.selectors.contains((config.q_lookup.index as int, row));
            let (bits, x) = if on {
                (num_bits, value)
            } else {
                (default_num_bits, default_value)
            };
            s.lookup_failure(l, row) is None <==> x < RANGE && bits == tag(x)
        }),
{
    let on = s.selectors.contains((config.q_lookup.index as int, row));
    let (bits, x) = if on {
        (num_bits, value)
    } else {
        (default_num_bits, default_value)
    };
    lemma_switched_value(s, config.q_lookup, config.num_bits, default_num_bits, row, num_bits);
    lemma_switched_value(s, config.q_lookup, config.value, default_value, row, value);
    let lookup = s.cs.lookups[l];
    assert(lookup.inputs.len() == 2);
    assert(s.eval(lookup.inputs[0].input, row) == Some(bits));
    assert(s.eval(lookup.inputs[1].input, row) == Some(x));
    assert(s.inputs_known(l, row));
    let start = s.tables[config.table.num_bits.index as int];
    if x < RANGE && bits == tag(x) {
        let t = start as int + x as int;
        assert(s.read(fixed_of(config.table.num_bits), start + (x as int)) == Some(Some(tag(x))));
        assert(s.read(fixed_of(config.table.value), start + (x as int)) == Some(Some(x)));
        assert(s.input_matches(l, 0, row, t));
        assert(s.input_matches(l, 1, row, t));
        assert(s.table_row_matches(l, row, t));
    }
    if s.lookup_holds(l, row) {
        let t = choose|t: int| 0 <= t < s.rows && #[trigger] s.table_row_matches(l, row, t);
        assert(s.input_matches(l, 0, row, t));
        assert(s.input_matches(l, 1, row, t));
        let j = t - start;
        assert(s.read(fixed_of(config.table.num_bits), start + j) == Some(Some(tag(j as nat))));
        assert(s.read(fixed_of(config.table.value), start + j) == Some(Some(j as nat)));
    }
}

/// The circuit that checks one value with its bit length.
#[derive(Clone, Copy, Debug)]
pub struct MyCircuit<const NUM_BITS: usize, const RANGE: usize> {
    pub num_bits: Option<u8>,
    pub value: Value,
}

impl<const NUM_BITS: usize, const RANGE: usize> MyCircuit<NUM_BITS, RANGE> {
    /// The circuit's column of bit lengths in a description.
    pub open spec fn num_bits_column(cs: ConstraintSystemView) -> Column {
        Column { kind: Any::Advice, index: cs.advice.len() as usize }
    }

    /// The circuit's column of values in a description.
    pub open spec fn value_column(cs: ConstraintSystemView) -> Column {
        Column { kind: Any::Advice, index: (cs.advice.len() + 1) as usize }
    }

    /// The description with the circuit's two advice columns.
    pub open spec fn with_columns(cs: ConstraintSystemView) -> ConstraintSystemView {
        ConstraintSystemView { advice: cs.advice.push(false).push(false), ..cs }
    }
}

impl<const NUM_BITS: usize, const RANGE: usize> Circuit for MyCircuit<NUM_BITS, RANGE> {
    type Config = RangeCheckConfig<NUM_BITS, RANGE>;

    open spec fn configured(cs: ConstraintSystemView) -> ConstraintSystemView {
        RangeCheckConfig::<NUM_BITS, RANGE>::configured(
            Self::with_columns(cs),
            Self::num_bits_column(cs),
            Self::value_column(cs),
            1,
            0,
        )
    }

    open spec fn describes(cs: ConstraintSystemView, config: RangeCheckConfig<NUM_BITS, RANGE>) -> bool {
        config == RangeCheckConfig::<NUM_BITS, RANGE>::config_of(
            Self::with_columns(cs),
            Self::num_bits_column(cs),
            Self::value_column(cs),
        )
    }

    open spec fn synthesized(&self, config: RangeCheckConfig<NUM_BITS, RANGE>, s: Session) -> Outcome {
        let r = s.try_load("load range-check table"@, config.table.table());
        and_then(r, |t: Session| config.assigned(t, self.num_bits, self.value@))
    }

    open spec fn lacks_witnesses(&self) -> bool {
        self.num_bits is None && self.value == Value::Unknown
    }

    fn without_witnesses(&self) -> (r: MyCircuit<NUM_BITS, RANGE>) {
        MyCircuit { num_bits: None, value: Value::Unknown }
    }

    fn configure(meta: &mut ConstraintSystem) -> (config: RangeCheckConfig<NUM_BITS, RANGE>) {
        let num_bits = meta.advice_column();
        let value = meta.advice_column();
        assert(meta@ =~= Self::with_columns(old(meta)@));
        RangeCheckConfig::configure(meta, num_bits, value)
    }

    fn synthesize(&self, config: RangeCheckConfig<NUM_BITS, RANGE>, layouter: &mut Layouter) -> (r:
        Result<(), Error>) {
        config.table.load(layouter)?;
        config.assign(layouter, self.num_bits, self.value)?;
        Ok(())
    }
}

/// The session that the circuit leaves on a value and a bit length once
/// its table is loaded into the session `loaded`: a region of one row below
/// the table.
pub open spec fn assigned_session<const NUM_BITS: usize, const RANGE: usize>(
    config: RangeCheckConfig<NUM_BITS, RANGE>,
    loaded: Session,
    num_bits: Option<nat>,
    value: Option<nat>,
) -> Session {
    let row = loaded.next_row();
    Session {
        cells: loaded.cells.insert((config.num_bits, row as int), num_bits).insert(
            (config.value, row as int),
            value,
        ),
        selectors: loaded.selectors.insert((config.q_lookup.index as int, row as int)),
        regions: loaded.regions.push(RegionView { name: "Assign value"@, start: row, rows: 1 }),
        ..loaded
    }
}

/// Run on rows enough for the table and the value, the circuit loads the
/// table and leaves the session with its one region. The result is the
/// session with the table alone.
pub proof fn lemma_runs<const NUM_BITS: usize, const RANGE: usize>(
    circuit: MyCircuit<NUM_BITS, RANGE>,
    config: RangeCheckConfig<NUM_BITS, RANGE>,
    k: u32,
) -> (loaded: Session)
    requires
        MyCircuit::<NUM_BITS, RANGE>::describes(ConstraintSystemView::empty(), config),
        k < 32,
        RANGE + 7 <= vstd::arithmetic::power2::pow2(k as nat),
    ensures
        ({
            let start = Session::initial(
                MyCircuit::<NUM_BITS, RANGE>::configured(ConstraintSystemView::empty()),
                k,
                Seq::empty(),
                false,
            );
            &&& loaded == start.loaded("load range-check table"@, config.table.table())
            &&& loaded.next_row() == RANGE
            &&& holds_tagged_range(loaded, config.table)
            &&& forall|column: Column, row: int|
                column.kind != Any::Fixed ==> loaded.read(column, row) is None
            &&& loaded.selectors == start.selectors
            &&& loaded.copies == start.copies
            &&& loaded.cs == start.cs
            &&& loaded.usable_rows == start.usable_rows
            &&& loaded.instance == start.instance
            &&& loaded.bound_rows == start.bound_rows
            &&& MockProver::ran(&circuit, config, k, Seq::empty(), false) == Ok::<Session, Error>(
                assigned_session(
                    config,
                    loaded,
                    RangeCheckConfig::<NUM_BITS, RANGE>::bits_value(circuit.num_bits),
                    circuit.value@,
                ),
            )
        }),
{
    let cs = MyCircuit::<NUM_BITS, RANGE>::configured(ConstraintSystemView::empty());
    vstd::arithmetic::power2::lemma_pow2_strictly_increases(k as nat, 32);
    vstd::arithmetic::power2::lemma2_to64();
    let usable = vstd::arithmetic::power2::pow2(k as nat) - 6;
    assert(cs.rotations_within(usable)) by {
        reveal_with_fuel(Expr::rotations_within, 6);
        assert(switched(config.q_lookup, config.num_bits, 1).rotations_within(usable));
        assert(switched(config.q_lookup, config.value, 0).rotations_within(usable));
    }
    assert(cs.selectors_apart());
    let start = Session::initial(cs, k, Seq::empty(), false);
    let name = "load range-check table"@;
    let table = config.table.table();
    assert(start.table_columns_error(table, 2) is None) by {
        reveal_with_fuel(Session::table_columns_error, 3);
        assert(start.table_column_error(table, 0) is None);
        assert(start.table_column_error(table, 1) is None);
    }
    assert(Session::table_height(table, 2) == RANGE) by {
        reveal_with_fuel(Session::table_height, 3);
    }
    let loaded = start.loaded(name, table);
    start.lemma_loaded_frame(name, table);
    lemma_table_loaded(start, config.table);
    let s1 = loaded.entered("Assign value"@);
    let s2 = s1.enabled(config.q_lookup, 0);
    let s3 = s2.assigned(
        config.num_bits,
        0,
        RangeCheckConfig::<NUM_BITS, RANGE>::bits_value(circuit.num_bits),
    );
    let s4 = s3.assigned(config.value, 0, circuit.value@);
    let s5 = s4.exited();
    assert(config.assigned(loaded, circuit.num_bits, circuit.value@) == Outcome::ok(s5));
    assert(s5 =~= assigned_session(
        config,
        loaded,
        RangeCheckConfig::<NUM_BITS, RANGE>::bits_value(circuit.num_bits),
        circuit.value@,
    ));
    loaded
}

/// The circuit accepts exactly where the value is below `RANGE` and the bit
/// length that goes with it is its tag. The rows on which nothing is
/// assigned pass, since the default pair of one digit and the value zero is
/// the first row of the table.
pub proof fn lemma_accepts_iff_tagged<const NUM_BITS: usize, const RANGE: usize>(
    circuit: MyCircuit<NUM_BITS, RANGE>,
    config: RangeCheckConfig<NUM_BITS, RANGE>,
    k: u32,
    num_bits: u8,
    v: nat,
)
    requires
        MyCircuit::<NUM_BITS, RANGE>::describes(ConstraintSystemView::empty(), config),
        k < 32,
        0 < RANGE,
        RANGE + 7 <= vstd::arithmetic::power2::pow2(k as nat),
        circuit.num_bits == Some(num_bits),
        circuit.value@ == Some(v),
        v < modulus(),
    ensures
        MockProver::ran(&circuit, config, k, Seq::empty(), false) matches Ok(s) && (
        s.failures().len() == 0 <==> v < RANGE && num_bits == tag(v)),
{
    let loaded = lemma_runs(circuit, config, k);
    let s = assigned_session(config, loaded, Some(num_bits as nat), Some(v));
    let first = RANGE as int;
    assert forall|row: int| #[trigger] s.value_at(config.value, row) == Some(
        if row == first {
            v
        } else {
            0
        },
    ) by {
        assert(loaded.read(config.value, row) is None);
    }
    assert forall|row: int| #[trigger] s.value_at(config.num_bits, row) == Some(
        if row == first {
            num_bits as nat
        } else {
            0
        },
    ) by {
        assert(loaded.read(config.num_bits, row) is None);
    }
    assert(holds_tagged_range(s, config.table)) by {
        let start = s.tables[config.table.num_bits.index as int];
        assert forall|j: int| 0 <= j < RANGE implies #[trigger] s.read(
            fixed_of(config.table.num_bits),
            start + j,
        ) == Some(Some(tag(j as nat))) by {
            assert(loaded.read(fixed_of(config.table.num_bits), start + j) == Some(
                Some(tag(j as nat)),
            ));
        }
        assert forall|j: int| 0 <= j < RANGE implies #[trigger] s.read(
            fixed_of(config.table.value),
            start + j,
        ) == Some(Some(j as nat)) by {
            assert(loaded.read(fixed_of(config.table.value), start + j) == Some(Some(j as nat)));
        }
    }
    assert forall|row: int| 0 <= row < s.usable_rows implies ((#[trigger] s.lookup_failure(0, row))
        is None <==> (row == first ==> v < RANGE && num_bits == tag(v))) by {
        let bits: nat = if row == first {
            num_bits as nat
        } else {
            0
        };
        let x: nat = if row == first {
            v
        } else {
            0
        };
        assert(s.value_at(config.num_bits, row) == Some(bits));
        assert(s.value_at(config.value, row) == Some(x));
        lemma_tagged_lookup(s, config, 1, 0, 0, row, bits, x);
    }
    assert(s.configuration_error() is None);
    s.lemma_accepts_iff_satisfied();
    if v < RANGE && num_bits == tag(v) {
        assert(s.satisfied());
    } else {
        assert(s.lookup_failure(0, first) is Some);
    }
}

} // verus!
