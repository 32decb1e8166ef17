//! A lookup table of the values `0, ..., RANGE - 1`, with a second column
//! that tags each value with its bit length: one for zero and one, two for
//! two and three, three for four to seven, and so on.

use crate::constraint_system::ConstraintSystem;
use crate::constraint_system::ConstraintSystemView;
use crate::constraint_system::FixedColumn;
use crate::expression::TableColumn;
use crate::field::Fp;
use crate::layouter::table_view;
use crate::layouter::values_view;
use crate::layouter::Layouter;
use crate::layouter::TableColumnValues;
use crate::range_check::tag;
use crate::range_check::lemma_bit_length;
use crate::session::agrees;
use crate::session::Error;
use crate::session::TableColumnView;
use vstd::arithmetic::power2::lemma2_to64;
use vstd::arithmetic::power2::lemma_pow2_unfold;
use vstd::arithmetic::power2::pow2;
use vstd::prelude::*;

verus! {

/// The two columns of the table.
#[derive(Clone, Copy, Debug)]
pub struct RangeTableConfig<const RANGE: usize> {
    pub value: TableColumn,
    pub num_bits: TableColumn,
}

/// The numbers `0, ..., n - 1`.
pub open spec fn range_values(n: nat) -> Seq<nat> {
    Seq::new(n, |i: int| i as nat)
}

/// The bit-length tags of the numbers `0, ..., n - 1`.
pub open spec fn range_tags(n: nat) -> Seq<nat> {
    Seq::new(n, |i: int| tag(i as nat))
}

impl<const RANGE: usize> RangeTableConfig<RANGE> {
    /// The table: the values in one column and their tags in the other.
    pub open spec fn table(self) -> Seq<TableColumnView> {
        seq![
            TableColumnView { column: self.value, values: range_values(RANGE as nat) },
            TableColumnView { column: self.num_bits, values: range_tags(RANGE as nat) },
        ]
    }

    /// The description with the table's two columns.
    pub open spec fn configured(cs: ConstraintSystemView) -> ConstraintSystemView {
        ConstraintSystemView {
            fixed: cs.fixed.push(FixedColumn { equality: false, table_rows: Some(RANGE) }).push(
                FixedColumn { equality: false, table_rows: Some(RANGE) },
            ),
            ..cs
        }
    }

    /// The configuration that `configure` returns.
    pub open spec fn config_of(cs: ConstraintSystemView) -> RangeTableConfig<RANGE> {
        RangeTableConfig {
            value: TableColumn { index: cs.fixed.len() as usize },
            num_bits: TableColumn { index: (cs.fixed.len() + 1) as usize },
        }
    }

    /// Declares the table: two columns of `RANGE` rows.
    pub fn configure(meta: &mut ConstraintSystem) -> (r: RangeTableConfig<RANGE>)
        ensures
            r == RangeTableConfig::<RANGE>::config_of(old(meta)@),
            final(meta)@ == RangeTableConfig::<RANGE>::configured(old(meta)@),
    {
        let value = meta.lookup_table_column(RANGE);
        let num_bits = meta.lookup_table_column(RANGE);
        RangeTableConfig { value, num_bits }
    }

    /// Loads the table.
    pub fn load(&self, layouter: &mut Layouter) -> (r: Result<(), Error>)
        requires
            old(layouter).wf(),
        ensures
            final(layouter).wf(),
            agrees(
                old(layouter)@.try_load("load range-check table"@, self.table()),
                r,
                final(layouter)@,
            ),
            r is Err ==> final(layouter)@ == old(layouter)@,
    {
        // The values.
        let mut values: Vec<Fp> = Vec::new();
        let mut value: usize = 0;
        while value < RANGE
            invariant
                value <= RANGE,
                values.len() == value,
                forall|i: int| 0 <= i < value ==> (#[trigger] values[i])@ == i,
            decreases RANGE - value,
        {
            values.push(Fp::from_u128(value as u128));
            value = value + 1;
        }

        // The tag of each value. Zero and one have one digit; from there on
        // the values of one length are as many as the power of two that goes
        // with it, and the length grows by one once they are all written.
        let mut tags: Vec<Fp> = Vec::new();
        let mut bit_count: u128 = 0;
        let mut curr_pow2: u128 = 1;
        let mut current_bits: u64 = 1;
        value = 0;
        proof {
            lemma2_to64();
        }
        while value < RANGE
            invariant
                value <= RANGE,
                tags.len() == value,
                forall|i: int| 0 <= i < value ==> (#[trigger] tags[i])@ == tag(i as nat),
                1 <= current_bits,
                curr_pow2 == pow2((current_bits - 1) as nat),
                value == 0 ==> current_bits == 1 && bit_count == 0,
                value >= 1 ==> value == curr_pow2 + bit_count && bit_count < curr_pow2
                    && current_bits <= value,
            decreases RANGE - value,
        {
            proof {
                lemma2_to64();
                lemma_pow2_unfold(current_bits as nat);
                if value >= 1 {
                    lemma_bit_length(value as nat, (current_bits - 1) as nat);
                }
            }
            tags.push(Fp::from_u64(current_bits));
            if value >= 1 {
                bit_count = bit_count + 1;
                if bit_count >= curr_pow2 {
                    bit_count = 0;
                    current_bits = current_bits + 1;
                    curr_pow2 = curr_pow2 * 2;
                }
            }
            value = value + 1;
        }

        assert(values_view(values@) =~= range_values(RANGE as nat));
        assert(values_view(tags@) =~= range_tags(RANGE as nat));
        let mut table: Vec<TableColumnValues> = Vec::new();
        table.push(TableColumnValues { column: self.value, values });
        table.push(TableColumnValues { column: self.num_bits, values: tags });
        assert(table_view(table@) =~= self.table());
        layouter.assign_table("load range-check table", &table)
    }
}

} // verus!
