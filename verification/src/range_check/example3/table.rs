//! A lookup table of the values `0, ..., RANGE - 1`, each tagged with the
//! number of its binary digits. Zero counts as a value of one digit, so the
//! tags run from one to `NUM_BITS` where `RANGE` is `2^NUM_BITS`.

use crate::constraint_system::ConstraintSystem;
use crate::constraint_system::ConstraintSystemView;
use crate::constraint_system::FixedColumn;
use crate::expression::TableColumn;
use crate::field::Fp;
use crate::layouter::table_view;
use crate::layouter::values_view;
use crate::layouter::Layouter;
use crate::layouter::TableColumnValues;
use crate::range_check::tag;
use crate::range_check::count_bits;
use crate::session::agrees;
use crate::session::Error;
use crate::session::TableColumnView;
use vstd::prelude::*;

verus! {

/// The two columns of the table.
#[derive(Clone, Copy, Debug)]
pub struct RangeTableConfig<const NUM_BITS: usize, const RANGE: usize> {
    pub num_bits: TableColumn,
    pub value: TableColumn,
}

/// The numbers `0, ..., n - 1`.
pub open spec fn range_values(n: nat) -> Seq<nat> {
    Seq::new(n, |i: int| i as nat)
}

/// The tags of the numbers `0, ..., n - 1`.
pub open spec fn range_tags(n: nat) -> Seq<nat> {
    Seq::new(n, |i: int| tag(i as nat))
}

impl<const NUM_BITS: usize, const RANGE: usize> RangeTableConfig<NUM_BITS, RANGE> {
    /// The table: the tags in one column and the values in the other.
    pub open spec fn table(self) -> Seq<TableColumnView> {
        seq![
            TableColumnView { column: self.num_bits, values: range_tags(RANGE as nat) },
            TableColumnView { column: self.value, values: range_values(RANGE as nat) },
        ]
    }

    /// The description with the table's two columns.
    pub open spec fn configured(cs: ConstraintSystemView) -> ConstraintSystemView {
        ConstraintSystemView {
            fixed: cs.fixed.push(FixedColumn { equality: false, table_rows: Some(RANGE) }).push(
                FixedColumn { equality: false, table_rows: Some(RANGE) },
            ),
            ..cs
        }
    }

    /// The configuration that `configure` returns.
    pub open spec fn config_of(cs: ConstraintSystemView) -> RangeTableConfig<NUM_BITS, RANGE> {
        RangeTableConfig {
            num_bits: TableColumn { index: cs.fixed.len() as usize },
            value: TableColumn { index: (cs.fixed.len() + 1) as usize },
        }
    }

    /// Declares the table: two columns of `RANGE` rows.
    pub fn configure(meta: &mut ConstraintSystem) -> (r: RangeTableConfig<NUM_BITS, RANGE>)
        ensures
            r == RangeTableConfig::<NUM_BITS, RANGE>::config_of(old(meta)@),
            final(meta)@ == RangeTableConfig::<NUM_BITS, RANGE>::configured(old(meta)@),
    {
        let num_bits = meta.lookup_table_column(RANGE);
        let value = meta.lookup_table_column(RANGE);
        RangeTableConfig { num_bits, value }
    }

    /// Loads the table.
    pub fn load(&self, layouter: &mut Layouter) -> (r: Result<(), Error>)
        requires
            old(layouter).wf(),
        ensures
            final(layouter).wf(),
            agrees(
                old(layouter)@.try_load("load range-check table"@, self.table()),
                r,
                final(layouter)@,
            ),
            r is Err ==> final(layouter)@ == old(layouter)@,
    {
        let mut tags: Vec<Fp> = Vec::new();
        let mut values: Vec<Fp> = Vec::new();
        let mut value: usize = 0;
        while value < RANGE
            invariant
                value <= RANGE,
                values.len() == value,
                tags.len() == value,
                forall|i: int| 0 <= i < value ==> (#[trigger] values[i])@ == i,
                forall|i: int| 0 <= i < value ==> (#[trigger] tags[i])@ == tag(i as nat),
            decreases RANGE - value,
        {
            let num_bits: u64 = if value == 0 {
                1
            } else {
                count_bits(value)
            };
            tags.push(Fp::from_u64(num_bits));
            values.push(Fp::from_u64(value as u64));
            value = value + 1;
        }
        assert(values_view(values@) =~= range_values(RANGE as nat));
        assert(values_view(tags@) =~= range_tags(RANGE as nat));
        let mut table: Vec<TableColumnValues> = Vec::new();
        table.push(TableColumnValues { column: self.num_bits, values: tags });
        table.push(TableColumnValues { column: self.value, values });
        assert(table_view(table@) =~= self.table());
        layouter.assign_table("load range-check table", &table)
    }
}

} // verus!
