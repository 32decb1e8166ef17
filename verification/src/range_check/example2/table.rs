//! A lookup table of the values `0, ..., RANGE - 1`.

use crate::constraint_system::ConstraintSystem;
use crate::constraint_system::ConstraintSystemView;
use crate::constraint_system::FixedColumn;
use crate::expression::TableColumn;
use crate::field::Fp;
use crate::layouter::table_view;
use crate::layouter::values_view;
use crate::layouter::Layouter;
use crate::layouter::TableColumnValues;
use crate::session::agrees;
use crate::session::Error;
use crate::session::TableColumnView;
use vstd::prelude::*;

verus! {

/// The column of the table.
#[derive(Clone, Copy, Debug)]
pub struct RangeTableConfig<const RANGE: usize> {
    pub value: TableColumn,
}

/// The numbers `0, ..., n - 1`.
pub open spec fn range_values(n: nat) -> Seq<nat> {
    Seq::new(n, |i: int| i as nat)
}

impl<const RANGE: usize> RangeTableConfig<RANGE> {
    /// The table: one column that holds `0, ..., RANGE - 1`.
    pub open spec fn table(self) -> Seq<TableColumnView> {
        seq![TableColumnView { column: self.value, values: range_values(RANGE as nat) }]
    }

    /// The description with the table's column.
    pub open spec fn configured(cs: ConstraintSystemView) -> ConstraintSystemView {
        ConstraintSystemView {
            fixed: cs.fixed.push(FixedColumn { equality: false, table_rows: Some(RANGE) }),
            ..cs
        }
    }

    /// The configuration that `configure` returns.
    pub open spec fn config_of(cs: ConstraintSystemView) -> RangeTableConfig<RANGE> {
        RangeTableConfig { value: TableColumn { index: cs.fixed.len() as usize } }
    }

    /// Declares the table: one column of `RANGE` rows.
    pub fn configure(meta: &mut ConstraintSystem) -> (r: RangeTableConfig<RANGE>)
        ensures
            r == RangeTableConfig::<RANGE>::config_of(old(meta)@),
            final(meta)@ == RangeTableConfig::<RANGE>::configured(old(meta)@),
    {
        let value = meta.lookup_table_column(RANGE);
        RangeTableConfig { value }
    }

    /// Loads the table.
    pub fn load(&self, layouter: &mut Layouter) -> (r: Result<(), Error>)
        requires
            old(layouter).wf(),
        ensures
            final(layouter).wf(),
            agrees(
                old(layouter)@.try_load("load range-check table"@, self.table()),
                r,
                final(layouter)@,
            ),
            r is Err ==> final(layouter)@ == old(layouter)@,
    {
        let mut values: Vec<Fp> = Vec::new();
        let mut value: usize = 0;
        while value < RANGE
            invariant
                value <= RANGE,
                values.len() == value,
                forall|i: int| 0 <= i < value ==> (#[trigger] values[i])@ == i,
            decreases RANGE - value,
        {
            values.push(Fp::from_u64(value as u64));
            value = value + 1;
        }
        assert(values_view(values@) =~= range_values(RANGE as nat));
        let mut table: Vec<TableColumnValues> = Vec::new();
        table.push(TableColumnValues { column: self.value, values });
        assert(table_view(table@) =~= self.table());
        layouter.assign_table("load range-check table", &table)
    }
}

} // verus!
