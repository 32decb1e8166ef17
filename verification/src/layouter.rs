//! An assignment session: the one writer of a circuit's witness.
//!
//! A [`Layouter`] takes over a finished [`ConstraintSystem`] together with the
//! public inputs, and is then handed to the circuit's synthesis, which opens
//! regions and writes cells, selectors and copy constraints into it. Nothing
//! is checked while it is written; the checker reads it afterwards.

use crate::constraint_system::ConstraintSystem;
use crate::expression::Any;
use crate::expression::Column;
use crate::expression::Selector;
use crate::expression::TableColumn;
use crate::field::Fp;
use crate::session::fixed_of;
use crate::session::AssignedCell;
use crate::session::AssignedCellView;
use crate::session::Cell;
use crate::session::Error;
use crate::session::Reason;
use crate::session::RegionView;
use crate::session::Session;
use crate::session::TableColumnView;
use crate::value::Value;
use vstd::arithmetic::power2::lemma2_to64;
use vstd::arithmetic::power2::lemma_pow2_unfold;
use vstd::arithmetic::power2::lemma_pow2_strictly_increases;
use vstd::arithmetic::power2::pow2;
use vstd::prelude::*;

verus! {

/// A named span of rows.
#[derive(Clone, Copy, Debug)]
pub struct Region {
    pub name: &'static str,
    pub start: usize,
    pub rows: usize,
}

impl View for Region {
    type V = RegionView;

    open spec fn view(&self) -> RegionView {
        RegionView { name: self.name@, start: self.start as nat, rows: self.rows as nat }
    }
}

/// One column of a lookup table with the values of its rows.
#[derive(Debug)]
pub struct TableColumnValues {
    pub column: TableColumn,
    pub values: Vec<Fp>,
}

/// The numbers that field elements stand for.
pub open spec fn values_view(values: Seq<Fp>) -> Seq<nat> {
    values.map_values(|x: Fp| x@)
}

/// The numbers that the public inputs stand for.
pub open spec fn instance_view(instance: Seq<Vec<Fp>>) -> Seq<Seq<nat>> {
    instance.map_values(|column: Vec<Fp>| values_view(column@))
}

impl View for TableColumnValues {
    type V = TableColumnView;

    open spec fn view(&self) -> TableColumnView {
        TableColumnView { column: self.column, values: values_view(self.values@) }
    }
}

/// The columns of a table as the model has them.
pub open spec fn table_view(table: Seq<TableColumnValues>) -> Seq<TableColumnView> {
    table.map_values(|entry: TableColumnValues| entry@)
}

/// A vector of `n` copies of `x`.
fn filled<T: Copy>(n: usize, x: T) -> (r: Vec<T>)
    ensures
        r.len() == n,
        forall|i: int| 0 <= i < n ==> r[i] == x,
{
    let mut r: Vec<T> = Vec::new();
    let mut i: usize = 0;
    while i < n
        invariant
            i <= n,
            r.len() == i,
            forall|j: int| 0 <= j < i ==> r[j] == x,
        decreases n - i,
    {
        r.push(x);
        i = i + 1;
    }
    r
}

/// A grid of `columns` columns of `rows` copies of `x` each.
fn filled_grid<T: Copy>(columns: usize, rows: usize, x: T) -> (r: Vec<Vec<T>>)
    ensures
        r.len() == columns,
        forall|c: int| 0 <= c < columns ==> (#[trigger] r[c]).len() == rows,
        forall|c: int, i: int| 0 <= c < columns && 0 <= i < rows ==> (#[trigger] r[c][i]) == x,
{
    let mut r: Vec<Vec<T>> = Vec::new();
    let mut c: usize = 0;
    while c < columns
        invariant
            c <= columns,
            r.len() == c,
            forall|d: int| 0 <= d < c ==> (#[trigger] r[d]).len() == rows,
            forall|d: int, i: int| 0 <= d < c && 0 <= i < rows ==> (#[trigger] r[d][i]) == x,
        decreases columns - c,
    {
        r.push(filled(rows, x));
        c = c + 1;
    }
    r
}

/// Writes one entry of a grid.
fn set_entry<T>(grid: &mut Vec<Vec<T>>, column: usize, row: usize, x: T)
    requires
        column < old(grid).len(),
        row < old(grid)[column as int].len(),
    ensures
        final(grid).len() == old(grid).len(),
        forall|c: int| 0 <= c < old(grid).len() && c != column ==> final(grid)[c] == old(grid)[c],
        final(grid)[column as int]@ == old(grid)[column as int]@.update(row as int, x),
{
    grid[column][row] = x;
}

/// Two to the power of `k`.
fn row_count(k: u32) -> (n: usize)
    requires
        k < 32,
    ensures
        n == pow2(k as nat),
        n < 0x1_0000_0000,
{
    let mut n: usize = 1;
    let mut i: u32 = 0;
    proof {
        lemma2_to64();
    }
    while i < k
        invariant
            i <= k,
            k < 32,
            n == pow2(i as nat),
            pow2(32) == 0x1_0000_0000,
        decreases k - i,
    {
        proof {
            lemma_pow2_unfold((i + 1) as nat);
            lemma_pow2_strictly_increases((i + 1) as nat, 32);
        }
        n = n * 2;
        i = i + 1;
    }
    proof {
        if k < 32 {
            lemma_pow2_strictly_increases(k as nat, 32);
        }
    }
    n
}

/// An assignment session.
#[derive(Debug)]
pub struct Layouter {
    cs: ConstraintSystem,
    rows: usize,
    usable_rows: usize,
    dry_run: bool,
    /// For each advice column and row, what was written there.
    advice: Vec<Vec<Option<Value>>>,
    /// For each fixed column and row, what was written there.
    fixed: Vec<Vec<Option<Value>>>,
    instance: Vec<Vec<Fp>>,
    bound_rows: Vec<usize>,
    /// For each selector and row, whether the selector is enabled there.
    selectors: Vec<Vec<bool>>,
    copies: Vec<(Cell, Cell)>,
    regions: Vec<Region>,
    open: bool,
    /// For each fixed column, the first row of its table once it is loaded.
    table_start: Vec<Option<usize>>,
}

impl Layouter {
    /// What was written to a cell of the advice or fixed columns.
    pub closed spec fn entry(&self, column: Column, row: int) -> Option<Value> {
        match column.kind {
            Any::Advice => if column.index < self.advice.len() && 0 <= row
                < self.advice[column.index as int].len() {
                self.advice[column.index as int][row]
            } else {
                None
            },
            Any::Fixed => if column.index < self.fixed.len() && 0 <= row
                < self.fixed[column.index as int].len() {
                self.fixed[column.index as int][row]
            } else {
                None
            },
            Any::Instance => None,
        }
    }

    /// Whether a selector is enabled on a row.
    pub closed spec fn flag(&self, index: int, row: int) -> bool {
        0 <= index < self.selectors.len() && 0 <= row < self.selectors[index].len()
            && self.selectors[index][row]
    }

    /// The invariant of the session's representation.
    pub closed spec fn wf(&self) -> bool {
        &&& self.rows < 0x1_0000_0000
        &&& self.usable_rows <= self.rows
        &&& self.advice.len() == self.cs.advice.len()
        &&& forall|c: int| 0 <= c < self.advice.len() ==> (#[trigger] self.advice[c]).len() == self.rows
        &&& self.fixed.len() == self.cs.fixed.len()
        &&& forall|c: int| 0 <= c < self.fixed.len() ==> (#[trigger] self.fixed[c]).len() == self.rows
        &&& self.table_start.len() == self.cs.fixed.len()
        &&& self.instance.len() == self.cs.instance.len()
        &&& self.bound_rows.len() == self.instance.len()
        &&& forall|i: int|
            0 <= i < self.instance.len() ==> (#[trigger] self.instance[i]).len() <= self.rows
        &&& self.selectors.len() == self.cs.selectors.len()
        &&& forall|c: int|
            0 <= c < self.selectors.len() ==> (#[trigger] self.selectors[c]).len() == self.rows
        &&& forall|i: int|
            0 <= i < self.regions.len() ==> (#[trigger] self.regions[i]).start
                + self.regions[i].rows <= self.usable_rows
        &&& self.open ==> self.regions.len() > 0
        &&& forall|i: int|
            0 <= i < self.copies.len() ==> self.cs@.equality_enabled(
                (#[trigger] self.copies[i]).0.column,
            ) && self.cs@.equality_enabled(self.copies[i].1.column)
    }
}

impl View for Layouter {
    type V = Session;

    closed spec fn view(&self) -> Session {
        Session {
            cs: self.cs@,
            rows: self.rows as nat,
            usable_rows: self.usable_rows as nat,
            dry_run: self.dry_run,
            cells: Map::new(
                |key: (Column, int)| self.entry(key.0, key.1) is Some,
                |key: (Column, int)| self.entry(key.0, key.1).unwrap()@,
            ),
            instance: instance_view(self.instance@),
            bound_rows: self.bound_rows@.map_values(|n: usize| n as nat),
            selectors: Set::new(|key: (int, int)| self.flag(key.0, key.1)),
            copies: self.copies@,
            regions: self.regions@.map_values(|r: Region| r@),
            open: self.open,
            tables: Map::new(
                |i: int| 0 <= i < self.table_start.len() && self.table_start[i] is Some,
                |i: int| self.table_start[i].unwrap() as nat,
            ),
        }
    }
}

impl Layouter {
    /// Starts a session on a finished circuit with its public inputs, one
    /// sequence for each instance column. The session has `2^k` rows, of
    /// which the circuit's blinding rows at the end are not usable.
    pub fn new(cs: ConstraintSystem, k: u32, instance: Vec<Vec<Fp>>, dry_run: bool) -> (r: Result<
        Layouter,
        Error,
    >)
        ensures
            match r {
                Ok(layouter) => Session::initial_error(cs@, k, instance_view(instance@)) is None
                    && layouter.wf() && layouter@ == Session::initial(
                    cs@,
                    k,
                    instance_view(instance@),
                    dry_run,
                ),
                Err(e) => Session::initial_error(cs@, k, instance_view(instance@)) == Some(e),
            },
    {
        if k >= 32 {
            return Err(Error::Configuration(Reason::TooManyRows));
        }
        let rows = row_count(k);
        if cs.blinding_rows > rows {
            return Err(Error::Configuration(Reason::NotEnoughRows));
        }
        let usable_rows = rows - cs.blinding_rows;
        if instance.len() != cs.instance.len() {
            return Err(Error::Configuration(Reason::InstanceCountMismatch));
        }
        let ghost public = instance_view(instance@);
        let mut i: usize = 0;
        while i < instance.len()
            invariant
                i <= instance.len(),
                k < 32,
                rows == pow2(k as nat),
                usable_rows == rows - cs.blinding_rows,
                instance.len() == cs.instance.len(),
                public == instance_view(instance@),
                forall|j: int| 0 <= j < i ==> (#[trigger] public[j]).len() <= usable_rows,
                forall|j: int| 0 <= j < i ==> (#[trigger] instance[j]).len() <= usable_rows,
            decreases instance.len() - i,
        {
            assert(public[i as int] == values_view(instance[i as int]@));
            if instance[i].len() > usable_rows {
                assert(public[i as int].len() > usable_rows);
                assert(0 <= i < public.len());
                return Err(Error::Configuration(Reason::InstanceLengthMismatch));
            }
            i = i + 1;
        }
        if !cs.rotations_within(usable_rows) {
            return Err(Error::Configuration(Reason::RotationOutOfRange));
        }
        if !cs.selectors_apart() {
            return Err(Error::Configuration(Reason::SelectorNotAlone));
        }
        let advice = filled_grid(cs.advice.len(), rows, None);
        let fixed = filled_grid(cs.fixed.len(), rows, None);
        let selectors = filled_grid(cs.selectors.len(), rows, false);
        let bound_rows = filled(instance.len(), 0usize);
        let table_start = filled(cs.fixed.len(), None);
        let layouter = Layouter {
            cs,
            rows,
            usable_rows,
            dry_run,
            advice,
            fixed,
            instance,
            bound_rows,
            selectors,
            copies: Vec::new(),
            regions: Vec::new(),
            open: false,
            table_start,
        };
        proof {
            let start = Session::initial(cs@, k, public, dry_run);
            assert(layouter@.cells =~= start.cells);
            assert(layouter@.bound_rows =~= start.bound_rows);
            assert(layouter@.selectors =~= start.selectors);
            assert(layouter@.copies =~= start.copies);
            assert(layouter@.regions =~= start.regions);
            assert(layouter@.tables =~= start.tables);
        }
        Ok(layouter)
    }

    /// A layouter's session is valid.
    pub proof fn lemma_valid(&self)
        requires
            self.wf(),
        ensures
            self@.valid(),
    {
        assert forall|i: int| 0 <= i < self@.regions.len() implies (#[trigger] self@.regions[i]).start
            + self@.regions[i].rows <= self@.usable_rows by {
            assert(self@.regions[i] == self.regions[i]@);
        }
        assert forall|i: int| 0 <= i < self@.instance.len() implies (#[trigger] self@.instance[i]).len()
            <= self@.rows by {
            assert(self@.instance[i] == values_view(self.instance[i]@));
        }
        assert forall|i: int| 0 <= i < self@.copies.len() implies self@.cs.equality_enabled(
            (#[trigger] self@.copies[i]).0.column,
        ) && self@.cs.equality_enabled(self@.copies[i].1.column) by {
            assert(self@.copies[i] == self.copies[i]);
        }
    }

    /// The absolute row of an offset in the open region, if it is usable.
    fn place(&self, offset: usize) -> (r: Option<usize>)
        requires
            self.wf(),
            self@.open,
        ensures
            match r {
                Some(row) => row == self@.row_of(offset as nat) && row < self@.usable_rows,
                None => self@.row_of(offset as nat) >= self@.usable_rows,
            },
    {
        let start = self.regions[self.regions.len() - 1].start;
        assert(self@.regions.last() == self.regions[self.regions.len() - 1]@);
        if offset >= self.usable_rows - start {
            None
        } else {
            Some(start + offset)
        }
    }

    /// Makes the open region reach at least to `offset`.
    fn grow(&mut self, offset: usize)
        requires
            old(self).wf(),
            old(self)@.open,
            old(self)@.row_of(offset as nat) < old(self)@.usable_rows,
        ensures
            final(self).wf(),
            final(self)@ == (Session { regions: old(self)@.grown(offset as nat), ..old(self)@ }),
    {
        let last = self.regions.len() - 1;
        let region = self.regions[last];
        assert(self@.regions.last() == region@);
        if offset + 1 > region.rows {
            self.regions.set(last, Region { name: region.name, start: region.start, rows: offset + 1 });
        }
        assert(self@ =~= (Session { regions: old(self)@.grown(offset as nat), ..old(self)@ }));
    }

    /// Writes a value to a cell of an advice column.
    fn write_advice(&mut self, column: Column, row: usize, value: Value)
        requires
            old(self).wf(),
            old(self)@.is_advice(column),
            row < old(self)@.rows,
        ensures
            final(self).wf(),
            final(self)@ == (Session {
                cells: old(self)@.cells.insert((column, row as int), value@),
                ..old(self)@
            }),
    {
        set_entry(&mut self.advice, column.index, row, Some(value));
        assert(self@ =~= (Session {
            cells: old(self)@.cells.insert((column, row as int), value@),
            ..old(self)@
        }));
    }

    /// Records that an instance binding reaches `row` of an instance column.
    fn bind(&mut self, index: usize, row: usize)
        requires
            old(self).wf(),
            index < old(self)@.instance.len(),
            row < old(self)@.instance[index as int].len(),
        ensures
            final(self).wf(),
            final(self)@ == (Session {
                bound_rows: old(self)@.bound(index as int, row as nat),
                ..old(self)@
            }),
    {
        assert(self@.instance[index as int] == values_view(self.instance[index as int]@));
        assert(row < self.instance[index as int].len());
        if row + 1 > self.bound_rows[index] {
            self.bound_rows.set(index, row + 1);
        }
        assert(self@ =~= (Session {
            bound_rows: old(self)@.bound(index as int, row as nat),
            ..old(self)@
        }));
    }

    /// Records that two cells must hold equal values.
    fn push_copy(&mut self, a: Cell, b: Cell)
        requires
            old(self).wf(),
            old(self)@.cs.equality_enabled(a.column),
            old(self)@.cs.equality_enabled(b.column),
        ensures
            final(self).wf(),
            final(self)@ == (Session { copies: old(self)@.copies.push((a, b)), ..old(self)@ }),
    {
        self.copies.push((a, b));
        assert(self@ =~= (Session { copies: old(self)@.copies.push((a, b)), ..old(self)@ }));
    }

    /// Whether the circuit has this column and it is an advice column.
    fn is_advice(&self, column: Column) -> (r: bool)
        requires
            self.wf(),
        ensures
            r == self@.is_advice(column),
    {
        match column.kind {
            Any::Advice => column.index < self.advice.len(),
            _ => false,
        }
    }

    /// Whether the circuit has this column and it is an instance column.
    fn is_instance(&self, column: Column) -> (r: bool)
        requires
            self.wf(),
        ensures
            r == self@.is_instance(column),
            r ==> column.index < self@.instance.len(),
    {
        match column.kind {
            Any::Instance => column.index < self.instance.len(),
            _ => false,
        }
    }

    /// Opens a region at the next unused row. Offsets in the calls that
    /// follow are relative to that row, until the region is closed.
    pub fn enter_region(&mut self, name: &'static str) -> (r: Result<(), Error>)
        requires
            old(self).wf(),
        ensures
            final(self).wf(),
            match r {
                Ok(_) => old(self)@.enter_error() is None && final(self)@ == old(self)@.entered(
                    name@,
                ),
                Err(e) => old(self)@.enter_error() == Some(e) && final(self)@ == old(self)@,
            },
    {
        if self.open {
            return Err(Error::Configuration(Reason::RegionAlreadyOpen));
        }
        let start = if self.regions.len() == 0 {
            0
        } else {
            let last = self.regions[self.regions.len() - 1];
            assert(self@.regions.last() == last@);
            last.start + last.rows
        };
        self.regions.push(Region { name, start, rows: 0 });
        self.open = true;
        assert(self@ =~= old(self)@.entered(name@));
        Ok(())
    }

    /// Closes the open region. The next region starts below its last row.
    pub fn exit_region(&mut self) -> (r: Result<(), Error>)
        requires
            old(self).wf(),
        ensures
            final(self).wf(),
            match r {
                Ok(_) => old(self)@.exit_error() is None && final(self)@ == old(self)@.exited(),
                Err(e) => old(self)@.exit_error() == Some(e) && final(self)@ == old(self)@,
            },
    {
        if !self.open {
            return Err(Error::Configuration(Reason::NoRegionOpen));
        }
        self.open = false;
        assert(self@ =~= old(self)@.exited());
        Ok(())
    }

    /// Writes a value to an advice cell of the open region.
    pub fn assign_advice(&mut self, column: Column, offset: usize, value: Value) -> (r: Result<
        AssignedCell,
        Error,
    >)
        requires
            old(self).wf(),
        ensures
            final(self).wf(),
            match r {
                Ok(assigned) => old(self)@.assign_error(column, offset as nat) is None
                    && final(self)@ == old(self)@.assigned(column, offset as nat, value@)
                    && assigned == (AssignedCell {
                    cell: old(self)@.cell_at(column, offset as nat),
                    value,
                }),
                Err(e) => old(self)@.assign_error(column, offset as nat) == Some(e)
                    && final(self)@ == old(self)@,
            },
    {
        if !self.open {
            return Err(Error::Configuration(Reason::NoRegionOpen));
        }
        if !self.is_advice(column) {
            return Err(Error::Configuration(Reason::UnknownColumn));
        }
        let row = match self.place(offset) {
            Some(row) => row,
            None => {
                return Err(Error::Configuration(Reason::NotEnoughRows));
            },
        };
        self.write_advice(column, row, value);
        self.grow(offset);
        Ok(AssignedCell { cell: Cell { column, row }, value })
    }

    /// Writes the public input at `instance_row` of an instance column to an
    /// advice cell of the open region, and binds the two cells together.
    pub fn assign_advice_from_instance(
        &mut self,
        instance: Column,
        instance_row: usize,
        advice: Column,
        offset: usize,
    ) -> (r: Result<AssignedCell, Error>)
        requires
            old(self).wf(),
        ensures
            final(self).wf(),
            match r {
                Ok(assigned) => old(self)@.assign_from_instance_error(
                    instance,
                    instance_row as nat,
                    advice,
                    offset as nat,
                ) is None && final(self)@ == old(self)@.assigned_from_instance(
                    instance,
                    instance_row as nat,
                    advice,
                    offset as nat,
                ) && assigned@ == (AssignedCellView {
                    cell: old(self)@.cell_at(advice, offset as nat),
                    value: Some(old(self)@.instance[instance.index as int][instance_row as int]),
                }),
                Err(e) => old(self)@.assign_from_instance_error(
                    instance,
                    instance_row as nat,
                    advice,
                    offset as nat,
                ) == Some(e) && final(self)@ == old(self)@,
            },
    {
        if !self.open {
            return Err(Error::Configuration(Reason::NoRegionOpen));
        }
        if !self.is_instance(instance) || !self.is_advice(advice) {
            return Err(Error::Configuration(Reason::UnknownColumn));
        }
        if !self.cs.equality_enabled(instance) || !self.cs.equality_enabled(advice) {
            return Err(Error::Configuration(Reason::EqualityNotEnabled));
        }
        assert(self@.instance[instance.index as int] == values_view(
            self.instance[instance.index as int]@,
        ));
        if instance_row >= self.instance[instance.index].len() {
            return Err(Error::Configuration(Reason::InstanceLengthMismatch));
        }
        let row = match self.place(offset) {
            Some(row) => row,
            None => {
                return Err(Error::Configuration(Reason::NotEnoughRows));
            },
        };
        let value = Value::Known(self.instance[instance.index][instance_row]);
        self.write_advice(advice, row, value);
        self.push_copy(Cell { column: instance, row: instance_row }, Cell { column: advice, row });
        self.bind(instance.index, instance_row);
        self.grow(offset);
        Ok(AssignedCell { cell: Cell { column: advice, row }, value })
    }

    /// Writes the value of an assigned cell to an advice cell of the open
    /// region and constrains the two cells to be equal. The constraint is
    /// checked later, against what the cells then hold.
    pub fn copy_advice(&mut self, source: &AssignedCell, column: Column, offset: usize) -> (r:
        Result<AssignedCell, Error>)
        requires
            old(self).wf(),
        ensures
            final(self).wf(),
            match r {
                Ok(assigned) => old(self)@.copy_error(source@, column, offset as nat) is None
                    && final(self)@ == old(self)@.copied(source@, column, offset as nat)
                    && assigned == (AssignedCell {
                    cell: old(self)@.cell_at(column, offset as nat),
                    value: source.value,
                }),
                Err(e) => old(self)@.copy_error(source@, column, offset as nat) == Some(e)
                    && final(self)@ == old(self)@,
            },
    {
        if !self.open {
            return Err(Error::Configuration(Reason::NoRegionOpen));
        }
        if !self.is_advice(column) {
            return Err(Error::Configuration(Reason::UnknownColumn));
        }
        if !self.cs.equality_enabled(source.cell.column) || !self.cs.equality_enabled(column) {
            return Err(Error::Configuration(Reason::EqualityNotEnabled));
        }
        let row = match self.place(offset) {
            Some(row) => row,
            None => {
                return Err(Error::Configuration(Reason::NotEnoughRows));
            },
        };
        if !self.dry_run && !source.value.is_known() {
            return Err(Error::Assignment);
        }
        self.write_advice(column, row, source.value);
        self.push_copy(source.cell, Cell { column, row });
        self.grow(offset);
        Ok(AssignedCell { cell: Cell { column, row }, value: source.value })
    }

    /// Enables a selector on a row of the open region. Nothing disables it
    /// again.
    pub fn enable_selector(&mut self, selector: Selector, offset: usize) -> (r: Result<(), Error>)
        requires
            old(self).wf(),
        ensures
            final(self).wf(),
            match r {
                Ok(_) => old(self)@.enable_error(selector, offset as nat) is None && final(self)@
                    == old(self)@.enabled(selector, offset as nat),
                Err(e) => old(self)@.enable_error(selector, offset as nat) == Some(e) && final(self)@ == old(self)@,
            },
    {
        if !self.open {
            return Err(Error::Configuration(Reason::NoRegionOpen));
        }
        if selector.index >= self.selectors.len() {
            return Err(Error::Configuration(Reason::UnknownSelector));
        }
        let row = match self.place(offset) {
            Some(row) => row,
            None => {
                return Err(Error::Configuration(Reason::NotEnoughRows));
            },
        };
        set_entry(&mut self.selectors, selector.index, row, true);
        assert(self@ =~= (Session {
            selectors: old(self)@.selectors.insert((selector.index as int, row as int)),
            ..old(self)@
        }));
        self.grow(offset);
        Ok(())
    }

    /// Binds an advice cell to the public input at `row` of an instance
    /// column: the public input is written to the cell, and the two cells
    /// are constrained to be equal. Where the cell held another value, the
    /// gates that read it fail.
    pub fn constrain_instance(&mut self, cell: Cell, instance: Column, row: usize) -> (r: Result<
        (),
        Error,
    >)
        requires
            old(self).wf(),
        ensures
            final(self).wf(),
            match r {
                Ok(_) => old(self)@.constrain_error(cell, instance, row as nat) is None && final(self)@ == old(self)@.constrained(cell, instance, row as nat),
                Err(e) => old(self)@.constrain_error(cell, instance, row as nat) == Some(e)
                    && final(self)@ == old(self)@,
            },
    {
        if !self.is_instance(instance) || !self.is_advice(cell.column) {
            return Err(Error::Configuration(Reason::UnknownColumn));
        }
        if !self.cs.equality_enabled(cell.column) || !self.cs.equality_enabled(instance) {
            return Err(Error::Configuration(Reason::EqualityNotEnabled));
        }
        assert(self@.instance[instance.index as int] == values_view(
            self.instance[instance.index as int]@,
        ));
        if row >= self.instance[instance.index].len() {
            return Err(Error::Configuration(Reason::InstanceLengthMismatch));
        }
        if cell.row >= self.usable_rows {
            return Err(Error::Configuration(Reason::NotEnoughRows));
        }
        let value = Value::Known(self.instance[instance.index][row]);
        self.write_advice(cell.column, cell.row, value);
        self.push_copy(cell, Cell { column: instance, row });
        self.bind(instance.index, row);
        Ok(())
    }

    /// Writes the values of one table column from row `start` on and marks
    /// the column as loaded.
    fn write_table_column(&mut self, entry: &TableColumnValues, start: usize)
        requires
            old(self).wf(),
            entry.column.index < old(self)@.cs.fixed.len(),
            start + entry.values.len() <= old(self)@.rows,
        ensures
            final(self).wf(),
            final(self)@ == old(self)@.with_table_column(entry@, start as nat),
    {
        let index = entry.column.index;
        let ghost before = self@;
        let ghost values = values_view(entry.values@);
        let mut r: usize = 0;
        while r < entry.values.len()
            invariant
                r <= entry.values.len(),
                self.wf(),
                index == entry.column.index,
                index < self@.cs.fixed.len(),
                start + entry.values.len() <= self@.rows,
                values == values_view(entry.values@),
                self@ == (Session {
                    cells: before.with_table_column(
                        TableColumnView { column: entry.column, values: values.take(r as int) },
                        start as nat,
                    ).cells,
                    ..before
                }),
            decreases entry.values.len() - r,
        {
            let ghost earlier = self@;
            set_entry(&mut self.fixed, index, start + r, Some(Value::Known(entry.values[r])));
            assert(self@ =~= (Session {
                cells: earlier.cells.insert(
                    (fixed_of(entry.column), start + r),
                    Some(values[r as int]),
                ),
                ..earlier
            }));
            assert(self@ =~= (Session {
                cells: before.with_table_column(
                    TableColumnView { column: entry.column, values: values.take(r + 1) },
                    start as nat,
                ).cells,
                ..before
            }));
            r = r + 1;
        }
        assert(values.take(entry.values.len() as int) =~= values);
        self.table_start.set(index, Some(start));
        assert(self@ =~= before.with_table_column(entry@, start as nat));
    }

    /// Loads a lookup table: writes its columns side by side from the next
    /// unused row on, in a region of their own. Each column must be given
    /// one value for every row that the circuit declares for it.
    pub fn assign_table(&mut self, name: &'static str, table: &Vec<TableColumnValues>) -> (r:
        Result<(), Error>)
        requires
            old(self).wf(),
        ensures
            final(self).wf(),
            match r {
                Ok(_) => old(self)@.table_error(table_view(table@)) is None && final(self)@
                    == old(self)@.loaded(name@, table_view(table@)),
                Err(e) => old(self)@.table_error(table_view(table@)) == Some(e) && final(self)@
                    == old(self)@,
            },
    {
        if self.open {
            return Err(Error::Configuration(Reason::RegionAlreadyOpen));
        }
        let start = if self.regions.len() == 0 {
            0
        } else {
            let last = self.regions[self.regions.len() - 1];
            assert(self@.regions.last() == last@);
            last.start + last.rows
        };
        let ghost model = table_view(table@);
        let ghost before = self@;
        let mut height: usize = 0;
        let mut i: usize = 0;
        while i < table.len()
            invariant
                i <= table.len(),
                self.wf(),
                self@ == before,
                !before.open,
                start == before.next_row(),
                start <= before.usable_rows,
                model == table_view(table@),
                before.table_columns_error(model, i as int) is None,
                height == Session::table_height(model, i as int),
                start + height <= before.usable_rows,
            decreases table.len() - i,
        {
            let entry = &table[i];
            let index = entry.column.index;
            assert(model[i as int] == entry@);
            proof {
                if before.table_column_error(model, i as int) is Some {
                    before.lemma_table_columns_error(model, i as int, table.len() as int);
                }
            }
            if index >= self.fixed.len() {
                return Err(Error::Configuration(Reason::NotATableColumn));
            }
            let size = match self.cs.fixed[index].table_rows {
                Some(size) => size,
                None => {
                    return Err(Error::Configuration(Reason::NotATableColumn));
                },
            };
            if self.table_start[index].is_some() {
                return Err(Error::Configuration(Reason::TableAlreadyLoaded));
            }
            let mut j: usize = 0;
            while j < i
                invariant
                    j <= i,
                    i < table.len(),
                    self.wf(),
                    self@ == before,
                    !before.open,
                    !before.tables.contains_key(index as int),
                    before.cs.table_rows(index as int) is Some,
                    model == table_view(table@),
                    index == table[i as int].column.index,
                    forall|h: int| 0 <= h < j ==> (#[trigger] model[h]).column.index != index,
                    before.table_column_error(model, i as int) is Some
                        ==> before.table_columns_error(model, table.len() as int)
                        == before.table_column_error(model, i as int),
                decreases i - j,
            {
                assert(model[j as int] == table[j as int]@);
                if table[j].column.index == index {
                    assert(model[i as int] == table[i as int]@);
                    return Err(Error::Configuration(Reason::TableAlreadyLoaded));
                }
                j = j + 1;
            }
            if entry.values.len() != size {
                return Err(Error::Configuration(Reason::IncompleteTable));
            }
            if entry.values.len() > self.usable_rows - start {
                return Err(Error::Configuration(Reason::NotEnoughRows));
            }
            if entry.values.len() > height {
                height = entry.values.len();
            }
            i = i + 1;
        }
        let mut i: usize = 0;
        while i < table.len()
            invariant
                i <= table.len(),
                self.wf(),
                model == table_view(table@),
                before.table_columns_error(model, table.len() as int) is None,
                start == before.next_row(),
                self@ == before.with_table_columns(model, start as nat, i as int),
            decreases table.len() - i,
        {
            assert(model[i as int] == table[i as int]@);
            proof {
                before.lemma_table_columns_error(model, i as int, table.len() as int);
                Session::lemma_with_table_columns_frame(before, model, start as nat, i as int);
            }
            self.write_table_column(&table[i], start);
            i = i + 1;
        }
        proof {
            Session::lemma_with_table_columns_frame(before, model, start as nat, table.len() as int);
        }
        self.regions.push(Region { name, start, rows: height });
        assert(self@ =~= before.loaded(name@, model));
        Ok(())
    }

    /// What a cell holds: nothing where it was never written or supplied,
    /// else the value, which may be unknown.
    pub fn read(&self, column: Column, row: usize) -> (r: Option<Value>)
        requires
            self.wf(),
        ensures
            match r {
                Some(value) => self@.read(column, row as int) == Some(value@),
                None => self@.read(column, row as int) is None,
            },
    {
        if row >= self.rows {
            return None;
        }
        match column.kind {
            Any::Advice => {
                if column.index < self.advice.len() {
                    self.advice[column.index][row]
                } else {
                    None
                }
            },
            Any::Fixed => {
                if column.index < self.fixed.len() {
                    self.fixed[column.index][row]
                } else {
                    None
                }
            },
            Any::Instance => {
                if column.index < self.instance.len() {
                    assert(self@.instance[column.index as int] == values_view(
                        self.instance[column.index as int]@,
                    ));
                    if row < self.instance[column.index].len() {
                        Some(Value::Known(self.instance[column.index][row]))
                    } else {
                        None
                    }
                } else {
                    None
                }
            },
        }
    }

    /// The value of a cell as an expression sees it: a cell that was never
    /// written, or that no column or row of the session holds, counts as
    /// zero.
    pub fn value_at(&self, column: Column, row: i128) -> (r: Value)
        requires
            self.wf(),
        ensures
            r@ == self@.value_at(column, row as int),
    {
        if row < 0 || row >= self.rows as i128 {
            return Value::Known(Fp::zero());
        }
        let at: usize = row as usize;
        match column.kind {
            Any::Advice => {
                if column.index < self.advice.len() {
                    match self.advice[column.index][at] {
                        Some(value) => value,
                        None => Value::Known(Fp::zero()),
                    }
                } else {
                    Value::Known(Fp::zero())
                }
            },
            Any::Fixed => {
                if column.index < self.fixed.len() {
                    match self.fixed[column.index][at] {
                        Some(value) => value,
                        None => Value::Known(Fp::zero()),
                    }
                } else {
                    Value::Known(Fp::zero())
                }
            },
            Any::Instance => {
                if column.index < self.instance.len() {
                    assert(self@.instance[column.index as int] == values_view(
                        self.instance[column.index as int]@,
                    ));
                    if at < self.instance[column.index].len() {
                        Value::Known(self.instance[column.index][at])
                    } else {
                        Value::Known(Fp::zero())
                    }
                } else {
                    Value::Known(Fp::zero())
                }
            },
        }
    }

    /// The value of a cell as a copy constraint sees it: known only where
    /// the cell was written with a known value.
    pub fn known_at(&self, cell: Cell) -> (r: Option<Fp>)
        requires
            self.wf(),
        ensures
            match r {
                Some(x) => self@.known_at(cell) == Some(x@),
                None => self@.known_at(cell) is None,
            },
    {
        match cell.column.kind {
            Any::Advice => {
                if cell.column.index < self.advice.len() && cell.row < self.rows {
                    match self.advice[cell.column.index][cell.row] {
                        Some(Value::Known(x)) => Some(x),
                        _ => None,
                    }
                } else {
                    None
                }
            },
            Any::Fixed => {
                if cell.column.index < self.fixed.len() && cell.row < self.rows {
                    match self.fixed[cell.column.index][cell.row] {
                        Some(Value::Known(x)) => Some(x),
                        _ => None,
                    }
                } else {
                    None
                }
            },
            Any::Instance => {
                if cell.column.index < self.instance.len() {
                    assert(self@.instance[cell.column.index as int] == values_view(
                        self.instance[cell.column.index as int]@,
                    ));
                    if cell.row < self.instance[cell.column.index].len() {
                        Some(self.instance[cell.column.index][cell.row])
                    } else {
                        None
                    }
                } else {
                    None
                }
            },
        }
    }

    /// Whether a selector is enabled on a row.
    pub fn selector_enabled(&self, selector: Selector, row: usize) -> (r: bool)
        requires
            self.wf(),
        ensures
            r == self@.selectors.contains((selector.index as int, row as int)),
    {
        selector.index < self.selectors.len() && row < self.rows
            && self.selectors[selector.index][row]
    }

    /// The pairs of cells that must hold equal values.
    pub fn copies(&self) -> (r: &Vec<(Cell, Cell)>)
        ensures
            r@ == self@.copies,
    {
        &self.copies
    }

    /// The regions in the order in which they were opened.
    pub fn regions(&self) -> (r: &Vec<Region>)
        ensures
            r@.map_values(|region: Region| region@) == self@.regions,
    {
        &self.regions
    }

    /// The first row of the table that a table column belongs to, once it is
    /// loaded.
    pub fn table_start(&self, column: TableColumn) -> (r: Option<usize>)
        requires
            self.wf(),
        ensures
            match r {
                Some(start) => self@.tables.contains_key(column.index as int)
                    && self@.tables[column.index as int] == start,
                None => !self@.tables.contains_key(column.index as int),
            },
    {
        if column.index < self.table_start.len() {
            self.table_start[column.index]
        } else {
            None
        }
    }

    /// The number of public inputs given for an instance column.
    pub fn instance_len(&self, index: usize) -> (r: usize)
        requires
            self.wf(),
            index < self@.instance.len(),
        ensures
            r == self@.instance[index as int].len(),
    {
        assert(self@.instance[index as int] == values_view(self.instance[index as int]@));
        self.instance[index].len()
    }

    /// The number of rows of an instance column that instance bindings
    /// reach.
    pub fn bound_rows(&self, index: usize) -> (r: usize)
        requires
            self.wf(),
            index < self@.instance.len(),
        ensures
            r == self@.bound_rows[index as int],
    {
        self.bound_rows[index]
    }

    /// The number of instance columns.
    pub fn instance_columns(&self) -> (r: usize)
        requires
            self.wf(),
        ensures
            r == self@.instance.len(),
            r == self@.bound_rows.len(),
            r == self@.cs.instance.len(),
    {
        self.instance.len()
    }

    /// The circuit that is being assigned.
    pub fn constraint_system(&self) -> (r: &ConstraintSystem)
        ensures
            r@ == self@.cs,
    {
        &self.cs
    }

    /// The number of rows of every column.
    pub fn rows(&self) -> (r: usize)
        requires
            self.wf(),
        ensures
            r == self@.rows,
            r < 0x1_0000_0000,
    {
        self.rows
    }

    /// The number of rows that are assigned and checked.
    pub fn usable_rows(&self) -> (r: usize)
        requires
            self.wf(),
        ensures
            r == self@.usable_rows,
            r <= self@.rows,
    {
        self.usable_rows
    }

    /// Whether this is a pass that only lays the circuit out.
    pub fn dry_run(&self) -> (r: bool)
        ensures
            r == self@.dry_run,
    {
        self.dry_run
    }
}

} // verus!
