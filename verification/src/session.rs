//! The mathematical model of an assignment session: what a circuit's
//! synthesis has written so far, and how each step of it changes that.

use crate::constraint_system::ConstraintSystemView;
use crate::expression::Any;
use crate::expression::Column;
use crate::expression::Selector;
use crate::expression::TableColumn;
use crate::value::Value;
use vstd::arithmetic::power2::pow2;
use vstd::prelude::*;

verus! {

/// Why a circuit or its use is malformed.
#[derive(Clone, Copy, Debug, PartialEq, Eq, Structural)]
pub enum Reason {
    /// The number of rows asked for is beyond what a session can hold.
    TooManyRows,
    /// A row at or beyond the usable rows was needed.
    NotEnoughRows,
    /// The number of public-input sequences is not the number of instance
    /// columns.
    InstanceCountMismatch,
    /// A public-input sequence does not have the length that the circuit's
    /// instance bindings ask for, or is longer than the usable rows.
    InstanceLengthMismatch,
    /// A gate or lookup queries a rotation that no usable row can reach.
    RotationOutOfRange,
    /// A gate multiplies a simple selector with another selector.
    SelectorNotAlone,
    /// The circuit has no such column of the kind that is needed.
    UnknownColumn,
    /// The circuit has no such selector.
    UnknownSelector,
    /// A column used in a copy constraint or an instance binding was not
    /// enabled for equality.
    EqualityNotEnabled,
    /// A region was needed and none is open.
    NoRegionOpen,
    /// A region is open where none may be.
    RegionAlreadyOpen,
    /// The column is not a column of a lookup table.
    NotATableColumn,
    /// The table column was loaded before.
    TableAlreadyLoaded,
    /// The values given for a table column are not one for each of its rows.
    IncompleteTable,
    /// A lookup refers to a table column that was never loaded.
    TableNotLoaded,
}

/// An error of a circuit's configuration or of its assignment.
#[derive(Clone, Copy, Debug, PartialEq, Eq, Structural)]
pub enum Error {
    /// The circuit or its use is malformed.
    Configuration(Reason),
    /// A value that is not known was read where a known one is needed.
    Assignment,
}

/// A cell of the witness: a column and an absolute row.
#[derive(Clone, Copy, Debug, PartialEq, Eq, Structural)]
pub struct Cell {
    pub column: Column,
    pub row: usize,
}

/// A cell together with the value that was written to it.
#[derive(Clone, Copy, Debug, PartialEq, Eq, Structural)]
pub struct AssignedCell {
    pub cell: Cell,
    pub value: Value,
}

/// The content of an [`AssignedCell`].
pub struct AssignedCellView {
    pub cell: Cell,
    pub value: Option<nat>,
}

impl View for AssignedCell {
    type V = AssignedCellView;

    open spec fn view(&self) -> AssignedCellView {
        AssignedCellView { cell: self.cell, value: self.value@ }
    }
}

/// A named span of rows.
pub struct RegionView {
    pub name: Seq<char>,
    pub start: nat,
    pub rows: nat,
}

/// One column of a lookup table with the values of its rows.
pub struct TableColumnView {
    pub column: TableColumn,
    pub values: Seq<nat>,
}

/// The state of an assignment session.
#[verifier::ext_equal]
pub struct Session {
    /// The circuit that is being assigned.
    pub cs: ConstraintSystemView,
    /// The number of rows of every column.
    pub rows: nat,
    /// The number of rows that are assigned and checked; the others are
    /// left to the proving backend.
    pub usable_rows: nat,
    /// Whether this is a pass that only lays the circuit out, in which
    /// values need not be known.
    pub dry_run: bool,
    /// The advice and fixed cells written so far.
    pub cells: Map<(Column, int), Option<nat>>,
    /// The public inputs, one sequence for each instance column.
    pub instance: Seq<Seq<nat>>,
    /// For each instance column, the number of its rows that instance
    /// bindings reach.
    pub bound_rows: Seq<nat>,
    /// The selector index and row of each enabled selector.
    pub selectors: Set<(int, int)>,
    /// The pairs of cells that must hold equal values.
    pub copies: Seq<(Cell, Cell)>,
    /// The regions in the order in which they were opened.
    pub regions: Seq<RegionView>,
    /// Whether the last region is still open.
    pub open: bool,
    /// For each loaded table column, by the index of its fixed column, the
    /// first row of its table.
    pub tables: Map<int, nat>,
}

/// How far a run of steps got: the session after the last step that
/// succeeded, and the error of the step that failed, if one did. A step that
/// fails leaves the session as it found it.
pub struct Outcome {
    pub session: Session,
    pub error: Option<Error>,
}

impl Outcome {
    /// The outcome of steps that all succeeded.
    pub open spec fn ok(session: Session) -> Outcome {
        Outcome { session, error: None }
    }

    /// The outcome of one step on a session: the session after it where it
    /// can be done, else the session as it is, with the error.
    pub open spec fn of(before: Session, error: Option<Error>, after: Session) -> Outcome {
        match error {
            Some(e) => Outcome { session: before, error: Some(e) },
            None => Outcome { session: after, error: None },
        }
    }

    /// The session where all steps succeeded, else the error.
    pub open spec fn result(self) -> Result<Session, Error> {
        match self.error {
            Some(e) => Err(e),
            None => Ok(self.session),
        }
    }
}

/// The second step of two, where the first succeeded; else the outcome of
/// the first.
pub open spec fn and_then(first: Outcome, second: spec_fn(Session) -> Outcome) -> Outcome {
    if first.error is Some {
        first
    } else {
        second(first.session)
    }
}

/// What a step that changes a session reports, held against the session
/// after it: the session is the one of the step's model, and the step
/// reports the model's error, or success where the model has none.
pub open spec fn agrees<T>(model: Outcome, result: Result<T, Error>, after: Session) -> bool {
    &&& after == model.session
    &&& match result {
        Ok(_) => model.error is None,
        Err(e) => model.error == Some(e),
    }
}

/// The fixed column that a table column is.
pub open spec fn fixed_of(column: TableColumn) -> Column {
    Column { kind: Any::Fixed, index: column.index }
}

impl Session {
    /// The session in which nothing was assigned yet.
    pub open spec fn initial(
        cs: ConstraintSystemView,
        k: u32,
        instance: Seq<Seq<nat>>,
        dry_run: bool,
    ) -> Session {
        Session {
            cs,
            rows: pow2(k as nat),
            usable_rows: (pow2(k as nat) - cs.blinding_rows) as nat,
            dry_run,
            cells: Map::empty(),
            instance,
            bound_rows: Seq::new(instance.len(), |i: int| 0nat),
            selectors: Set::empty(),
            copies: Seq::empty(),
            regions: Seq::empty(),
            open: false,
            tables: Map::empty(),
        }
    }

    /// Why no session can be started, if none can.
    pub open spec fn initial_error(
        cs: ConstraintSystemView,
        k: u32,
        instance: Seq<Seq<nat>>,
    ) -> Option<Error> {
        let usable = pow2(k as nat) - cs.blinding_rows;
        if k >= 32 {
            Some(Error::Configuration(Reason::TooManyRows))
        } else if usable < 0 {
            Some(Error::Configuration(Reason::NotEnoughRows))
        } else if instance.len() != cs.instance.len() {
            Some(Error::Configuration(Reason::InstanceCountMismatch))
        } else if exists|i: int| 0 <= i < instance.len() && (#[trigger] instance[i]).len() > usable {
            Some(Error::Configuration(Reason::InstanceLengthMismatch))
        } else if !cs.rotations_within(usable) {
            Some(Error::Configuration(Reason::RotationOutOfRange))
        } else if !cs.selectors_apart() {
            Some(Error::Configuration(Reason::SelectorNotAlone))
        } else {
            None
        }
    }

    /// What holds of every session that a layouter keeps, whichever steps
    /// succeeded or failed on it: the rows fit the machine, the usable rows
    /// are among them, every region lies within the usable rows, every
    /// instance column has its public inputs, and every copy constraint
    /// joins cells of columns on which equality is enabled.
    pub open spec fn valid(self) -> bool {
        &&& self.rows < 0x1_0000_0000
        &&& self.usable_rows <= self.rows
        &&& self.instance.len() == self.cs.instance.len()
        &&& self.bound_rows.len() == self.instance.len()
        &&& forall|i: int|
            0 <= i < self.instance.len() ==> (#[trigger] self.instance[i]).len() <= self.rows
        &&& self.open ==> self.regions.len() > 0
        &&& forall|i: int|
            0 <= i < self.regions.len() ==> (#[trigger] self.regions[i]).start
                + self.regions[i].rows <= self.usable_rows
        &&& forall|i: int|
            0 <= i < self.copies.len() ==> self.cs.equality_enabled(
                (#[trigger] self.copies[i]).0.column,
            ) && self.cs.equality_enabled(self.copies[i].1.column)
    }

    /// Whether row `t` belongs to the loaded table of a table column.
    pub open spec fn table_holds(self, column: TableColumn, t: int) -> bool {
        let index = column.index as int;
        &&& self.tables.contains_key(index)
        &&& self.cs.table_rows(index) is Some
        &&& self.tables[index] <= t < self.tables[index] + self.cs.table_rows(index).unwrap()
    }

    /// The first row that no region holds.
    pub open spec fn next_row(self) -> nat {
        if self.regions.len() == 0 {
            0
        } else {
            self.regions.last().start + self.regions.last().rows
        }
    }

    /// The absolute row that an offset in the open region stands for.
    pub open spec fn row_of(self, offset: nat) -> nat {
        self.regions.last().start + offset
    }

    /// The regions once the open one reaches at least to `offset`.
    pub open spec fn grown(self, offset: nat) -> Seq<RegionView> {
        let last = self.regions.last();
        self.regions.update(
            self.regions.len() - 1,
            RegionView { rows: if offset + 1 > last.rows { offset + 1 } else { last.rows }, ..last },
        )
    }

    /// The numbers of bound rows once a binding reaches `row` of the
    /// instance column `index`.
    pub open spec fn bound(self, index: int, row: nat) -> Seq<nat> {
        self.bound_rows.update(
            index,
            if row + 1 > self.bound_rows[index] { row + 1 } else { self.bound_rows[index] },
        )
    }

    /// Whether the circuit has this column and it is an advice column.
    pub open spec fn is_advice(self, column: Column) -> bool {
        column.kind == Any::Advice && column.index < self.cs.advice.len()
    }

    /// Whether the circuit has this column and it is an instance column.
    pub open spec fn is_instance(self, column: Column) -> bool {
        column.kind == Any::Instance && column.index < self.cs.instance.len()
    }

    /// What a cell holds: nothing where it was never written or supplied,
    /// else the value, which may be unknown.
    pub open spec fn read(self, column: Column, row: int) -> Option<Option<nat>> {
        match column.kind {
            Any::Instance => if column.index < self.instance.len() && 0 <= row
                < self.instance[column.index as int].len() {
                Some(Some(self.instance[column.index as int][row]))
            } else {
                None
            },
            _ => if self.cells.contains_key((column, row)) {
                Some(self.cells[(column, row)])
            } else {
                None
            },
        }
    }

    /// The value of a cell as an expression sees it: a cell that was never
    /// written counts as zero.
    pub open spec fn value_at(self, column: Column, row: int) -> Option<nat> {
        match self.read(column, row) {
            Some(value) => value,
            None => Some(0),
        }
    }

    /// The value of a cell as a copy constraint sees it: known only where
    /// the cell was written with a known value.
    pub open spec fn known_at(self, cell: Cell) -> Option<nat> {
        match self.read(cell.column, cell.row as int) {
            Some(Some(x)) => Some(x),
            _ => None,
        }
    }

    /// Why no region can be opened, if none can.
    pub open spec fn enter_error(self) -> Option<Error> {
        if self.open {
            Some(Error::Configuration(Reason::RegionAlreadyOpen))
        } else {
            None
        }
    }

    /// The session once a region of that name is opened at the next unused
    /// row.
    pub open spec fn entered(self, name: Seq<char>) -> Session {
        Session {
            regions: self.regions.push(RegionView { name, start: self.next_row(), rows: 0 }),
            open: true,
            ..self
        }
    }

    /// Why no region can be closed, if none can.
    pub open spec fn exit_error(self) -> Option<Error> {
        if !self.open {
            Some(Error::Configuration(Reason::NoRegionOpen))
        } else {
            None
        }
    }

    /// The session once the open region is closed.
    pub open spec fn exited(self) -> Session {
        Session { open: false, ..self }
    }

    /// Why a value cannot be written to an advice cell of the open region,
    /// if it cannot. A value that is not known can be written: the checker
    /// finds it where a constraint reads it.
    pub open spec fn assign_error(self, column: Column, offset: nat) -> Option<Error> {
        if !self.open {
            Some(Error::Configuration(Reason::NoRegionOpen))
        } else if !self.is_advice(column) {
            Some(Error::Configuration(Reason::UnknownColumn))
        } else if self.row_of(offset) >= self.usable_rows {
            Some(Error::Configuration(Reason::NotEnoughRows))
        } else {
            None
        }
    }

    /// The session once `value` is written at `offset` of the open region.
    pub open spec fn assigned(self, column: Column, offset: nat, value: Option<nat>) -> Session {
        Session {
            cells: self.cells.insert((column, self.row_of(offset) as int), value),
            regions: self.grown(offset),
            ..self
        }
    }

    /// Why a public input cannot be written to an advice cell of the open
    /// region, if it cannot.
    pub open spec fn assign_from_instance_error(
        self,
        instance: Column,
        instance_row: nat,
        advice: Column,
        offset: nat,
    ) -> Option<Error> {
        if !self.open {
            Some(Error::Configuration(Reason::NoRegionOpen))
        } else if !self.is_instance(instance) || !self.is_advice(advice) {
            Some(Error::Configuration(Reason::UnknownColumn))
        } else if !self.cs.equality_enabled(instance) || !self.cs.equality_enabled(advice) {
            Some(Error::Configuration(Reason::EqualityNotEnabled))
        } else if instance_row >= self.instance[instance.index as int].len() {
            Some(Error::Configuration(Reason::InstanceLengthMismatch))
        } else if self.row_of(offset) >= self.usable_rows {
            Some(Error::Configuration(Reason::NotEnoughRows))
        } else {
            None
        }
    }

    /// The session once the public input at `instance_row` is written at
    /// `offset` of the open region and the two cells are bound together.
    pub open spec fn assigned_from_instance(
        self,
        instance: Column,
        instance_row: nat,
        advice: Column,
        offset: nat,
    ) -> Session {
        Session {
            cells: self.cells.insert(
                (advice, self.row_of(offset) as int),
                Some(self.instance[instance.index as int][instance_row as int]),
            ),
            copies: self.copies.push(
                (
                    Cell { column: instance, row: instance_row as usize },
                    Cell { column: advice, row: self.row_of(offset) as usize },
                ),
            ),
            bound_rows: self.bound(instance.index as int, instance_row),
            regions: self.grown(offset),
            ..self
        }
    }

    /// Why a cell cannot be copied into the open region, if it cannot.
    /// Outside a pass that only lays the circuit out, the value that is
    /// read from the source has to be known.
    pub open spec fn copy_error(
        self,
        source: AssignedCellView,
        column: Column,
        offset: nat,
    ) -> Option<Error> {
        if !self.open {
            Some(Error::Configuration(Reason::NoRegionOpen))
        } else if !self.is_advice(column) {
            Some(Error::Configuration(Reason::UnknownColumn))
        } else if !self.cs.equality_enabled(source.cell.column) || !self.cs.equality_enabled(
            column,
        ) {
            Some(Error::Configuration(Reason::EqualityNotEnabled))
        } else if self.row_of(offset) >= self.usable_rows {
            Some(Error::Configuration(Reason::NotEnoughRows))
        } else if !self.dry_run && source.value is None {
            Some(Error::Assignment)
        } else {
            None
        }
    }

    /// The session once the source's value is written at `offset` of the
    /// open region and the two cells are constrained to be equal.
    pub open spec fn copied(self, source: AssignedCellView, column: Column, offset: nat) -> Session {
        Session {
            cells: self.cells.insert((column, self.row_of(offset) as int), source.value),
            copies: self.copies.push(
                (source.cell, Cell { column, row: self.row_of(offset) as usize }),
            ),
            regions: self.grown(offset),
            ..self
        }
    }

    /// Why a selector cannot be enabled in the open region, if it cannot.
    pub open spec fn enable_error(self, selector: Selector, offset: nat) -> Option<Error> {
        if !self.open {
            Some(Error::Configuration(Reason::NoRegionOpen))
        } else if selector.index >= self.cs.selectors.len() {
            Some(Error::Configuration(Reason::UnknownSelector))
        } else if self.row_of(offset) >= self.usable_rows {
            Some(Error::Configuration(Reason::NotEnoughRows))
        } else {
            None
        }
    }

    /// The session once the selector is enabled at `offset` of the open
    /// region.
    pub open spec fn enabled(self, selector: Selector, offset: nat) -> Session {
        Session {
            selectors: self.selectors.insert((selector.index as int, self.row_of(offset) as int)),
            regions: self.grown(offset),
            ..self
        }
    }

    /// Why an advice cell cannot be bound to a public input, if it cannot.
    pub open spec fn constrain_error(self, cell: Cell, instance: Column, row: nat) -> Option<
        Error,
    > {
        if !self.is_instance(instance) || !self.is_advice(cell.column) {
            Some(Error::Configuration(Reason::UnknownColumn))
        } else if !self.cs.equality_enabled(cell.column) || !self.cs.equality_enabled(instance) {
            Some(Error::Configuration(Reason::EqualityNotEnabled))
        } else if row >= self.instance[instance.index as int].len() {
            Some(Error::Configuration(Reason::InstanceLengthMismatch))
        } else if cell.row >= self.usable_rows {
            Some(Error::Configuration(Reason::NotEnoughRows))
        } else {
            None
        }
    }

    /// The session once the cell is bound to the public input at `row`: the
    /// public input reaches the cell, which holds its value from then on,
    /// and the two cells are constrained to be equal. A gate that reads the
    /// cell is thereby held against the public input.
    pub open spec fn constrained(self, cell: Cell, instance: Column, row: nat) -> Session {
        Session {
            cells: self.cells.insert(
                (cell.column, cell.row as int),
                Some(self.instance[instance.index as int][row as int]),
            ),
            copies: self.copies.push((cell, Cell { column: instance, row: row as usize })),
            bound_rows: self.bound(instance.index as int, row),
            ..self
        }
    }

    /// Opening a region.
    pub open spec fn try_enter(self, name: Seq<char>) -> Outcome {
        Outcome::of(self, self.enter_error(), self.entered(name))
    }

    /// Closing the open region.
    pub open spec fn try_exit(self) -> Outcome {
        Outcome::of(self, self.exit_error(), self.exited())
    }

    /// Writing a value to an advice cell of the open region.
    pub open spec fn try_assign(self, column: Column, offset: nat, value: Option<nat>) -> Outcome {
        Outcome::of(self, self.assign_error(column, offset), self.assigned(column, offset, value))
    }

    /// Writing a public input to an advice cell of the open region.
    pub open spec fn try_assign_from_instance(
        self,
        instance: Column,
        instance_row: nat,
        advice: Column,
        offset: nat,
    ) -> Outcome {
        Outcome::of(
            self,
            self.assign_from_instance_error(instance, instance_row, advice, offset),
            self.assigned_from_instance(instance, instance_row, advice, offset),
        )
    }

    /// Copying a cell into the open region.
    pub open spec fn try_copy(self, source: AssignedCellView, column: Column, offset: nat) -> Outcome {
        Outcome::of(
            self,
            self.copy_error(source, column, offset),
            self.copied(source, column, offset),
        )
    }

    /// Enabling a selector in the open region.
    pub open spec fn try_enable(self, selector: Selector, offset: nat) -> Outcome {
        Outcome::of(self, self.enable_error(selector, offset), self.enabled(selector, offset))
    }

    /// Binding a cell to a public input.
    pub open spec fn try_constrain(self, cell: Cell, instance: Column, row: nat) -> Outcome {
        Outcome::of(
            self,
            self.constrain_error(cell, instance, row),
            self.constrained(cell, instance, row),
        )
    }

    /// Loading a table.
    pub open spec fn try_load(self, name: Seq<char>, table: Seq<TableColumnView>) -> Outcome {
        Outcome::of(self, self.table_error(table), self.loaded(name, table))
    }

    /// The cell that a write at `offset` of the open region fills.
    pub open spec fn cell_at(self, column: Column, offset: nat) -> Cell {
        Cell { column, row: self.row_of(offset) as usize }
    }

    /// The cell in a column on the first row of the region that is opened
    /// next.
    pub open spec fn cell_below(self, column: Column) -> Cell {
        Cell { column, row: self.next_row() as usize }
    }

    /// Why the `i`-th column of a table cannot be loaded at the next unused
    /// row, if it cannot.
    pub open spec fn table_column_error(self, table: Seq<TableColumnView>, i: int) -> Option<
        Reason,
    > {
        let index = table[i].column.index as int;
        if self.cs.table_rows(index) is None {
            Some(Reason::NotATableColumn)
        } else if self.tables.contains_key(index) || exists|j: int|
            0 <= j < i && (#[trigger] table[j]).column.index == index {
            Some(Reason::TableAlreadyLoaded)
        } else if table[i].values.len() != self.cs.table_rows(index).unwrap() {
            Some(Reason::IncompleteTable)
        } else if self.next_row() + table[i].values.len() > self.usable_rows {
            Some(Reason::NotEnoughRows)
        } else {
            None
        }
    }

    /// Why the first `n` columns of a table cannot be loaded, if they
    /// cannot: what is wrong with the first of them that has a fault.
    pub open spec fn table_columns_error(self, table: Seq<TableColumnView>, n: int) -> Option<
        Reason,
    >
        decreases n,
    {
        if n <= 0 {
            None
        } else {
            match self.table_columns_error(table, n - 1) {
                Some(reason) => Some(reason),
                None => self.table_column_error(table, n - 1),
            }
        }
    }

    /// Why a table cannot be loaded, if it cannot.
    pub open spec fn table_error(self, table: Seq<TableColumnView>) -> Option<Error> {
        if self.open {
            Some(Error::Configuration(Reason::RegionAlreadyOpen))
        } else {
            match self.table_columns_error(table, table.len() as int) {
                Some(reason) => Some(Error::Configuration(reason)),
                None => None,
            }
        }
    }

    /// Where the first `n` columns of a table can be loaded, so can each of
    /// them; where one of them cannot, no longer list of columns can,
    /// for the same reason.
    pub proof fn lemma_table_columns_error(self, table: Seq<TableColumnView>, i: int, n: int)
        requires
            0 <= i < n,
        ensures
            self.table_columns_error(table, n) is None ==> self.table_column_error(table, i)
                is None,
            self.table_columns_error(table, i + 1) is Some ==> self.table_columns_error(table, n)
                == self.table_columns_error(table, i + 1),
        decreases n,
    {
        if n > i + 1 {
            self.lemma_table_columns_error(table, i, n - 1);
        }
    }

    /// A table is refused as a malformed configuration where one of its
    /// columns is given another number of values than the circuit declares
    /// rows for it: nothing is loaded, and no row is filled in silently.
    pub proof fn lemma_partial_table_refused(
        self,
        name: Seq<char>,
        table: Seq<TableColumnView>,
        i: int,
    )
        requires
            0 <= i < table.len(),
            self.cs.table_rows(table[i].column.index as int) matches Some(rows)
                && table[i].values.len() != rows,
        ensures
            self.try_load(name, table).error matches Some(Error::Configuration(_)),
            self.try_load(name, table).session == self,
    {
        self.lemma_table_columns_error(table, i, table.len() as int);
    }

    /// The session once one table column is written from row `start` on.
    pub open spec fn with_table_column(self, entry: TableColumnView, start: nat) -> Session {
        Session {
            cells: Map::new(
                |key: (Column, int)|
                    self.cells.contains_key(key) || (key.0 == fixed_of(entry.column) && start
                        <= key.1 < start + entry.values.len()),
                |key: (Column, int)|
                    if key.0 == fixed_of(entry.column) && start <= key.1 < start
                        + entry.values.len() {
                        Some(entry.values[key.1 - start])
                    } else {
                        self.cells[key]
                    },
            ),
            tables: self.tables.insert(entry.column.index as int, start),
            ..self
        }
    }

    /// The session once the first `n` columns of a table are written from
    /// row `start` on.
    pub open spec fn with_table_columns(
        self,
        table: Seq<TableColumnView>,
        start: nat,
        n: int,
    ) -> Session
        decreases n,
    {
        if n <= 0 {
            self
        } else {
            self.with_table_columns(table, start, n - 1).with_table_column(table[n - 1], start)
        }
    }

    /// Loading table columns changes the cells and the loaded tables, and
    /// nothing else.
    pub proof fn lemma_with_table_columns_frame(
        before: Session,
        table: Seq<TableColumnView>,
        start: nat,
        n: int,
    )
        ensures
            before.with_table_columns(table, start, n) == (Session {
                cells: before.with_table_columns(table, start, n).cells,
                tables: before.with_table_columns(table, start, n).tables,
                ..before
            }),
        decreases n,
    {
        if n > 0 {
            Session::lemma_with_table_columns_frame(before, table, start, n - 1);
        }
    }

    /// Writing table columns leaves the cells of the columns that are not
    /// fixed as they are.
    pub proof fn lemma_with_table_columns_others(
        self,
        table: Seq<TableColumnView>,
        start: nat,
        n: int,
    )
        ensures
            forall|column: Column, row: int|
                column.kind != Any::Fixed ==> self.with_table_columns(table, start, n).read(
                    column,
                    row,
                ) == self.read(column, row),
        decreases n,
    {
        if n > 0 {
            self.lemma_with_table_columns_others(table, start, n - 1);
            Session::lemma_with_table_columns_frame(self, table, start, n - 1);
        }
    }

    /// Once the first `n` columns of a table are written, column `i` among
    /// them is marked as loaded from row `start` on, and its cell on row
    /// `start + j` holds its `j`-th value, where no two of the columns are
    /// the same.
    pub proof fn lemma_with_table_columns(
        self,
        table: Seq<TableColumnView>,
        start: nat,
        n: int,
        i: int,
        j: int,
    )
        requires
            0 <= i < n <= table.len(),
            0 <= j < table[i].values.len(),
            forall|a: int, b: int|
                0 <= a < b < n ==> (#[trigger] table[a]).column.index != (
                #[trigger] table[b]).column.index,
        ensures
            ({
                let after = self.with_table_columns(table, start, n);
                let index = table[i].column.index as int;
                &&& after.tables.contains_key(index)
                &&& after.tables[index] == start
                &&& after.read(fixed_of(table[i].column), start + j) == Some(
                    Some(table[i].values[j]),
                )
            }),
        decreases n,
    {
        if n - 1 > i {
            self.lemma_with_table_columns(table, start, n - 1, i, j);
        }
    }

    /// Once the first `n` columns of a table are written, each of them is
    /// marked as loaded from row `start` on.
    pub proof fn lemma_with_table_columns_marks(
        self,
        table: Seq<TableColumnView>,
        start: nat,
        n: int,
        i: int,
    )
        requires
            0 <= i < n <= table.len(),
            forall|a: int, b: int|
                0 <= a < b < n ==> (#[trigger] table[a]).column.index != (
                #[trigger] table[b]).column.index,
        ensures
            self.with_table_columns(table, start, n).tables.contains_key(
                table[i].column.index as int,
            ),
            self.with_table_columns(table, start, n).tables[table[i].column.index as int] == start,
        decreases n,
    {
        if n - 1 > i {
            self.lemma_with_table_columns_marks(table, start, n - 1, i);
        }
    }

    /// Loading a table writes cells of fixed columns, marks table columns as
    /// loaded and adds a region. All else is as before.
    pub proof fn lemma_loaded_frame(self, name: Seq<char>, table: Seq<TableColumnView>)
        ensures
            ({
                let after = self.loaded(name, table);
                &&& after == (Session {
                    cells: after.cells,
                    tables: after.tables,
                    regions: after.regions,
                    ..self
                })
                &&& after.regions.len() == self.regions.len() + 1
                &&& after.next_row() == self.next_row() + Session::table_height(
                    table,
                    table.len() as int,
                )
                &&& forall|column: Column, row: int|
                    column.kind != Any::Fixed ==> after.read(column, row) == self.read(column, row)
            }),
    {
        Session::lemma_with_table_columns_frame(self, table, self.next_row(), table.len() as int);
        self.lemma_with_table_columns_others(table, self.next_row(), table.len() as int);
    }

    /// A table that is loaded has each of its columns marked as loaded from
    /// the first row of the table's region on.
    pub proof fn lemma_loaded_marks(self, name: Seq<char>, table: Seq<TableColumnView>, i: int)
        requires
            self.table_error(table) is None,
            0 <= i < table.len(),
        ensures
            ({
                let after = self.loaded(name, table);
                let index = table[i].column.index as int;
                &&& self.cs.table_rows(index) == Some(table[i].values.len() as usize)
                &&& after.cs == self.cs
                &&& after.rows == self.rows
                &&& after.tables.contains_key(index)
                &&& after.tables[index] == self.next_row()
                &&& self.next_row() + table[i].values.len() <= self.usable_rows
            }),
    {
        let n = table.len() as int;
        assert forall|a: int, b: int| 0 <= a < b < n implies (#[trigger] table[a]).column.index != (
        #[trigger] table[b]).column.index by {
            self.lemma_table_columns_error(table, b, n);
        }
        self.lemma_table_columns_error(table, i, n);
        self.lemma_with_table_columns_marks(table, self.next_row(), n, i);
        Session::lemma_with_table_columns_frame(self, table, self.next_row(), n);
    }

    /// A table that is loaded is loaded whole: each of its columns is
    /// marked as loaded from the first row of the table's region on, and
    /// every row that the circuit declares for it holds its value.
    pub proof fn lemma_loaded(
        self,
        name: Seq<char>,
        table: Seq<TableColumnView>,
        i: int,
        j: int,
    )
        requires
            self.table_error(table) is None,
            0 <= i < table.len(),
            0 <= j < self.cs.table_rows(table[i].column.index as int).unwrap(),
        ensures
            ({
                let after = self.loaded(name, table);
                let index = table[i].column.index as int;
                &&& self.cs.table_rows(index) == Some(table[i].values.len() as usize)
                &&& after.cs == self.cs
                &&& after.tables.contains_key(index)
                &&& after.tables[index] == self.next_row()
                &&& after.table_holds(table[i].column, self.next_row() + j)
                &&& after.read(fixed_of(table[i].column), self.next_row() + j) == Some(
                    Some(table[i].values[j]),
                )
            }),
    {
        let n = table.len() as int;
        assert forall|a: int, b: int| 0 <= a < b < n implies (#[trigger] table[a]).column.index != (
        #[trigger] table[b]).column.index by {
            self.lemma_table_columns_error(table, b, n);
        }
        self.lemma_table_columns_error(table, i, n);
        self.lemma_with_table_columns(table, self.next_row(), n, i, j);
        Session::lemma_with_table_columns_frame(self, table, self.next_row(), n);
    }

    /// The number of rows of the longest of the first `n` columns.
    pub open spec fn table_height(table: Seq<TableColumnView>, n: int) -> nat
        decreases n,
    {
        if n <= 0 {
            0
        } else {
            let rest = Session::table_height(table, n - 1);
            if table[n - 1].values.len() > rest {
                table[n - 1].values.len()
            } else {
                rest
            }
        }
    }

    /// The session once a table is loaded: its columns are written side by
    /// side from the next unused row on, in a region of their own.
    pub open spec fn loaded(self, name: Seq<char>, table: Seq<TableColumnView>) -> Session {
        let start = self.next_row();
        let written = self.with_table_columns(table, start, table.len() as int);
        Session {
            regions: self.regions.push(
                RegionView { name, start, rows: Session::table_height(table, table.len() as int) },
            ),
            ..written
        }
    }
}

} // verus!
