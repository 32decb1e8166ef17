//! The satisfiability check: does a finished witness satisfy its circuit?
//!
//! Every usable row is held against every constraint of every gate and
//! against every lookup, and every copy constraint against the two cells it
//! binds. The check goes through all of them and reports every failure.

use crate::expression::Column;
use crate::expression::Expr;
use crate::expression::Expression;
use crate::expression::TableColumn;
use crate::expression::VirtualCell;
use crate::failure::cell_values_view;
use crate::failure::failures_view;
use crate::failure::FailureLocation;
use crate::failure::FailureView;
use crate::failure::LocationView;
use crate::failure::Named;
use crate::failure::NamedView;
use crate::failure::VerifyFailure;
use crate::field::Fp;
use crate::layouter::Layouter;
use crate::layouter::Region;
use crate::session::fixed_of;
use crate::session::Cell;
use crate::session::Reason;
use crate::session::Session;
use crate::value::Value;
use vstd::prelude::*;

verus! {

/// The fixed column that a table column is.
fn fixed_of_column(column: TableColumn) -> (r: Column)
    ensures
        r == fixed_of(column),
{
    Column { kind: crate::expression::Any::Fixed, index: column.index }
}

/// The list of what an optional item holds.
pub open spec fn maybe<A>(item: Option<A>) -> Seq<A> {
    match item {
        Some(x) => seq![x],
        None => Seq::empty(),
    }
}

impl Session {
    /// The first region from `from` on that holds the row.
    pub open spec fn find_region(self, row: int, from: int) -> Option<int>
        decreases self.regions.len() - from,
    {
        if from < 0 || from >= self.regions.len() {
            None
        } else if self.regions[from].start <= row < self.regions[from].start
            + self.regions[from].rows {
            Some(from)
        } else {
            self.find_region(row, from + 1)
        }
    }

    /// Where a row lies: in the first region that holds it, or in none.
    pub open spec fn location(self, row: int) -> LocationView {
        match self.find_region(row, 0) {
            Some(i) => LocationView::InRegion {
                region: NamedView { index: i as nat, name: self.regions[i].name },
                offset: (row - self.regions[i].start) as nat,
            },
            None => LocationView::OutsideRegion { row: row as nat },
        }
    }

    /// The value of a cell for a report: zero where it is not known.
    pub open spec fn reported_value(self, column: Column, row: int) -> nat {
        match self.value_at(column, row) {
            Some(x) => x,
            None => 0,
        }
    }

    /// The cells that an expression queries, with their values as seen from
    /// a row.
    pub open spec fn cell_values(self, e: Expr, row: int) -> Seq<(Column, int, nat)> {
        e.queried().map_values(
            |q: (Column, int)| (q.0, q.1, self.reported_value(q.0, row + q.1)),
        )
    }

    /// What is wrong with constraint `c` of gate `g` on a row, if anything.
    /// A constraint holds where its polynomial is zero. Where the value of
    /// the polynomial is not known, the row is passed over in a pass that
    /// only lays the circuit out, and is an error in any other.
    pub open spec fn constraint_failure(self, g: int, c: int, row: int) -> Option<FailureView> {
        let gate = self.cs.gates[g];
        let constraint = gate.constraints[c];
        match self.eval(constraint.poly, row) {
            None => if self.dry_run {
                None
            } else {
                Some(FailureView::AssignmentError { location: self.location(row) })
            },
            Some(value) => if value == 0 {
                None
            } else {
                Some(
                    FailureView::ConstraintNotSatisfied {
                        gate: NamedView { index: g as nat, name: gate.name },
                        constraint: NamedView { index: c as nat, name: constraint.name },
                        location: self.location(row),
                        cell_values: self.cell_values(constraint.poly, row),
                    },
                )
            },
        }
    }

    /// The failures of the first `n` constraints of gate `g` on a row.
    pub open spec fn gate_failures(self, g: int, row: int, n: int) -> Seq<FailureView>
        decreases n,
    {
        if n <= 0 {
            Seq::empty()
        } else {
            self.gate_failures(g, row, n - 1) + maybe(self.constraint_failure(g, n - 1, row))
        }
    }

    /// The failures of the first `n` gates on a row.
    pub open spec fn row_failures(self, row: int, n: int) -> Seq<FailureView>
        decreases n,
    {
        if n <= 0 {
            Seq::empty()
        } else {
            self.row_failures(row, n - 1) + self.gate_failures(
                n - 1,
                row,
                self.cs.gates[n - 1].constraints.len() as int,
            )
        }
    }

    /// The failures of all gates on the first `n` rows.
    pub open spec fn gates_failures(self, n: int) -> Seq<FailureView>
        decreases n,
    {
        if n <= 0 {
            Seq::empty()
        } else {
            self.gates_failures(n - 1) + self.row_failures(n - 1, self.cs.gates.len() as int)
        }
    }

    /// Whether input `i` of lookup `l` has on a row the known value that row
    /// `t` of its table column holds.
    pub open spec fn input_matches(self, l: int, i: int, row: int, t: int) -> bool {
        let input = self.cs.lookups[l].inputs[i];
        &&& self.table_holds(input.table, t)
        &&& self.eval(input.input, row) is Some
        &&& self.read(fixed_of(input.table), t) == Some(self.eval(input.input, row))
    }

    /// Whether the inputs of lookup `l` have on a row the values that row
    /// `t` of the table holds.
    pub open spec fn table_row_matches(self, l: int, row: int, t: int) -> bool {
        forall|i: int|
            0 <= i < self.cs.lookups[l].inputs.len() ==> #[trigger] self.input_matches(
                l,
                i,
                row,
                t,
            )
    }

    /// Whether the values of the inputs of lookup `l` on a row are those of
    /// some one row of the table.
    pub open spec fn lookup_holds(self, l: int, row: int) -> bool {
        exists|t: int| 0 <= t < self.rows && #[trigger] self.table_row_matches(l, row, t)
    }

    /// Whether every input of lookup `l` has a known value on a row.
    pub open spec fn inputs_known(self, l: int, row: int) -> bool {
        forall|i: int|
            0 <= i < self.cs.lookups[l].inputs.len() ==> (#[trigger] self.eval(
                self.cs.lookups[l].inputs[i].input,
                row,
            )) is Some
    }

    /// What is wrong with lookup `l` on a row, if anything. Every row is
    /// looked up; a lookup has no switch but what its inputs encode.
    pub open spec fn lookup_failure(self, l: int, row: int) -> Option<FailureView> {
        if !self.inputs_known(l, row) {
            if self.dry_run {
                None
            } else {
                Some(FailureView::AssignmentError { location: self.location(row) })
            }
        } else if self.lookup_holds(l, row) {
            None
        } else {
            Some(
                FailureView::LookupFailure {
                    lookup: NamedView { index: l as nat, name: self.cs.lookups[l].name },
                    location: self.location(row),
                },
            )
        }
    }

    /// The failures of lookup `l` on the first `n` rows.
    pub open spec fn lookup_failures(self, l: int, n: int) -> Seq<FailureView>
        decreases n,
    {
        if n <= 0 {
            Seq::empty()
        } else {
            self.lookup_failures(l, n - 1) + maybe(self.lookup_failure(l, n - 1))
        }
    }

    /// The failures of the first `n` lookups on the usable rows.
    pub open spec fn lookups_failures(self, n: int) -> Seq<FailureView>
        decreases n,
    {
        if n <= 0 {
            Seq::empty()
        } else {
            self.lookups_failures(n - 1) + self.lookup_failures(n - 1, self.usable_rows as int)
        }
    }

    /// Whether the two cells of a copy constraint hold the same known value.
    pub open spec fn copy_holds(self, a: Cell, b: Cell) -> bool {
        self.known_at(a) is Some && self.known_at(a) == self.known_at(b)
    }

    /// What is wrong with copy constraint `i`, if anything.
    pub open spec fn copy_failure(self, i: int) -> Option<FailureView> {
        let (a, b) = self.copies[i];
        if self.copy_holds(a, b) {
            None
        } else {
            Some(FailureView::EqualityFailure { cell_a: a, cell_b: b })
        }
    }

    /// The failures of the first `n` copy constraints.
    pub open spec fn copies_failures(self, n: int) -> Seq<FailureView>
        decreases n,
    {
        if n <= 0 {
            Seq::empty()
        } else {
            self.copies_failures(n - 1) + maybe(self.copy_failure(n - 1))
        }
    }

    /// Whether some instance column among the first `n` was given a number
    /// of public inputs other than the number of its rows that instance
    /// bindings reach.
    pub open spec fn instance_mismatch(self, n: int) -> bool {
        exists|i: int| 0 <= i < n && self.instance[i].len() != #[trigger] self.bound_rows[i]
    }

    /// Whether some input of lookup `l` among the first `n` refers to a
    /// table column that was not loaded.
    pub open spec fn lookup_unloaded(self, l: int, n: int) -> bool {
        exists|i: int|
            0 <= i < n && !self.tables.contains_key(
                (#[trigger] self.cs.lookups[l].inputs[i]).table.index as int,
            )
    }

    /// Whether some lookup among the first `n` refers to a table column
    /// that was not loaded.
    pub open spec fn table_unloaded(self, n: int) -> bool {
        exists|l: int|
            0 <= l < n && #[trigger] self.lookup_unloaded(
                l,
                self.cs.lookups[l].inputs.len() as int,
            )
    }

    /// Why the witness cannot be checked at all, if it cannot.
    pub open spec fn configuration_error(self) -> Option<Reason> {
        if self.instance_mismatch(self.instance.len() as int) {
            Some(Reason::InstanceLengthMismatch)
        } else if self.table_unloaded(self.cs.lookups.len() as int) {
            Some(Reason::TableNotLoaded)
        } else {
            None
        }
    }

    /// Everything that is wrong with the witness: the configuration error
    /// alone where there is one; else the failures of the gates, row by row,
    /// then those of the lookups, lookup by lookup, then those of the copy
    /// constraints.
    pub open spec fn failures(self) -> Seq<FailureView> {
        match self.configuration_error() {
            Some(reason) => seq![FailureView::ConfigurationError { reason }],
            None => self.gates_failures(self.usable_rows as int) + self.lookups_failures(
                self.cs.lookups.len() as int,
            ) + self.copies_failures(self.copies.len() as int),
        }
    }
}

impl Session {
    /// Whether nothing is wrong with the witness: it can be checked, every
    /// constraint of every gate holds on every usable row or is passed
    /// over, so does every lookup, and every copy constraint holds.
    pub open spec fn satisfied(self) -> bool {
        &&& self.configuration_error() is None
        &&& forall|row: int, g: int, c: int|
            0 <= row < self.usable_rows && 0 <= g < self.cs.gates.len() && 0 <= c
                < self.cs.gates[g].constraints.len() ==> (#[trigger] self.constraint_failure(
                g,
                c,
                row,
            )) is None
        &&& forall|l: int, row: int|
            0 <= l < self.cs.lookups.len() && 0 <= row < self.usable_rows ==> (
            #[trigger] self.lookup_failure(l, row)) is None
        &&& forall|i: int| 0 <= i < self.copies.len() ==> (#[trigger] self.copy_failure(i)) is None
    }

    /// The first `n` constraints of a gate have no failure on a row exactly
    /// when none of them fails there.
    pub proof fn lemma_gate_failures(self, g: int, row: int, n: int)
        ensures
            self.gate_failures(g, row, n).len() == 0 <==> forall|c: int|
                0 <= c < n ==> (#[trigger] self.constraint_failure(g, c, row)) is None,
        decreases n,
    {
        if n > 0 {
            self.lemma_gate_failures(g, row, n - 1);
            if self.gate_failures(g, row, n).len() == 0 {
                assert(self.constraint_failure(g, n - 1, row) is None);
            }
        }
    }

    /// The first `n` gates have no failure on a row exactly when no
    /// constraint of theirs fails there.
    pub proof fn lemma_row_failures(self, row: int, n: int)
        ensures
            self.row_failures(row, n).len() == 0 <==> forall|g: int, c: int|
                0 <= g < n && 0 <= c < self.cs.gates[g].constraints.len() ==> (
                #[trigger] self.constraint_failure(g, c, row)) is None,
        decreases n,
    {
        if n > 0 {
            self.lemma_row_failures(row, n - 1);
            self.lemma_gate_failures(n - 1, row, self.cs.gates[n - 1].constraints.len() as int);
        }
    }

    /// The gates have no failure on the first `n` rows exactly when no
    /// constraint fails on any of them.
    pub proof fn lemma_gates_failures(self, n: int)
        ensures
            self.gates_failures(n).len() == 0 <==> forall|row: int, g: int, c: int|
                0 <= row < n && 0 <= g < self.cs.gates.len() && 0 <= c
                    < self.cs.gates[g].constraints.len() ==> (#[trigger] self.constraint_failure(
                    g,
                    c,
                    row,
                )) is None,
        decreases n,
    {
        if n > 0 {
            self.lemma_gates_failures(n - 1);
            self.lemma_row_failures(n - 1, self.cs.gates.len() as int);
        }
    }

    /// Rows on which no constraint fails add nothing to the failures of
    /// the gates.
    pub proof fn lemma_gates_failures_skip(self, from: int, n: int)
        requires
            0 <= from <= n,
            forall|row: int, g: int, c: int|
                from <= row < n && 0 <= g < self.cs.gates.len() && 0 <= c
                    < self.cs.gates[g].constraints.len() ==> (#[trigger] self.constraint_failure(
                    g,
                    c,
                    row,
                )) is None,
        ensures
            self.gates_failures(n) == self.gates_failures(from),
        decreases n - from,
    {
        if from < n {
            self.lemma_gates_failures_skip(from, n - 1);
            self.lemma_row_failures(n - 1, self.cs.gates.len() as int);
            assert(self.row_failures(n - 1, self.cs.gates.len() as int) =~= Seq::empty());
            assert(self.gates_failures(n) =~= self.gates_failures(from));
        }
    }

    /// A lookup has no failure on the first `n` rows exactly when it fails
    /// on none of them.
    pub proof fn lemma_lookup_failures(self, l: int, n: int)
        ensures
            self.lookup_failures(l, n).len() == 0 <==> forall|row: int|
                0 <= row < n ==> (#[trigger] self.lookup_failure(l, row)) is None,
        decreases n,
    {
        if n > 0 {
            self.lemma_lookup_failures(l, n - 1);
            if self.lookup_failures(l, n).len() == 0 {
                assert(self.lookup_failure(l, n - 1) is None);
            }
        }
    }

    /// The first `n` lookups have no failure exactly when none of them
    /// fails on a usable row.
    pub proof fn lemma_lookups_failures(self, n: int)
        ensures
            self.lookups_failures(n).len() == 0 <==> forall|l: int, row: int|
                0 <= l < n && 0 <= row < self.usable_rows ==> (#[trigger] self.lookup_failure(
                    l,
                    row,
                )) is None,
        decreases n,
    {
        if n > 0 {
            self.lemma_lookups_failures(n - 1);
            self.lemma_lookup_failures(n - 1, self.usable_rows as int);
        }
    }

    /// The first `n` copy constraints have no failure exactly when none of
    /// them fails.
    pub proof fn lemma_copies_failures(self, n: int)
        ensures
            self.copies_failures(n).len() == 0 <==> forall|i: int|
                0 <= i < n ==> (#[trigger] self.copy_failure(i)) is None,
        decreases n,
    {
        if n > 0 {
            self.lemma_copies_failures(n - 1);
            if self.copies_failures(n).len() == 0 {
                assert(self.copy_failure(n - 1) is None);
            }
        }
    }

    /// The check reports nothing exactly when nothing is wrong with the
    /// witness.
    pub proof fn lemma_accepts_iff_satisfied(self)
        ensures
            self.failures().len() == 0 <==> self.satisfied(),
    {
        self.lemma_gates_failures(self.usable_rows as int);
        self.lemma_lookups_failures(self.cs.lookups.len() as int);
        self.lemma_copies_failures(self.copies.len() as int);
    }

    /// Where one public input is written to two advice cells of the open
    /// region, one after the other, both cells hold its value, and the two
    /// bindings hold, as does a copy constraint between the two cells in
    /// either order.
    pub proof fn lemma_two_bindings(
        self,
        instance: Column,
        instance_row: nat,
        first: Column,
        first_offset: nat,
        second: Column,
        second_offset: nat,
    )
        requires
            self.valid(),
            self.assign_from_instance_error(instance, instance_row, first, first_offset) is None,
            self.assigned_from_instance(
                instance,
                instance_row,
                first,
                first_offset,
            ).assign_from_instance_error(instance, instance_row, second, second_offset) is None,
        ensures
            ({
                let after = self.assigned_from_instance(
                    instance,
                    instance_row,
                    first,
                    first_offset,
                ).assigned_from_instance(instance, instance_row, second, second_offset);
                let input = Cell { column: instance, row: instance_row as usize };
                let a = self.cell_at(first, first_offset);
                let b = self.cell_at(second, second_offset);
                let value = Some(self.instance[instance.index as int][instance_row as int]);
                &&& after.copies == self.copies.push((input, a)).push((input, b))
                &&& after.known_at(input) == value
                &&& after.known_at(a) == value
                &&& after.known_at(b) == value
                &&& after.copy_holds(input, a)
                &&& after.copy_holds(input, b)
                &&& after.copy_holds(a, b)
                &&& after.copy_holds(b, a)
            }),
    {
        let middle = self.assigned_from_instance(instance, instance_row, first, first_offset);
        let after = middle.assigned_from_instance(instance, instance_row, second, second_offset);
        assert(middle.regions.last().start == self.regions.last().start);
        assert(self.regions.last().start + self.regions.last().rows <= self.usable_rows);
        assert(self.instance[instance.index as int].len() <= self.rows);
        let input = Cell { column: instance, row: instance_row as usize };
        let a = self.cell_at(first, first_offset);
        let b = self.cell_at(second, second_offset);
        assert(a.row == self.row_of(first_offset));
        assert(b.row == self.row_of(second_offset));
        assert(after.cells.contains_key((first, a.row as int)));
        assert(after.cells.contains_key((second, b.row as int)));
    }

    /// Where every region takes one row and they follow one another from
    /// row zero on, a row lies in the region of its own number.
    pub proof fn lemma_find_region_of_single_rows(self, row: int, from: int)
        requires
            0 <= from <= row < self.regions.len(),
            forall|i: int|
                0 <= i < self.regions.len() ==> (#[trigger] self.regions[i]).start == i
                    && self.regions[i].rows == 1,
        ensures
            self.find_region(row, from) == Some(row),
        decreases row - from,
    {
        if from < row {
            self.lemma_find_region_of_single_rows(row, from + 1);
        }
    }

    /// A copy constraint does not depend on the order of its two cells.
    pub proof fn lemma_copy_symmetric(self, a: Cell, b: Cell)
        ensures
            self.copy_holds(a, b) == self.copy_holds(b, a),
    {
    }

    /// A copy constraint fails exactly when one of its cells holds no known
    /// value or the two values differ: what the cells hold decides, and
    /// nothing else.
    pub proof fn lemma_copy_failure(self, i: int)
        ensures
            self.copy_failure(i) is Some <==> (self.known_at(self.copies[i].0) is None
                || self.known_at(self.copies[i].1) is None || self.known_at(self.copies[i].0)
                != self.known_at(self.copies[i].1)),
            self.copy_failure(i) matches Some(failure) ==> failure
                == (FailureView::EqualityFailure {
                cell_a: self.copies[i].0,
                cell_b: self.copies[i].1,
            }),
    {
    }
}

impl Layouter {
    /// Where a row lies.
    pub fn locate(&self, row: usize) -> (r: FailureLocation)
        requires
            self.wf(),
        ensures
            r@ == self@.location(row as int),
    {
        let regions = self.regions();
        let ghost model = self@;
        let mut i: usize = 0;
        while i < regions.len()
            invariant
                i <= regions.len(),
                model == self@,
                regions@.map_values(|region: Region| region@) == model.regions,
                model.find_region(row as int, 0) == model.find_region(row as int, i as int),
            decreases regions.len() - i,
        {
            let region = regions[i];
            assert(model.regions[i as int] == region@);
            if region.start <= row && row - region.start < region.rows {
                assert(model.find_region(row as int, i as int) == Some(i as int));
                return FailureLocation::InRegion {
                    region: Named { index: i, name: region.name },
                    offset: row - region.start,
                };
            }
            i = i + 1;
        }
        FailureLocation::OutsideRegion { row }
    }

    /// The cells that an expression queries, with their values as seen from
    /// a row.
    pub fn cell_values(&self, e: &Expression, row: usize) -> (r: Vec<(VirtualCell, Fp)>)
        requires
            self.wf(),
        ensures
            cell_values_view(r@) == self@.cell_values(e@, row as int),
    {
        let mut cells: Vec<VirtualCell> = Vec::new();
        e.collect_queries(&mut cells);
        assert(crate::expression::cells_view(Seq::<VirtualCell>::empty()) =~= Seq::empty());
        let ghost queried = e@.queried();
        let mut r: Vec<(VirtualCell, Fp)> = Vec::new();
        let mut i: usize = 0;
        while i < cells.len()
            invariant
                i <= cells.len(),
                self.wf(),
                    crate::expression::cells_view(cells@) == queried,
                r.len() == i,
                forall|j: int|
                    0 <= j < i ==> cell_values_view(r@)[j] == (
                        queried[j].0,
                        queried[j].1,
                        self@.reported_value(queried[j].0, row + queried[j].1),
                    ),
            decreases cells.len() - i,
        {
            let cell = cells[i];
            assert(queried[i as int] == (cell.column, cell.rotation.0 as int));
            let at: i128 = row as i128 + cell.rotation.0 as i128;
            let value = match self.value_at(cell.column, at) {
                Value::Known(x) => x,
                Value::Unknown => Fp::zero(),
            };
            let ghost earlier = r@;
            r.push((cell, value));
            assert forall|j: int| 0 <= j < i + 1 implies cell_values_view(r@)[j] == (
                queried[j].0,
                queried[j].1,
                self@.reported_value(queried[j].0, row + queried[j].1),
            ) by {
                if j < i {
                    assert(cell_values_view(r@)[j] == cell_values_view(earlier)[j]);
                }
            }
            i = i + 1;
        }
        assert(cell_values_view(r@) =~= self@.cell_values(e@, row as int));
        r
    }

    /// What is wrong with constraint `c` of gate `g` on a row, if anything.
    pub fn check_constraint(&self, g: usize, c: usize, row: usize) -> (r: Option<VerifyFailure>)
        requires
            self.wf(),
            g < self@.cs.gates.len(),
            c < self@.cs.gates[g as int].constraints.len(),
        ensures
            match r {
                Some(failure) => self@.constraint_failure(g as int, c as int, row as int) == Some(
                    failure@,
                ),
                None => self@.constraint_failure(g as int, c as int, row as int) is None,
            },
    {
        let cs = self.constraint_system();
        let gate = &cs.gates[g];
        assert(self@.cs.gates[g as int] == gate@);
        let constraint = &gate.constraints[c];
        assert(gate@.constraints[c as int] == constraint@);
        match self.evaluate(&constraint.poly, row) {
            Value::Unknown => {
                if self.dry_run() {
                    None
                } else {
                    Some(VerifyFailure::AssignmentError { location: self.locate(row) })
                }
            },
            Value::Known(value) => {
                if value.is_zero() {
                    None
                } else {
                    Some(
                        VerifyFailure::ConstraintNotSatisfied {
                            gate: Named { index: g, name: gate.name },
                            constraint: Named { index: c, name: constraint.name },
                            location: self.locate(row),
                            cell_values: self.cell_values(&constraint.poly, row),
                        },
                    )
                }
            },
        }
    }

    /// Appends the failures of all gates on the usable rows.
    fn check_gates(&self, found: &mut Vec<VerifyFailure>)
        requires
            self.wf(),
        ensures
            failures_view(final(found)@) == failures_view(old(found)@) + self@.gates_failures(
                self@.usable_rows as int,
            ),
    {
        let cs = self.constraint_system();
        let usable = self.usable_rows();
        let ghost model = self@;
        let ghost before = failures_view(found@);
        let mut row: usize = 0;
        assert(failures_view(found@) =~= before + model.gates_failures(0));
        while row < usable
            invariant
                row <= usable,
                usable <= model.rows,
                self.wf(),
                model == self@,
                cs@ == model.cs,
                failures_view(found@) == before + model.gates_failures(row as int),
            decreases usable - row,
        {
            let ghost at_row = failures_view(found@);
            let mut g: usize = 0;
            assert(failures_view(found@) =~= at_row + model.row_failures(row as int, 0));
            while g < cs.gates.len()
                invariant
                    g <= cs.gates.len(),
                    row < usable,
                    usable <= model.rows,
                    self.wf(),
                    model == self@,
                    cs@ == model.cs,
                    failures_view(found@) == at_row + model.row_failures(row as int, g as int),
                decreases cs.gates.len() - g,
            {
                let ghost at_gate = failures_view(found@);
                let count = cs.gates[g].constraints.len();
                assert(model.cs.gates[g as int] == cs.gates[g as int]@);
                let mut c: usize = 0;
                assert(failures_view(found@) =~= at_gate + model.gate_failures(
                    g as int,
                    row as int,
                    0,
                ));
                while c < count
                    invariant
                        c <= count,
                        g < cs.gates.len(),
                        count == model.cs.gates[g as int].constraints.len(),
                        row < usable,
                        usable <= model.rows,
                        self.wf(),
                        model == self@,
                        cs@ == model.cs,
                        failures_view(found@) == at_gate + model.gate_failures(
                            g as int,
                            row as int,
                            c as int,
                        ),
                    decreases count - c,
                {
                    let ghost earlier = failures_view(found@);
                    match self.check_constraint(g, c, row) {
                        Some(failure) => {
                            found.push(failure);
                            assert(failures_view(found@) =~= earlier + seq![failure@]);
                        },
                        None => {},
                    }
                    assert(failures_view(found@) =~= at_gate + model.gate_failures(
                        g as int,
                        row as int,
                        c as int + 1,
                    ));
                    c = c + 1;
                }
                assert(failures_view(found@) =~= at_row + model.row_failures(
                    row as int,
                    g as int + 1,
                ));
                g = g + 1;
            }
            assert(failures_view(found@) =~= before + model.gates_failures(row as int + 1));
            row = row + 1;
        }
    }

    /// Whether row `t` belongs to the loaded table of a table column.
    fn table_holds(&self, column: TableColumn, t: usize) -> (r: bool)
        requires
            self.wf(),
        ensures
            r == self@.table_holds(column, t as int),
    {
        let cs = self.constraint_system();
        match self.table_start(column) {
            Some(start) => {
                if column.index < cs.fixed.len() {
                    match cs.fixed[column.index].table_rows {
                        Some(size) => start <= t && t - start < size,
                        None => false,
                    }
                } else {
                    false
                }
            },
            None => false,
        }
    }

    /// The values of the inputs of lookup `l` on a row, if all are known.
    fn lookup_inputs(&self, l: usize, row: usize) -> (r: Option<Vec<Fp>>)
        requires
            self.wf(),
            l < self@.cs.lookups.len(),
        ensures
            match r {
                Some(values) => self@.inputs_known(l as int, row as int) && values.len()
                    == self@.cs.lookups[l as int].inputs.len() && forall|i: int|
                    0 <= i < values.len() ==> Some((#[trigger] values[i])@) == self@.eval(
                        self@.cs.lookups[l as int].inputs[i].input,
                        row as int,
                    ),
                None => !self@.inputs_known(l as int, row as int),
            },
    {
        let cs = self.constraint_system();
        let lookup = &cs.lookups[l];
        assert(self@.cs.lookups[l as int] == lookup@);
        let mut values: Vec<Fp> = Vec::new();
        let mut i: usize = 0;
        while i < lookup.inputs.len()
            invariant
                i <= lookup.inputs.len(),
                self.wf(),
                    l < self@.cs.lookups.len(),
                self@.cs.lookups[l as int] == lookup@,
                values.len() == i,
                forall|j: int|
                    0 <= j < i ==> Some((#[trigger] values[j])@) == self@.eval(
                        self@.cs.lookups[l as int].inputs[j].input,
                        row as int,
                    ),
            decreases lookup.inputs.len() - i,
        {
            assert(lookup@.inputs[i as int] == lookup.inputs[i as int]@);
            match self.evaluate(&lookup.inputs[i].input, row) {
                Value::Known(x) => {
                    values.push(x);
                },
                Value::Unknown => {
                    assert(self@.eval(self@.cs.lookups[l as int].inputs[i as int].input, row as int)
                        is None);
                    return None;
                },
            }
            i = i + 1;
        }
        assert forall|j: int| 0 <= j < self@.cs.lookups[l as int].inputs.len() implies (
        #[trigger] self@.eval(self@.cs.lookups[l as int].inputs[j].input, row as int)) is Some by {
            assert(Some(values[j]@) == self@.eval(
                self@.cs.lookups[l as int].inputs[j].input,
                row as int,
            ));
        }
        Some(values)
    }

    /// Whether the inputs of lookup `l`, which have the given values on a
    /// row, have the values that row `t` of the table holds.
    fn table_row_matches(&self, l: usize, values: &Vec<Fp>, row: usize, t: usize) -> (r: bool)
        requires
            self.wf(),
            l < self@.cs.lookups.len(),
            values.len() == self@.cs.lookups[l as int].inputs.len(),
            forall|i: int|
                0 <= i < values.len() ==> Some((#[trigger] values[i])@) == self@.eval(
                    self@.cs.lookups[l as int].inputs[i].input,
                    row as int,
                ),
        ensures
            r == self@.table_row_matches(l as int, row as int, t as int),
    {
        let cs = self.constraint_system();
        let lookup = &cs.lookups[l];
        assert(self@.cs.lookups[l as int] == lookup@);
        let mut i: usize = 0;
        while i < lookup.inputs.len()
            invariant
                i <= lookup.inputs.len(),
                self.wf(),
                l < self@.cs.lookups.len(),
                self@.cs.lookups[l as int] == lookup@,
                values.len() == lookup.inputs.len(),
                forall|j: int|
                    0 <= j < values.len() ==> Some((#[trigger] values[j])@) == self@.eval(
                        self@.cs.lookups[l as int].inputs[j].input,
                        row as int,
                    ),
                forall|j: int|
                    0 <= j < i ==> #[trigger] self@.input_matches(
                        l as int,
                        j,
                        row as int,
                        t as int,
                    ),
            decreases lookup.inputs.len() - i,
        {
            assert(lookup@.inputs[i as int] == lookup.inputs[i as int]@);
            let column = lookup.inputs[i].table;
            assert(Some(values[i as int]@) == self@.eval(
                self@.cs.lookups[l as int].inputs[i as int].input,
                row as int,
            ));
            let matches = self.table_holds(column, t) && match self.known_at(
                Cell { column: fixed_of_column(column), row: t },
            ) {
                Some(x) => x.equals(&values[i]),
                None => false,
            };
            if !matches {
                assert(!self@.input_matches(l as int, i as int, row as int, t as int));
                return false;
            }
            assert(self@.input_matches(l as int, i as int, row as int, t as int));
            i = i + 1;
        }
        true
    }

    /// Whether the inputs of lookup `l`, which have the given values on a
    /// row, have the values of some one row of the table.
    fn lookup_holds(&self, l: usize, values: &Vec<Fp>, row: usize) -> (r: bool)
        requires
            self.wf(),
            l < self@.cs.lookups.len(),
            values.len() == self@.cs.lookups[l as int].inputs.len(),
            forall|i: int|
                0 <= i < values.len() ==> Some((#[trigger] values[i])@) == self@.eval(
                    self@.cs.lookups[l as int].inputs[i].input,
                    row as int,
                ),
        ensures
            r == self@.lookup_holds(l as int, row as int),
    {
        let cs = self.constraint_system();
        let rows = self.rows();
        let lookup = &cs.lookups[l];
        assert(self@.cs.lookups[l as int] == lookup@);
        if lookup.inputs.len() == 0 {
            proof {
                if rows > 0 {
                    assert(self@.table_row_matches(l as int, row as int, 0));
                }
            }
            return rows > 0;
        }
        assert(lookup@.inputs[0] == lookup.inputs[0]@);
        let first = lookup.inputs[0].table;
        let start = match self.table_start(first) {
            Some(start) => start,
            None => {
                assert forall|t: int| 0 <= t < self@.rows implies !#[trigger] self@.table_row_matches(
                    l as int,
                    row as int,
                    t,
                ) by {
                    assert(!self@.input_matches(l as int, 0, row as int, t));
                }
                return false;
            },
        };
        let mut t: usize = start;
        while t < rows
            invariant
                start <= t,
                self.wf(),
                rows == self@.rows,
                l < self@.cs.lookups.len(),
                self@.cs.lookups[l as int] == lookup@,
                lookup.inputs.len() > 0,
                first == lookup@.inputs[0].table,
                self@.tables.contains_key(first.index as int),
                self@.tables[first.index as int] == start,
                values.len() == self@.cs.lookups[l as int].inputs.len(),
                forall|i: int|
                    0 <= i < values.len() ==> Some((#[trigger] values[i])@) == self@.eval(
                        self@.cs.lookups[l as int].inputs[i].input,
                        row as int,
                    ),
                forall|u: int|
                    start <= u < t ==> !#[trigger] self@.table_row_matches(l as int, row as int, u),
            decreases rows - t,
        {
            if self.table_row_matches(l, values, row, t) {
                return true;
            }
            t = t + 1;
        }
        assert forall|u: int| 0 <= u < self@.rows implies !#[trigger] self@.table_row_matches(
            l as int,
            row as int,
            u,
        ) by {
            if u < start {
                assert(!self@.input_matches(l as int, 0, row as int, u));
            }
        }
        false
    }

    /// What is wrong with lookup `l` on a row, if anything.
    pub fn check_lookup(&self, l: usize, row: usize) -> (r: Option<VerifyFailure>)
        requires
            self.wf(),
            l < self@.cs.lookups.len(),
        ensures
            match r {
                Some(failure) => self@.lookup_failure(l as int, row as int) == Some(failure@),
                None => self@.lookup_failure(l as int, row as int) is None,
            },
    {
        let cs = self.constraint_system();
        assert(self@.cs.lookups[l as int] == cs.lookups[l as int]@);
        match self.lookup_inputs(l, row) {
            None => {
                if self.dry_run() {
                    None
                } else {
                    Some(VerifyFailure::AssignmentError { location: self.locate(row) })
                }
            },
            Some(values) => {
                if self.lookup_holds(l, &values, row) {
                    None
                } else {
                    Some(
                        VerifyFailure::LookupFailure {
                            lookup: Named { index: l, name: cs.lookups[l].name },
                            location: self.locate(row),
                        },
                    )
                }
            },
        }
    }

    /// Appends the failures of all lookups on the usable rows.
    fn check_lookups(&self, found: &mut Vec<VerifyFailure>)
        requires
            self.wf(),
        ensures
            failures_view(final(found)@) == failures_view(old(found)@) + self@.lookups_failures(
                self@.cs.lookups.len() as int,
            ),
    {
        let cs = self.constraint_system();
        let usable = self.usable_rows();
        let ghost model = self@;
        let ghost before = failures_view(found@);
        let mut l: usize = 0;
        assert(failures_view(found@) =~= before + model.lookups_failures(0));
        while l < cs.lookups.len()
            invariant
                l <= cs.lookups.len(),
                usable == model.usable_rows,
                usable <= model.rows,
                self.wf(),
                model == self@,
                cs@ == model.cs,
                failures_view(found@) == before + model.lookups_failures(l as int),
            decreases cs.lookups.len() - l,
        {
            let ghost at_lookup = failures_view(found@);
            let mut row: usize = 0;
            assert(failures_view(found@) =~= at_lookup + model.lookup_failures(l as int, 0));
            while row < usable
                invariant
                    row <= usable,
                    l < cs.lookups.len(),
                    usable == model.usable_rows,
                    usable <= model.rows,
                    self.wf(),
                    model == self@,
                    cs@ == model.cs,
                    failures_view(found@) == at_lookup + model.lookup_failures(
                        l as int,
                        row as int,
                    ),
                decreases usable - row,
            {
                let ghost earlier = failures_view(found@);
                match self.check_lookup(l, row) {
                    Some(failure) => {
                        found.push(failure);
                        assert(failures_view(found@) =~= earlier + seq![failure@]);
                    },
                    None => {},
                }
                assert(failures_view(found@) =~= at_lookup + model.lookup_failures(
                    l as int,
                    row as int + 1,
                ));
                row = row + 1;
            }
            assert(failures_view(found@) =~= before + model.lookups_failures(l as int + 1));
            l = l + 1;
        }
    }

    /// Why the witness cannot be checked at all, if it cannot.
    pub fn configuration_error(&self) -> (r: Option<Reason>)
        requires
            self.wf(),
        ensures
            r == self@.configuration_error(),
    {
        let cs = self.constraint_system();
        let columns = self.instance_columns();
        let mut i: usize = 0;
        while i < columns
            invariant
                i <= columns,
                self.wf(),
                columns == self@.instance.len(),
                columns == self@.bound_rows.len(),
                !self@.instance_mismatch(i as int),
            decreases columns - i,
        {
            if self.instance_len(i) != self.bound_rows(i) {
                assert(self@.instance[i as int].len() != self@.bound_rows[i as int]);
                return Some(Reason::InstanceLengthMismatch);
            }
            i = i + 1;
        }
        let mut l: usize = 0;
        while l < cs.lookups.len()
            invariant
                l <= cs.lookups.len(),
                self.wf(),
                cs@ == self@.cs,
                !self@.instance_mismatch(self@.instance.len() as int),
                !self@.table_unloaded(l as int),
            decreases cs.lookups.len() - l,
        {
            let lookup = &cs.lookups[l];
            assert(self@.cs.lookups[l as int] == lookup@);
            let mut i: usize = 0;
            while i < lookup.inputs.len()
                invariant
                    i <= lookup.inputs.len(),
                    l < cs.lookups.len(),
                    self.wf(),
                    cs@ == self@.cs,
                    self@.cs.lookups[l as int] == lookup@,
                    !self@.instance_mismatch(self@.instance.len() as int),
                    !self@.table_unloaded(l as int),
                    !self@.lookup_unloaded(l as int, i as int),
                decreases lookup.inputs.len() - i,
            {
                assert(lookup@.inputs[i as int] == lookup.inputs[i as int]@);
                if self.table_start(lookup.inputs[i].table).is_none() {
                    assert(!self@.tables.contains_key(
                        self@.cs.lookups[l as int].inputs[i as int].table.index as int,
                    ));
                    assert(self@.lookup_unloaded(
                        l as int,
                        self@.cs.lookups[l as int].inputs.len() as int,
                    ));
                    assert(self@.table_unloaded(cs.lookups.len() as int));
                    return Some(Reason::TableNotLoaded);
                }
                i = i + 1;
            }
            l = l + 1;
        }
        None
    }

    /// Checks the witness against the circuit and reports everything that
    /// is wrong with it.
    pub fn verify(&self) -> (r: Result<(), Vec<VerifyFailure>>)
        requires
            self.wf(),
        ensures
            match r {
                Ok(_) => self@.failures().len() == 0,
                Err(found) => found.len() > 0 && failures_view(found@) == self@.failures(),
            },
    {
        let mut found: Vec<VerifyFailure> = Vec::new();
        assert(failures_view(found@) =~= Seq::empty());
        match self.configuration_error() {
            Some(reason) => {
                let failure = VerifyFailure::ConfigurationError { reason };
                found.push(failure);
                assert(failures_view(found@) =~= seq![failure@]);
                return Err(found);
            },
            None => {},
        }
        self.check_gates(&mut found);
        self.check_lookups(&mut found);
        self.check_copies(&mut found);
        assert(failures_view(found@) =~= self@.failures());
        if found.len() == 0 {
            Ok(())
        } else {
            Err(found)
        }
    }

    /// Whether the two cells of a copy constraint hold the same known value.
    pub fn copy_holds(&self, a: Cell, b: Cell) -> (r: bool)
        requires
            self.wf(),
        ensures
            r == self@.copy_holds(a, b),
    {
        match (self.known_at(a), self.known_at(b)) {
            (Some(x), Some(y)) => x.equals(&y),
            _ => false,
        }
    }

    /// Appends the failures of the copy constraints.
    fn check_copies(&self, found: &mut Vec<VerifyFailure>)
        requires
            self.wf(),
        ensures
            failures_view(final(found)@) == failures_view(old(found)@) + self@.copies_failures(
                self@.copies.len() as int,
            ),
    {
        let copies = self.copies();
        let ghost model = self@;
        let ghost before = failures_view(found@);
        let mut i: usize = 0;
        assert(failures_view(found@) =~= before + model.copies_failures(0));
        while i < copies.len()
            invariant
                i <= copies.len(),
                self.wf(),
                model == self@,
                copies@ == model.copies,
                failures_view(found@) == before + model.copies_failures(i as int),
            decreases copies.len() - i,
        {
            let ghost earlier = failures_view(found@);
            let (a, b) = copies[i];
            if !self.copy_holds(a, b) {
                let failure = VerifyFailure::EqualityFailure { cell_a: a, cell_b: b };
                found.push(failure);
                assert(failures_view(found@) =~= earlier + seq![failure@]);
            }
            assert(failures_view(found@) =~= before + model.copies_failures(i as int + 1));
            i = i + 1;
        }
    }
}

} // verus!
