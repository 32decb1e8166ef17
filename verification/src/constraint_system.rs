//! The description of a circuit: its columns, selectors, gates and lookups.
//!
//! A [`ConstraintSystem`] is filled once, before any witness exists, and is
//! then handed over to an assignment session, which owns it from there on.

use crate::expression::Any;
use crate::expression::Column;
use crate::expression::Expr;
use crate::expression::Expression;
use crate::expression::Rotation;
use crate::expression::Selector;
use crate::expression::TableColumn;
use vstd::prelude::*;

verus! {

/// The number of rows at the end of every column that are left to the proving
/// backend, unless the circuit says otherwise.
pub const DEFAULT_BLINDING_ROWS: usize = 6;

/// A named polynomial that has to vanish on every checked row.
#[derive(Debug)]
pub struct Constraint {
    pub name: &'static str,
    pub poly: Expression,
}

/// A named list of constraints. A gate is not switched by anything but what
/// its own polynomials say.
#[derive(Debug)]
pub struct Gate {
    pub name: &'static str,
    pub constraints: Vec<Constraint>,
}

/// One component of a lookup: an input expression and the table column in
/// which its value is looked up.
#[derive(Debug)]
pub struct LookupInput {
    pub input: Expression,
    pub table: TableColumn,
}

/// A named lookup: on every checked row, the values of the inputs must be
/// those of one row of the table columns.
#[derive(Debug)]
pub struct Lookup {
    pub name: &'static str,
    pub inputs: Vec<LookupInput>,
}

/// What is recorded of a fixed column.
#[derive(Clone, Copy, Debug, PartialEq, Eq, Structural)]
pub struct FixedColumn {
    /// Whether its cells may take part in copy constraints.
    pub equality: bool,
    /// For a column of a lookup table, the number of rows of the table.
    pub table_rows: Option<usize>,
}

pub struct ConstraintView {
    pub name: Seq<char>,
    pub poly: Expr,
}

pub struct GateView {
    pub name: Seq<char>,
    pub constraints: Seq<ConstraintView>,
}

pub struct LookupInputView {
    pub input: Expr,
    pub table: TableColumn,
}

pub struct LookupView {
    pub name: Seq<char>,
    pub inputs: Seq<LookupInputView>,
}

/// The mathematical content of a [`ConstraintSystem`].
pub struct ConstraintSystemView {
    /// For each advice column, whether equality is enabled on it.
    pub advice: Seq<bool>,
    pub fixed: Seq<FixedColumn>,
    /// For each instance column, whether equality is enabled on it.
    pub instance: Seq<bool>,
    /// For each selector, whether it is simple.
    pub selectors: Seq<bool>,
    pub gates: Seq<GateView>,
    pub lookups: Seq<LookupView>,
    pub blinding_rows: nat,
}

impl View for Constraint {
    type V = ConstraintView;

    open spec fn view(&self) -> ConstraintView {
        ConstraintView { name: self.name@, poly: self.poly@ }
    }
}

impl View for Gate {
    type V = GateView;

    open spec fn view(&self) -> GateView {
        GateView {
            name: self.name@,
            constraints: self.constraints@.map_values(|c: Constraint| c@),
        }
    }
}

impl View for LookupInput {
    type V = LookupInputView;

    open spec fn view(&self) -> LookupInputView {
        LookupInputView { input: self.input@, table: self.table }
    }
}

impl View for Lookup {
    type V = LookupView;

    open spec fn view(&self) -> LookupView {
        LookupView { name: self.name@, inputs: self.inputs@.map_values(|i: LookupInput| i@) }
    }
}

impl ConstraintSystemView {
    /// The system without columns, gates or lookups.
    pub open spec fn empty() -> ConstraintSystemView {
        ConstraintSystemView {
            advice: Seq::empty(),
            fixed: Seq::empty(),
            instance: Seq::empty(),
            selectors: Seq::empty(),
            gates: Seq::empty(),
            lookups: Seq::empty(),
            blinding_rows: DEFAULT_BLINDING_ROWS as nat,
        }
    }

    /// Whether the system has this column.
    pub open spec fn has_column(self, column: Column) -> bool {
        match column.kind {
            Any::Advice => column.index < self.advice.len(),
            Any::Fixed => column.index < self.fixed.len(),
            Any::Instance => column.index < self.instance.len(),
        }
    }

    /// Whether the system has this column and equality is enabled on it.
    pub open spec fn equality_enabled(self, column: Column) -> bool {
        match column.kind {
            Any::Advice => column.index < self.advice.len() && self.advice[column.index as int],
            Any::Fixed => column.index < self.fixed.len() && self.fixed[column.index as int].equality,
            Any::Instance => column.index < self.instance.len()
                && self.instance[column.index as int],
        }
    }

    /// The system with equality enabled on the column, if it has the column.
    pub open spec fn with_equality(self, column: Column) -> ConstraintSystemView {
        if !self.has_column(column) {
            self
        } else {
            match column.kind {
                Any::Advice => ConstraintSystemView {
                    advice: self.advice.update(column.index as int, true),
                    ..self
                },
                Any::Fixed => ConstraintSystemView {
                    fixed: self.fixed.update(
                        column.index as int,
                        FixedColumn { equality: true, ..self.fixed[column.index as int] },
                    ),
                    ..self
                },
                Any::Instance => ConstraintSystemView {
                    instance: self.instance.update(column.index as int, true),
                    ..self
                },
            }
        }
    }

    /// Whether every rotation that a gate or a lookup queries lies strictly
    /// between `-bound` and `bound`.
    pub open spec fn rotations_within(self, bound: int) -> bool {
        &&& forall|g: int, c: int|
            0 <= g < self.gates.len() && 0 <= c < self.gates[g].constraints.len()
                ==> (#[trigger] self.gates[g].constraints[c]).poly.rotations_within(bound)
        &&& forall|l: int, i: int|
            0 <= l < self.lookups.len() && 0 <= i < self.lookups[l].inputs.len()
                ==> (#[trigger] self.lookups[l].inputs[i]).input.rotations_within(bound)
    }

    /// Whether in every constraint of every gate every simple selector
    /// stands alone.
    pub open spec fn selectors_apart(self) -> bool {
        forall|g: int, c: int|
            0 <= g < self.gates.len() && 0 <= c < self.gates[g].constraints.len() ==> (
            #[trigger] self.gates[g].constraints[c]).poly.selectors_apart()
    }

    /// The number of rows of the table that the fixed column belongs to, if
    /// the system has the column and it is a table column.
    pub open spec fn table_rows(self, index: int) -> Option<usize> {
        if 0 <= index < self.fixed.len() {
            self.fixed[index].table_rows
        } else {
            None
        }
    }
}

/// The description of a circuit.
#[derive(Debug)]
pub struct ConstraintSystem {
    /// For each advice column, whether equality is enabled on it.
    pub advice: Vec<bool>,
    pub fixed: Vec<FixedColumn>,
    /// For each instance column, whether equality is enabled on it.
    pub instance: Vec<bool>,
    /// For each selector, whether it is simple.
    pub selectors: Vec<bool>,
    pub gates: Vec<Gate>,
    pub lookups: Vec<Lookup>,
    /// The number of rows at the end of every column that are not checked.
    pub blinding_rows: usize,
}

impl View for ConstraintSystem {
    type V = ConstraintSystemView;

    open spec fn view(&self) -> ConstraintSystemView {
        ConstraintSystemView {
            advice: self.advice@,
            fixed: self.fixed@,
            instance: self.instance@,
            selectors: self.selectors@,
            gates: self.gates@.map_values(|g: Gate| g@),
            lookups: self.lookups@.map_values(|l: Lookup| l@),
            blinding_rows: self.blinding_rows as nat,
        }
    }
}

/// Constraints that share a selector.
pub struct Constraints;

/// The constraints with each polynomial multiplied by a selector.
pub open spec fn gated(selector: Expr, constraints: Seq<ConstraintView>) -> Seq<ConstraintView> {
    constraints.map_values(
        |c: ConstraintView| ConstraintView { name: c.name, poly: Expr::product(selector, c.poly) },
    )
}

/// The content of a list of constraints.
pub open spec fn constraints_view(constraints: Seq<Constraint>) -> Seq<ConstraintView> {
    constraints.map_values(|c: Constraint| c@)
}

impl Constraints {
    /// Multiplies the polynomial of each constraint by a selector, so that
    /// the constraints bind only where the selector is not zero.
    pub fn with_selector(selector: &Expression, constraints: &Vec<Constraint>) -> (r: Vec<
        Constraint,
    >)
        ensures
            constraints_view(r@) == gated(selector@, constraints_view(constraints@)),
    {
        let mut r: Vec<Constraint> = Vec::new();
        let mut i: usize = 0;
        while i < constraints.len()
            invariant
                i <= constraints.len(),
                r.len() == i,
                forall|j: int|
                    0 <= j < i ==> (#[trigger] r[j])@ == (ConstraintView {
                        name: constraints[j].name@,
                        poly: Expr::product(selector@, constraints[j].poly@),
                    }),
            decreases constraints.len() - i,
        {
            let poly = selector.duplicate().times(constraints[i].poly.duplicate());
            r.push(Constraint { name: constraints[i].name, poly });
            i = i + 1;
        }
        assert(constraints_view(r@) =~= gated(selector@, constraints_view(constraints@)));
        r
    }
}

impl Constraint {
    /// The constraint that `poly` vanishes, under a name.
    pub fn new(name: &'static str, poly: Expression) -> (r: Constraint)
        ensures
            r@ == (ConstraintView { name: name@, poly: poly@ }),
    {
        Constraint { name, poly }
    }
}

impl LookupInput {
    /// The component that looks `input` up in `table`.
    pub fn new(input: Expression, table: TableColumn) -> (r: LookupInput)
        ensures
            r@ == (LookupInputView { input: input@, table }),
    {
        LookupInput { input, table }
    }
}

impl ConstraintSystem {
    /// A description without columns, gates or lookups.
    pub fn new() -> (r: ConstraintSystem)
        ensures
            r@ == ConstraintSystemView::empty(),
    {
        let r = ConstraintSystem {
            advice: Vec::new(),
            fixed: Vec::new(),
            instance: Vec::new(),
            selectors: Vec::new(),
            gates: Vec::new(),
            lookups: Vec::new(),
            blinding_rows: DEFAULT_BLINDING_ROWS,
        };
        assert(r@.gates =~= Seq::empty());
        assert(r@.lookups =~= Seq::empty());
        r
    }

    /// Sets the number of rows at the end of every column that are left
    /// unchecked.
    pub fn set_blinding_rows(&mut self, rows: usize)
        ensures
            final(self)@ == (ConstraintSystemView { blinding_rows: rows as nat, ..old(self)@ }),
    {
        self.blinding_rows = rows;
    }

    /// Allocates an advice column.
    pub fn advice_column(&mut self) -> (r: Column)
        ensures
            r == (Column { kind: Any::Advice, index: old(self)@.advice.len() as usize }),
            final(self)@ == (ConstraintSystemView {
                advice: old(self)@.advice.push(false),
                ..old(self)@
            }),
    {
        let index = self.advice.len();
        self.advice.push(false);
        Column { kind: Any::Advice, index }
    }

    /// Allocates a fixed column.
    pub fn fixed_column(&mut self) -> (r: Column)
        ensures
            r == (Column { kind: Any::Fixed, index: old(self)@.fixed.len() as usize }),
            final(self)@ == (ConstraintSystemView {
                fixed: old(self)@.fixed.push(FixedColumn { equality: false, table_rows: None }),
                ..old(self)@
            }),
    {
        let index = self.fixed.len();
        self.fixed.push(FixedColumn { equality: false, table_rows: None });
        Column { kind: Any::Fixed, index }
    }

    /// Allocates an instance column.
    pub fn instance_column(&mut self) -> (r: Column)
        ensures
            r == (Column { kind: Any::Instance, index: old(self)@.instance.len() as usize }),
            final(self)@ == (ConstraintSystemView {
                instance: old(self)@.instance.push(false),
                ..old(self)@
            }),
    {
        let index = self.instance.len();
        self.instance.push(false);
        Column { kind: Any::Instance, index }
    }

    /// Allocates a fixed column for a lookup table of `rows` rows.
    pub fn lookup_table_column(&mut self, rows: usize) -> (r: TableColumn)
        ensures
            r == (TableColumn { index: old(self)@.fixed.len() as usize }),
            final(self)@ == (ConstraintSystemView {
                fixed: old(self)@.fixed.push(
                    FixedColumn { equality: false, table_rows: Some(rows) },
                ),
                ..old(self)@
            }),
    {
        let index = self.fixed.len();
        self.fixed.push(FixedColumn { equality: false, table_rows: Some(rows) });
        TableColumn { index }
    }

    /// Allocates a simple selector.
    pub fn selector(&mut self) -> (r: Selector)
        ensures
            r == (Selector { index: old(self)@.selectors.len() as usize, simple: true }),
            final(self)@ == (ConstraintSystemView {
                selectors: old(self)@.selectors.push(true),
                ..old(self)@
            }),
    {
        let index = self.selectors.len();
        self.selectors.push(true);
        Selector { index, simple: true }
    }

    /// Allocates a complex selector.
    pub fn complex_selector(&mut self) -> (r: Selector)
        ensures
            r == (Selector { index: old(self)@.selectors.len() as usize, simple: false }),
            final(self)@ == (ConstraintSystemView {
                selectors: old(self)@.selectors.push(false),
                ..old(self)@
            }),
    {
        let index = self.selectors.len();
        self.selectors.push(false);
        Selector { index, simple: false }
    }

    /// Marks a column as one whose cells may take part in copy constraints
    /// and instance bindings. A column that the system lacks is left alone.
    pub fn enable_equality(&mut self, column: Column)
        ensures
            final(self)@ == old(self)@.with_equality(column),
    {
        match column.kind {
            Any::Advice => {
                if column.index < self.advice.len() {
                    self.advice.set(column.index, true);
                }
            },
            Any::Fixed => {
                if column.index < self.fixed.len() {
                    let table_rows = self.fixed[column.index].table_rows;
                    self.fixed.set(column.index, FixedColumn { equality: true, table_rows });
                }
            },
            Any::Instance => {
                if column.index < self.instance.len() {
                    self.instance.set(column.index, true);
                }
            },
        }
    }

    /// Whether the system has the column and equality is enabled on it.
    pub fn equality_enabled(&self, column: Column) -> (r: bool)
        ensures
            r == self@.equality_enabled(column),
    {
        match column.kind {
            Any::Advice => column.index < self.advice.len() && self.advice[column.index],
            Any::Fixed => column.index < self.fixed.len() && self.fixed[column.index].equality,
            Any::Instance => column.index < self.instance.len() && self.instance[column.index],
        }
    }

    /// Whether every rotation that a gate or a lookup queries lies strictly
    /// between `-bound` and `bound`.
    pub fn rotations_within(&self, bound: usize) -> (r: bool)
        ensures
            r == self@.rotations_within(bound as int),
    {
        let mut g: usize = 0;
        while g < self.gates.len()
            invariant
                g <= self.gates.len(),
                forall|h: int, c: int|
                    0 <= h < g && 0 <= c < self@.gates[h].constraints.len() ==> (
                    #[trigger] self@.gates[h].constraints[c]).poly.rotations_within(bound as int),
            decreases self.gates.len() - g,
        {
            let gate = &self.gates[g];
            let mut c: usize = 0;
            while c < gate.constraints.len()
                invariant
                    g < self.gates.len(),
                    gate == &self.gates[g as int],
                    c <= gate.constraints.len(),
                    forall|d: int|
                        0 <= d < c ==> (#[trigger] self@.gates[g as int].constraints[d]).poly.rotations_within(
                            bound as int,
                        ),
                decreases gate.constraints.len() - c,
            {
                assert(self@.gates[g as int].constraints[c as int] == gate.constraints[c as int]@);
                if !gate.constraints[c].poly.rotations_within(bound) {
                    return false;
                }
                c = c + 1;
            }
            g = g + 1;
        }
        let mut l: usize = 0;
        while l < self.lookups.len()
            invariant
                l <= self.lookups.len(),
                forall|h: int, c: int|
                    0 <= h < self@.gates.len() && 0 <= c < self@.gates[h].constraints.len() ==> (
                    #[trigger] self@.gates[h].constraints[c]).poly.rotations_within(bound as int),
                forall|h: int, i: int|
                    0 <= h < l && 0 <= i < self@.lookups[h].inputs.len() ==> (
                    #[trigger] self@.lookups[h].inputs[i]).input.rotations_within(bound as int),
            decreases self.lookups.len() - l,
        {
            let lookup = &self.lookups[l];
            let mut i: usize = 0;
            while i < lookup.inputs.len()
                invariant
                    l < self.lookups.len(),
                    lookup == &self.lookups[l as int],
                    i <= lookup.inputs.len(),
                    forall|d: int|
                        0 <= d < i ==> (#[trigger] self@.lookups[l as int].inputs[d]).input.rotations_within(
                            bound as int,
                        ),
                decreases lookup.inputs.len() - i,
            {
                assert(self@.lookups[l as int].inputs[i as int] == lookup.inputs[i as int]@);
                if !lookup.inputs[i].input.rotations_within(bound) {
                    return false;
                }
                i = i + 1;
            }
            l = l + 1;
        }
        true
    }

    /// Whether in every constraint of every gate every simple selector
    /// stands alone.
    pub fn selectors_apart(&self) -> (r: bool)
        ensures
            r == self@.selectors_apart(),
    {
        let mut g: usize = 0;
        while g < self.gates.len()
            invariant
                g <= self.gates.len(),
                forall|h: int, c: int|
                    0 <= h < g && 0 <= c < self@.gates[h].constraints.len() ==> (
                    #[trigger] self@.gates[h].constraints[c]).poly.selectors_apart(),
            decreases self.gates.len() - g,
        {
            let gate = &self.gates[g];
            let mut c: usize = 0;
            while c < gate.constraints.len()
                invariant
                    g < self.gates.len(),
                    gate == &self.gates[g as int],
                    c <= gate.constraints.len(),
                    forall|d: int|
                        0 <= d < c ==> (
                        #[trigger] self@.gates[g as int].constraints[d]).poly.selectors_apart(),
                decreases gate.constraints.len() - c,
            {
                assert(self@.gates[g as int].constraints[c as int] == gate.constraints[c as int]@);
                if !gate.constraints[c].poly.selectors_apart() {
                    return false;
                }
                c = c + 1;
            }
            g = g + 1;
        }
        true
    }

    /// The expression that reads a selector on the row itself.
    pub fn query_selector(&self, selector: Selector) -> (r: Expression)
        ensures
            r@ == Expr::Selector(selector),
    {
        Expression::Selector(selector)
    }

    /// The expression that reads an advice column at a rotation.
    pub fn query_advice(&self, column: Column, at: Rotation) -> (r: Expression)
        ensures
            r@ == Expr::Query(column, at.0 as int),
    {
        Expression::Query(column, at)
    }

    /// The expression that reads a fixed column at a rotation.
    pub fn query_fixed(&self, column: Column, at: Rotation) -> (r: Expression)
        ensures
            r@ == Expr::Query(column, at.0 as int),
    {
        Expression::Query(column, at)
    }

    /// The expression that reads an instance column at a rotation.
    pub fn query_instance(&self, column: Column, at: Rotation) -> (r: Expression)
        ensures
            r@ == Expr::Query(column, at.0 as int),
    {
        Expression::Query(column, at)
    }

    /// Appends a gate.
    pub fn create_gate(&mut self, name: &'static str, constraints: Vec<Constraint>)
        ensures
            final(self)@ == (ConstraintSystemView {
                gates: old(self)@.gates.push(
                    GateView {
                        name: name@,
                        constraints: constraints@.map_values(|c: Constraint| c@),
                    },
                ),
                ..old(self)@
            }),
    {
        self.gates.push(Gate { name, constraints });
        assert(self@.gates =~= old(self)@.gates.push(
            GateView { name: name@, constraints: constraints@.map_values(|c: Constraint| c@) },
        ));
    }

    /// Appends a lookup and returns its index.
    pub fn lookup(&mut self, name: &'static str, inputs: Vec<LookupInput>) -> (r: usize)
        ensures
            r == old(self)@.lookups.len(),
            final(self)@ == (ConstraintSystemView {
                lookups: old(self)@.lookups.push(
                    LookupView { name: name@, inputs: inputs@.map_values(|i: LookupInput| i@) },
                ),
                ..old(self)@
            }),
    {
        let index = self.lookups.len();
        self.lookups.push(Lookup { name, inputs });
        assert(self@.lookups =~= old(self)@.lookups.push(
            LookupView { name: name@, inputs: inputs@.map_values(|i: LookupInput| i@) },
        ));
        index
    }
}

} // verus!
