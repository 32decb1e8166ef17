//! Columns, selectors, rotations and the polynomial expressions over them.

use crate::field::Fp;
use vstd::prelude::*;

verus! {

/// The kind of a column.
#[derive(Clone, Copy, Debug, PartialEq, Eq, Structural)]
pub enum Any {
    Advice,
    Fixed,
    Instance,
}

/// A column of the circuit: a handle made of kind and index.
#[derive(Clone, Copy, Debug, PartialEq, Eq, Structural)]
pub struct Column {
    pub kind: Any,
    pub index: usize,
}

/// A selector: a column of flags, one per row. A simple selector is meant to
/// stand alone in a gate, a complex one may be combined with others.
#[derive(Clone, Copy, Debug, PartialEq, Eq, Structural)]
pub struct Selector {
    pub index: usize,
    pub simple: bool,
}

/// A fixed column that serves as a column of a lookup table.
#[derive(Clone, Copy, Debug, PartialEq, Eq, Structural)]
pub struct TableColumn {
    pub index: usize,
}

/// A row offset relative to the row at which an expression is evaluated.
#[derive(Clone, Copy, Debug, PartialEq, Eq, Structural)]
pub struct Rotation(pub i32);

/// A column queried at a rotation.
#[derive(Clone, Copy, Debug, PartialEq, Eq, Structural)]
pub struct VirtualCell {
    pub column: Column,
    pub rotation: Rotation,
}

/// A polynomial over queried cells, selectors and constants.
#[derive(Debug)]
pub enum Expression {
    Constant(Fp),
    Query(Column, Rotation),
    Selector(Selector),
    Negate(Box<Expression>),
    Sum(Box<Expression>, Box<Expression>),
    Product(Box<Expression>, Box<Expression>),
    Scaled(Fp, Box<Expression>),
}

/// The mathematical content of an [`Expression`]: constants are natural
/// numbers and rotations are integers.
pub enum Expr {
    Constant(nat),
    Query(Column, int),
    Selector(Selector),
    Negate(Box<Expr>),
    Sum(Box<Expr>, Box<Expr>),
    Product(Box<Expr>, Box<Expr>),
    Scaled(nat, Box<Expr>),
}

impl Expression {
    /// The mathematical content of the expression.
    pub open spec fn model(&self) -> Expr
        decreases self,
    {
        match self {
            Expression::Constant(c) => Expr::Constant(c@),
            Expression::Query(column, rotation) => Expr::Query(*column, rotation.0 as int),
            Expression::Selector(selector) => Expr::Selector(*selector),
            Expression::Negate(a) => Expr::Negate(Box::new(a.model())),
            Expression::Sum(a, b) => Expr::Sum(Box::new(a.model()), Box::new(b.model())),
            Expression::Product(a, b) => Expr::Product(Box::new(a.model()), Box::new(b.model())),
            Expression::Scaled(c, a) => Expr::Scaled(c@, Box::new(a.model())),
        }
    }
}

impl View for Expression {
    type V = Expr;

    open spec fn view(&self) -> Expr {
        self.model()
    }
}

impl Expr {
    /// Whether every rotation in the expression lies strictly between
    /// `-bound` and `bound`.
    pub open spec fn rotations_within(self, bound: int) -> bool
        decreases self,
    {
        match self {
            Expr::Constant(_) => true,
            Expr::Query(_, rotation) => -bound < rotation < bound,
            Expr::Selector(_) => true,
            Expr::Negate(a) => a.rotations_within(bound),
            Expr::Sum(a, b) => a.rotations_within(bound) && b.rotations_within(bound),
            Expr::Product(a, b) => a.rotations_within(bound) && b.rotations_within(bound),
            Expr::Scaled(_, a) => a.rotations_within(bound),
        }
    }

    /// Whether the expression mentions a selector; with `simple_only`, a
    /// simple one.
    pub open spec fn mentions_selector(self, simple_only: bool) -> bool
        decreases self,
    {
        match self {
            Expr::Constant(_) => false,
            Expr::Query(_, _) => false,
            Expr::Selector(selector) => selector.simple || !simple_only,
            Expr::Negate(a) => a.mentions_selector(simple_only),
            Expr::Sum(a, b) => a.mentions_selector(simple_only) || b.mentions_selector(
                simple_only,
            ),
            Expr::Product(a, b) => a.mentions_selector(simple_only) || b.mentions_selector(
                simple_only,
            ),
            Expr::Scaled(_, a) => a.mentions_selector(simple_only),
        }
    }

    /// Whether every simple selector in the expression stands alone: in no
    /// product does one factor mention a simple selector and the other
    /// factor a selector of any kind.
    pub open spec fn selectors_apart(self) -> bool
        decreases self,
    {
        match self {
            Expr::Constant(_) => true,
            Expr::Query(_, _) => true,
            Expr::Selector(_) => true,
            Expr::Negate(a) => a.selectors_apart(),
            Expr::Sum(a, b) => a.selectors_apart() && b.selectors_apart(),
            Expr::Product(a, b) => a.selectors_apart() && b.selectors_apart() && !(
            a.mentions_selector(true) && b.mentions_selector(false)) && !(b.mentions_selector(true)
                && a.mentions_selector(false)),
            Expr::Scaled(_, a) => a.selectors_apart(),
        }
    }

    /// `acc` followed by the cells that the expression queries and `acc`
    /// lacks, each once, in the order in which the expression first names
    /// them.
    pub open spec fn queried_onto(self, acc: Seq<(Column, int)>) -> Seq<(Column, int)>
        decreases self,
    {
        match self {
            Expr::Constant(_) => acc,
            Expr::Query(column, rotation) => if acc.contains((column, rotation)) {
                acc
            } else {
                acc.push((column, rotation))
            },
            Expr::Selector(_) => acc,
            Expr::Negate(a) => a.queried_onto(acc),
            Expr::Sum(a, b) => b.queried_onto(a.queried_onto(acc)),
            Expr::Product(a, b) => b.queried_onto(a.queried_onto(acc)),
            Expr::Scaled(_, a) => a.queried_onto(acc),
        }
    }

    /// The cells that the expression queries, each once, in the order in
    /// which the expression first names them.
    pub open spec fn queried(self) -> Seq<(Column, int)> {
        self.queried_onto(Seq::empty())
    }

    /// `a - b`, written as the sum of `a` and the negation of `b`.
    pub open spec fn difference(a: Expr, b: Expr) -> Expr {
        Expr::Sum(Box::new(a), Box::new(Expr::Negate(Box::new(b))))
    }

    /// `a + b`.
    pub open spec fn sum(a: Expr, b: Expr) -> Expr {
        Expr::Sum(Box::new(a), Box::new(b))
    }

    /// `a * b`.
    pub open spec fn product(a: Expr, b: Expr) -> Expr {
        Expr::Product(Box::new(a), Box::new(b))
    }
}

/// The columns and rotations of a list of queried cells.
pub open spec fn cells_view(cells: Seq<VirtualCell>) -> Seq<(Column, int)> {
    cells.map_values(|cell: VirtualCell| (cell.column, cell.rotation.0 as int))
}

/// Whether a list of queried cells holds a cell.
fn holds(cells: &Vec<VirtualCell>, column: Column, rotation: Rotation) -> (r: bool)
    ensures
        r == cells_view(cells@).contains((column, rotation.0 as int)),
{
    let mut i: usize = 0;
    while i < cells.len()
        invariant
            i <= cells.len(),
            forall|j: int| 0 <= j < i ==> cells_view(cells@)[j] != (column, rotation.0 as int),
        decreases cells.len() - i,
    {
        if cells[i].column == column && cells[i].rotation.0 == rotation.0 {
            assert(cells_view(cells@)[i as int] == (column, rotation.0 as int));
            return true;
        }
        i = i + 1;
    }
    false
}

impl Rotation {
    /// The row itself.
    pub fn cur() -> (r: Rotation)
        ensures
            r.0 == 0,
    {
        Rotation(0)
    }

    /// The row after.
    pub fn next() -> (r: Rotation)
        ensures
            r.0 == 1,
    {
        Rotation(1)
    }

    /// The row before.
    pub fn prev() -> (r: Rotation)
        ensures
            r.0 == -1,
    {
        Rotation(-1)
    }
}

impl Expression {
    /// Whether every rotation in the expression lies strictly between
    /// `-bound` and `bound`.
    pub fn rotations_within(&self, bound: usize) -> (r: bool)
        ensures
            r == self@.rotations_within(bound as int),
        decreases self,
    {
        match self {
            Expression::Constant(_) => true,
            Expression::Query(_, rotation) => {
                let at: i128 = rotation.0 as i128;
                let limit: i128 = bound as i128;
                -limit < at && at < limit
            },
            Expression::Selector(_) => true,
            Expression::Negate(a) => a.rotations_within(bound),
            Expression::Sum(a, b) => a.rotations_within(bound) && b.rotations_within(bound),
            Expression::Product(a, b) => a.rotations_within(bound) && b.rotations_within(bound),
            Expression::Scaled(_, a) => a.rotations_within(bound),
        }
    }

    /// Whether the expression mentions a selector; with `simple_only`, a
    /// simple one.
    pub fn mentions_selector(&self, simple_only: bool) -> (r: bool)
        ensures
            r == self@.mentions_selector(simple_only),
        decreases self,
    {
        match self {
            Expression::Constant(_) => false,
            Expression::Query(_, _) => false,
            Expression::Selector(selector) => selector.simple || !simple_only,
            Expression::Negate(a) => a.mentions_selector(simple_only),
            Expression::Sum(a, b) => a.mentions_selector(simple_only) || b.mentions_selector(
                simple_only,
            ),
            Expression::Product(a, b) => a.mentions_selector(simple_only) || b.mentions_selector(
                simple_only,
            ),
            Expression::Scaled(_, a) => a.mentions_selector(simple_only),
        }
    }

    /// Whether every simple selector in the expression stands alone: in no
    /// product does one factor mention a simple selector and the other
    /// factor a selector of any kind.
    pub fn selectors_apart(&self) -> (r: bool)
        ensures
            r == self@.selectors_apart(),
        decreases self,
    {
        match self {
            Expression::Constant(_) => true,
            Expression::Query(_, _) => true,
            Expression::Selector(_) => true,
            Expression::Negate(a) => a.selectors_apart(),
            Expression::Sum(a, b) => a.selectors_apart() && b.selectors_apart(),
            Expression::Product(a, b) => a.selectors_apart() && b.selectors_apart() && !(
            a.mentions_selector(true) && b.mentions_selector(false)) && !(b.mentions_selector(true)
                && a.mentions_selector(false)),
            Expression::Scaled(_, a) => a.selectors_apart(),
        }
    }

    /// Appends to `acc` the cells that the expression queries and `acc`
    /// lacks, each once, in the order in which the expression first names
    /// them.
    pub fn collect_queries(&self, acc: &mut Vec<VirtualCell>)
        ensures
            cells_view(final(acc)@) == self@.queried_onto(cells_view(old(acc)@)),
        decreases self,
    {
        match self {
            Expression::Constant(_) => {},
            Expression::Query(column, rotation) => {
                if !holds(acc, *column, *rotation) {
                    acc.push(VirtualCell { column: *column, rotation: *rotation });
                    assert(cells_view(acc@) =~= cells_view(old(acc)@).push(
                        (*column, rotation.0 as int),
                    ));
                }
            },
            Expression::Selector(_) => {},
            Expression::Negate(a) => {
                a.collect_queries(acc);
            },
            Expression::Sum(a, b) => {
                a.collect_queries(acc);
                b.collect_queries(acc);
            },
            Expression::Product(a, b) => {
                a.collect_queries(acc);
                b.collect_queries(acc);
            },
            Expression::Scaled(_, a) => {
                a.collect_queries(acc);
            },
        }
    }

    /// A copy of the expression.
    pub fn duplicate(&self) -> (r: Expression)
        ensures
            r@ == self@,
        decreases self,
    {
        match self {
            Expression::Constant(c) => Expression::Constant(*c),
            Expression::Query(column, rotation) => Expression::Query(*column, *rotation),
            Expression::Selector(selector) => Expression::Selector(*selector),
            Expression::Negate(a) => Expression::Negate(Box::new(a.duplicate())),
            Expression::Sum(a, b) => Expression::Sum(
                Box::new(a.duplicate()),
                Box::new(b.duplicate()),
            ),
            Expression::Product(a, b) => Expression::Product(
                Box::new(a.duplicate()),
                Box::new(b.duplicate()),
            ),
            Expression::Scaled(c, a) => Expression::Scaled(*c, Box::new(a.duplicate())),
        }
    }

    /// The sum of the two expressions.
    pub fn plus(self, rhs: Expression) -> (r: Expression)
        ensures
            r@ == Expr::sum(self@, rhs@),
    {
        Expression::Sum(Box::new(self), Box::new(rhs))
    }

    /// The difference of the two expressions.
    pub fn minus(self, rhs: Expression) -> (r: Expression)
        ensures
            r@ == Expr::difference(self@, rhs@),
    {
        let ghost subtrahend = rhs@;
        let negated = Expression::Negate(Box::new(rhs));
        assert(negated@ == Expr::Negate(Box::new(subtrahend)));
        Expression::Sum(Box::new(self), Box::new(negated))
    }

    /// The product of the two expressions.
    pub fn times(self, rhs: Expression) -> (r: Expression)
        ensures
            r@ == Expr::product(self@, rhs@),
    {
        Expression::Product(Box::new(self), Box::new(rhs))
    }

    /// The negation of the expression.
    pub fn negate(self) -> (r: Expression)
        ensures
            r@ == Expr::Negate(Box::new(self@)),
    {
        Expression::Negate(Box::new(self))
    }

    /// The expression scaled by a constant.
    pub fn scale(self, factor: Fp) -> (r: Expression)
        ensures
            r@ == Expr::Scaled(factor@, Box::new(self@)),
    {
        Expression::Scaled(factor, Box::new(self))
    }
}

} // verus!
