//! What the checker reports of a witness that does not satisfy its circuit.

use crate::expression::Column;
use crate::expression::VirtualCell;
use crate::field::Fp;
use crate::session::Cell;
use crate::session::Reason;
use vstd::prelude::*;

verus! {

/// The index and the name of a gate, a constraint, a lookup or a region.
#[derive(Clone, Copy, Debug, PartialEq, Eq)]
pub struct Named {
    pub index: usize,
    pub name: &'static str,
}

/// Where in the witness a failure lies.
#[derive(Clone, Copy, Debug, PartialEq, Eq)]
pub enum FailureLocation {
    /// On a row of a region.
    InRegion { region: Named, offset: usize },
    /// On a row that no region holds.
    OutsideRegion { row: usize },
}

/// One way in which a witness fails its circuit.
#[derive(Debug, PartialEq, Eq)]
pub enum VerifyFailure {
    /// A constraint of a gate does not vanish on a row. The cells are those
    /// that the constraint queries, with the values that they have as seen
    /// from that row.
    ConstraintNotSatisfied {
        gate: Named,
        constraint: Named,
        location: FailureLocation,
        cell_values: Vec<(VirtualCell, Fp)>,
    },
    /// Outside a pass that only lays the circuit out, a constraint or a
    /// lookup reads a value that is not known.
    AssignmentError { location: FailureLocation },
    /// The inputs of a lookup have values on a row that no row of the table
    /// holds.
    LookupFailure { lookup: Named, location: FailureLocation },
    /// Two cells that a copy constraint binds do not hold the same known
    /// value.
    EqualityFailure { cell_a: Cell, cell_b: Cell },
    /// The circuit or its use is malformed.
    ConfigurationError { reason: Reason },
}

pub struct NamedView {
    pub index: nat,
    pub name: Seq<char>,
}

pub enum LocationView {
    InRegion { region: NamedView, offset: nat },
    OutsideRegion { row: nat },
}

pub enum FailureView {
    ConstraintNotSatisfied {
        gate: NamedView,
        constraint: NamedView,
        location: LocationView,
        /// Column, rotation and value of each queried cell.
        cell_values: Seq<(Column, int, nat)>,
    },
    AssignmentError { location: LocationView },
    LookupFailure { lookup: NamedView, location: LocationView },
    EqualityFailure { cell_a: Cell, cell_b: Cell },
    ConfigurationError { reason: Reason },
}

impl View for Named {
    type V = NamedView;

    open spec fn view(&self) -> NamedView {
        NamedView { index: self.index as nat, name: self.name@ }
    }
}

impl View for FailureLocation {
    type V = LocationView;

    open spec fn view(&self) -> LocationView {
        match self {
            FailureLocation::InRegion { region, offset } => LocationView::InRegion {
                region: region@,
                offset: *offset as nat,
            },
            FailureLocation::OutsideRegion { row } => LocationView::OutsideRegion {
                row: *row as nat,
            },
        }
    }
}

/// Column, rotation and value of each cell of a list.
pub open spec fn cell_values_view(cells: Seq<(VirtualCell, Fp)>) -> Seq<(Column, int, nat)> {
    cells.map_values(|c: (VirtualCell, Fp)| (c.0.column, c.0.rotation.0 as int, c.1@))
}

impl View for VerifyFailure {
    type V = FailureView;

    open spec fn view(&self) -> FailureView {
        match self {
            VerifyFailure::ConstraintNotSatisfied {
                gate,
                constraint,
                location,
                cell_values,
            } => FailureView::ConstraintNotSatisfied {
                gate: gate@,
                constraint: constraint@,
                location: location@,
                cell_values: cell_values_view(cell_values@),
            },
            VerifyFailure::AssignmentError { location } => FailureView::AssignmentError {
                location: location@,
            },
            VerifyFailure::LookupFailure { lookup, location } => FailureView::LookupFailure {
                lookup: lookup@,
                location: location@,
            },
            VerifyFailure::EqualityFailure { cell_a, cell_b } => FailureView::EqualityFailure {
                cell_a: *cell_a,
                cell_b: *cell_b,
            },
            VerifyFailure::ConfigurationError { reason } => FailureView::ConfigurationError {
                reason: *reason,
            },
        }
    }
}

/// The content of a list of failures.
pub open spec fn failures_view(failures: Seq<VerifyFailure>) -> Seq<FailureView> {
    failures.map_values(|f: VerifyFailure| f@)
}

} // verus!
