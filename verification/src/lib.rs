//! A small PLONKish arithmetization with a witness-satisfiability checker,
//! and a handful of example circuits built on it.
//!
//! A circuit is described once, in a [`constraint_system::ConstraintSystem`]:
//! its columns and selectors, its gates, which are polynomials over cells
//! queried at rotations ([`expression`]), and its lookups into fixed tables.
//! The description is then handed over to a [`layouter::Layouter`], the one
//! writer of the witness, in which the circuit's synthesis opens regions and
//! writes cells, selectors and copy constraints. What each step does to the
//! session is stated over its mathematical model ([`session`]). When the
//! witness is finished, the check ([`checker`]) holds every usable row
//! against every gate and lookup, and every copy constraint against its two
//! cells, and reports all failures ([`failure`]). [`prover`] ties the three
//! phases together for a [`prover::Circuit`].
//!
//! The circuits are those of [`fibonacci`], [`is_zero`] and [`range_check`].
//! Each comes with the model of what it assigns, and with the proof of what
//! it accepts.
//!
//! The field is the base field of the Pallas curve ([`field`]).

pub mod checker;
pub mod constraint_system;
pub mod evaluate;
pub mod expression;
pub mod failure;
pub mod fibonacci;
pub mod field;
pub mod is_zero;
pub mod layouter;
pub mod prover;
pub mod range_check;
pub mod session;
pub mod value;
