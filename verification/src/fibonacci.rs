//! Circuits that compute terms of Fibonacci-style sequences.

use crate::field::add_mod;
use vstd::prelude::*;

pub mod example1;
pub mod example2;
pub mod example3;

verus! {

/// The `n`-th term of the sequence that starts with `a` and `b` and in which
/// every further term is the sum, in the field, of the two terms before it.
pub open spec fn fib(a: nat, b: nat, n: nat) -> nat
    decreases n,
{
    if n == 0 {
        a
    } else if n == 1 {
        b
    } else {
        add_mod(fib(a, b, (n - 2) as nat), fib(a, b, (n - 1) as nat))
    }
}

} // verus!
