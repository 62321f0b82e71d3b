//! Jordan-Wigner encoding of second-quantized fermionic Hamiltonians as
//! weighted sums of Pauli strings.

use vstd::prelude::*;

pub mod fermions;
pub mod generate;
pub mod maps;
pub mod math;
pub mod pauli_group;
pub mod qubits;
pub mod terms;

use crate::terms::{Coeff, SumRepr};

verus! {

/// Errors raised by the library.
#[derive(Debug, Clone, Copy, PartialEq, Eq, Structural)]
pub enum Error {
    /// A qubit or orbital index at or beyond the width of the register.
    PauliIndex { index: u32 },
}

/// A key of a sum of terms: a fermionic term or a Pauli string.
pub trait Code: Copy + Sized {
    /// Whether two codes denote the same term.
    fn same(&self, other: &Self) -> (r: bool)
        ensures
            r == (*self == *other),
    ;
}

impl Code for u64 {
    fn same(&self, other: &Self) -> (r: bool) {
        *self == *other
    }
}

/// A producer of terms that adds them into a sum.
pub trait Terms<T: Coeff, K: Code> {
    /// Adds the terms to `repr`, which stays well formed.
    fn add_to(&mut self, repr: &mut SumRepr<T, K>) -> (r: Result<(), Error>)
        requires
            old(repr).wf(),
        ensures
            final(repr).wf(),
    ;
}

} // verus!
