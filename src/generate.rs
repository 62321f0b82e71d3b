//! Random Hamiltonian terms, for benchmarks and examples.

use vstd::prelude::*;

use rand::rngs::ThreadRng;
use rand::Rng;

use crate::fermions::{orbitals, FermiCode, Orbital};
use crate::qubits::PauliCode;

verus! {

#[verifier::external_type_specification]
#[verifier::external_body]
pub struct ExThreadRng(rand::rngs::ThreadRng);

/// Relies on `rand::thread_rng`: the generator of this thread, seeded by the
/// system.
#[verifier::external_body]
fn thread_rng() -> ThreadRng {
    rand::thread_rng()
}

/// Relies on `rand::Rng::gen_range` over `lo..=hi`: a value in that range;
/// it panics on an empty range, which `requires` leaves out.
#[verifier::external_body]
fn gen_range_u32(rng: &mut ThreadRng, lo: u32, hi: u32) -> (r: u32)
    requires
        lo <= hi,
    ensures
        lo <= r <= hi,
{
    rng.gen_range(lo..=hi)
}

/// Relies on `rand::Rng::gen` for `u64`: any value.
#[verifier::external_body]
fn gen_u64(rng: &mut ThreadRng) -> u64 {
    rng.gen::<u64>()
}

/// The term is ordered and none of its indices exceeds `max`.
pub open spec fn term_within(term: FermiCode, max: u32) -> bool {
    &&& term.is_ordered()
    &&& forall|k: int| 0 <= k < orbitals(term).len() ==> #[trigger] orbitals(term)[k] <= max
}

/// The term that a category and four drawn indices select: the constant for
/// category 0, `OneElectron(p, q)` for category 1, and
/// `TwoElectron((p, q), (r, s))` otherwise.
pub fn drawn_term(category: u32, p: u32, q: u32, r: u32, s: u32) -> (t: FermiCode)
    ensures
        t == if category == 0 {
            FermiCode::Offset
        } else if category == 1 {
            FermiCode::OneElectron { cr: Orbital::from_index_spec(p), an: Orbital::from_index_spec(q) }
        } else {
            FermiCode::TwoElectron {
                cr: (Orbital::from_index_spec(p), Orbital::from_index_spec(q)),
                an: (Orbital::from_index_spec(r), Orbital::from_index_spec(s)),
            }
        },
{
    if category == 0 {
        FermiCode::Offset
    } else if category == 1 {
        FermiCode::OneElectron { cr: Orbital::from_index(p), an: Orbital::from_index(q) }
    } else {
        FermiCode::TwoElectron {
            cr: (Orbital::from_index(p), Orbital::from_index(q)),
            an: (Orbital::from_index(r), Orbital::from_index(s)),
        }
    }
}

/// One random term: the constant, a one-electron term `p < q`, or a
/// two-electron term with `p < q`, `s < r` and `p <= s`, all indices at most
/// `max`.
fn random_term(rng: &mut ThreadRng, max: u32) -> (r: FermiCode)
    requires
        max >= 3,
    ensures
        term_within(r, max),
{
    let category = gen_range_u32(rng, 0, 2);
    let term = if category == 0 {
        drawn_term(0, 0, 0, 0, 0)
    } else if category == 1 {
        let p = gen_range_u32(rng, 0, max - 2);
        let q = gen_range_u32(rng, p + 1, max);
        drawn_term(1, p, q, 0, 0)
    } else {
        let p = gen_range_u32(rng, 0, max - 3);
        let q = gen_range_u32(rng, p + 1, max);
        let s = gen_range_u32(rng, p, max - 2);
        let r = gen_range_u32(rng, s + 1, max);
        drawn_term(2, p, q, r, s)
    };
    assert(forall|k: int| 0 <= k < orbitals(term).len() ==> #[trigger] orbitals(term)[k] <= max);
    term
}

/// Draws `num_terms` random fermionic terms, each ordered and with indices
/// at most `max_orbital_index`; the caller attaches the coefficients.
pub fn fermions(num_terms: usize, max_orbital_index: u32) -> (r: Vec<FermiCode>)
    requires
        max_orbital_index >= 3,
    ensures
        r@.len() == num_terms,
        forall|i: int| 0 <= i < r@.len() ==> term_within(#[trigger] r@[i], max_orbital_index),
{
    let mut rng = thread_rng();
    let mut out: Vec<FermiCode> = Vec::with_capacity(num_terms);
    let mut count: usize = 0;
    while count < num_terms
        invariant
            max_orbital_index >= 3,
            out@.len() == count,
            count <= num_terms,
            forall|i: int| 0 <= i < out@.len() ==> term_within(#[trigger] out@[i], max_orbital_index),
        decreases num_terms - count,
    {
        out.push(random_term(&mut rng, max_orbital_index));
        count += 1;
    }
    out
}

/// Draws `num_terms` random Pauli strings over all 64 qubits; the caller
/// attaches the coefficients.
pub fn qubits(num_terms: usize) -> (r: Vec<PauliCode>)
    ensures
        r@.len() == num_terms,
{
    let mut rng = thread_rng();
    let mut out: Vec<PauliCode> = Vec::with_capacity(num_terms);
    let mut count: usize = 0;
    while count < num_terms
        invariant
            out@.len() == count,
            count <= num_terms,
        decreases num_terms - count,
    {
        let lo = gen_u64(&mut rng);
        let hi = gen_u64(&mut rng);
        out.push(PauliCode::new((lo, hi)));
        count += 1;
    }
    out
}

} // verus!
