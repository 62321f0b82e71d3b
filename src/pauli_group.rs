//! The Pauli group: Pauli strings with a phase that is a fourth root of
//! unity.

use vstd::prelude::*;

use crate::math::{exponent, root_of, Group, Root4};
use crate::qubits::{bits_of, digit, lemma_digit_bound, pauli_of_bits, Pauli, PauliCode, WIDTH};

verus! {

/// The power of `i` in the phase of the product `a * b` of two
/// single-qubit operators: `XY = iZ`, `YZ = iX`, `ZX = iY`, and the reversed
/// products carry `-i`.
pub open spec fn phase_exponent(a: Pauli, b: Pauli) -> nat {
    match (a, b) {
        (Pauli::X, Pauli::Y) | (Pauli::Y, Pauli::Z) | (Pauli::Z, Pauli::X) => 1,
        (Pauli::Y, Pauli::X) | (Pauli::Z, Pauli::Y) | (Pauli::X, Pauli::Z) => 3,
        _ => 0,
    }
}

/// The operator of the product `a * b`, phase aside.
pub open spec fn pauli_product(a: Pauli, b: Pauli) -> Pauli {
    pauli_of_bits(bits_of(a) ^ bits_of(b))
}

/// Sum of the phase exponents of the products at qubits `0..n`.
pub open spec fn phase_sum(a: Seq<Pauli>, b: Seq<Pauli>, n: int) -> nat
    decreases n,
{
    if n <= 0 {
        0
    } else {
        phase_sum(a, b, n - 1) + phase_exponent(a[n - 1], b[n - 1])
    }
}

proof fn lemma_xor_digit(x: u128, y: u128, s: u128)
    by (bit_vector)
    ensures
        ((x ^ y) >> s) & 3 == ((x >> s) & 3) ^ ((y >> s) & 3),
{
}

proof fn lemma_bits_digit(r: u128, i: int)
    requires
        0 <= i < 64,
    ensures
        bits_of(pauli_of_bits(digit(r, i))) == digit(r, i),
{
    lemma_digit_bound(r, (2 * i) as u128);
}

/// An element of the Pauli group: a phase times a Pauli string.
#[derive(Debug, Clone, Copy, PartialEq, Eq, Structural, Hash)]
pub struct PauliGroup {
    pub phase: Root4,
    pub code: PauliCode,
}

impl PauliGroup {
    /// The element `phase * code`.
    pub fn new(phase: Root4, code: PauliCode) -> (r: PauliGroup)
        ensures
            r.phase == phase,
            r.code == code,
    {
        PauliGroup { phase, code }
    }

    /// The phase of the product at one qubit, as a power of `i`.
    fn phase_at(a: Pauli, b: Pauli) -> (r: u8)
        ensures
            r == phase_exponent(a, b),
    {
        match (a, b) {
            (Pauli::X, Pauli::Y) | (Pauli::Y, Pauli::Z) | (Pauli::Z, Pauli::X) => 1,
            (Pauli::Y, Pauli::X) | (Pauli::Z, Pauli::Y) | (Pauli::X, Pauli::Z) => 3,
            _ => 0,
        }
    }

    /// The product `self * rhs`: operators multiply qubit by qubit, and the
    /// phases of those products join the two phases.
    pub fn product(self, rhs: PauliGroup) -> (r: PauliGroup)
        ensures
            r.code.register() == self.code.register() ^ rhs.code.register(),
            forall|i: int|
                0 <= i < 64 ==> #[trigger] r.code@[i] == pauli_product(self.code@[i], rhs.code@[i]),
            r.phase == root_of(
                exponent(self.phase) + exponent(rhs.phase) + phase_sum(self.code@, rhs.code@, 64),
            ),
    {
        let mut e: u8 = (self.phase.exponent() + rhs.phase.exponent()) % 4;
        let mut i: u16 = 0;
        while i < WIDTH
            invariant
                i <= 64,
                e < 4,
                e as nat % 4 == (exponent(self.phase) + exponent(rhs.phase) + phase_sum(
                    self.code@,
                    rhs.code@,
                    i as int,
                )) % 4,
            decreases 64 - i,
        {
            let k = PauliGroup::phase_at(self.code.pauli_unchecked(i), rhs.code.pauli_unchecked(i));
            e = (e + k) % 4;
            i += 1;
        }
        let code = PauliCode::from(self.code.index() ^ rhs.code.index());
        proof {
            assert forall|i: int| 0 <= i < 64 implies #[trigger] code@[i] == pauli_product(
                self.code@[i],
                rhs.code@[i],
            ) by {
                let (x, y) = (self.code.register(), rhs.code.register());
                lemma_xor_digit(x, y, (2 * i) as u128);
                lemma_bits_digit(x, i);
                lemma_bits_digit(y, i);
            }
        }
        PauliGroup { phase: Root4::from_exponent(e), code }
    }
}

impl Group for PauliGroup {
    fn identity() -> (r: PauliGroup)
        ensures
            r.phase == Root4::R0,
            r.code.register() == 0,
    {
        PauliGroup { phase: Root4::R0, code: PauliCode::identity() }
    }

    /// The inverse: each string squares to the identity, so only the phase
    /// is inverted.
    fn inverse(self) -> (r: PauliGroup)
        ensures
            r.phase == root_of((4 - exponent(self.phase)) as nat),
            r.code == self.code,
    {
        PauliGroup { phase: self.phase.conj(), code: self.code }
    }
}

impl From<PauliCode> for PauliGroup {
    fn from(value: PauliCode) -> (r: PauliGroup) {
        PauliGroup { phase: Root4::R0, code: value }
    }
}

impl vstd::std_specs::convert::FromSpecImpl<PauliCode> for PauliGroup {
    open spec fn obeys_from_spec() -> bool {
        true
    }

    open spec fn from_spec(v: PauliCode) -> PauliGroup {
        PauliGroup { phase: Root4::R0, code: v }
    }
}

impl From<Root4> for PauliGroup {
    fn from(value: Root4) -> (r: PauliGroup) {
        PauliGroup { phase: value, code: PauliCode::identity() }
    }
}

impl vstd::std_specs::convert::FromSpecImpl<Root4> for PauliGroup {
    open spec fn obeys_from_spec() -> bool {
        true
    }

    open spec fn from_spec(v: Root4) -> PauliGroup {
        PauliGroup { phase: v, code: PauliCode::from_register(0) }
    }
}

impl core::ops::Mul for PauliGroup {
    type Output = PauliGroup;

    fn mul(self, rhs: PauliGroup) -> (r: PauliGroup) {
        self.product(rhs)
    }
}

impl vstd::std_specs::ops::MulSpecImpl for PauliGroup {
    open spec fn obeys_mul_spec() -> bool {
        true
    }

    open spec fn mul_req(self, rhs: PauliGroup) -> bool {
        true
    }

    open spec fn mul_spec(self, rhs: PauliGroup) -> PauliGroup {
        PauliGroup {
            phase: root_of(
                exponent(self.phase) + exponent(rhs.phase) + phase_sum(self.code@, rhs.code@, 64),
            ),
            code: PauliCode::from_register(self.code.register() ^ rhs.code.register()),
        }
    }
}

} // verus!
