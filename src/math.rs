//! The fourth roots of unity and the group interface.

use vstd::prelude::*;

verus! {

/// A group: an identity and an inverse for each element.
pub trait Group: Sized {
    /// The identity element.
    fn identity() -> Self;

    /// The inverse of the element.
    fn inverse(self) -> Self;
}

/// A fourth root of unity: `R0 = 1`, `R1 = -1`, `R2 = i`, `R3 = -i`.
#[derive(Debug, Clone, Copy, PartialEq, Eq, Structural, Hash)]
pub enum Root4 {
    R0,
    R1,
    R2,
    R3,
}

/// The power `k` of `i` with `root == i^k`, `0 <= k < 4`.
pub open spec fn exponent(root: Root4) -> nat {
    match root {
        Root4::R0 => 0,
        Root4::R2 => 1,
        Root4::R1 => 2,
        Root4::R3 => 3,
    }
}

/// The root `i^k`.
pub open spec fn root_of(k: nat) -> Root4 {
    if k % 4 == 0 {
        Root4::R0
    } else if k % 4 == 1 {
        Root4::R2
    } else if k % 4 == 2 {
        Root4::R1
    } else {
        Root4::R3
    }
}

impl Root4 {
    /// The exponent of the root as an executable value.
    pub fn exponent(self) -> (r: u8)
        ensures
            r == exponent(self),
    {
        match self {
            Root4::R0 => 0,
            Root4::R2 => 1,
            Root4::R1 => 2,
            Root4::R3 => 3,
        }
    }

    /// The root `i^k`.
    pub fn from_exponent(k: u8) -> (r: Root4)
        ensures
            r == root_of(k as nat),
    {
        let m = k % 4;
        if m == 0 {
            Root4::R0
        } else if m == 1 {
            Root4::R2
        } else if m == 2 {
            Root4::R1
        } else {
            Root4::R3
        }
    }

    /// The complex conjugate.
    pub fn conj(self) -> (r: Root4)
        ensures
            r == root_of((4 - exponent(self)) as nat),
    {
        match self {
            Root4::R0 => Root4::R0,
            Root4::R1 => Root4::R1,
            Root4::R2 => Root4::R3,
            Root4::R3 => Root4::R2,
        }
    }
}

impl Group for Root4 {
    fn identity() -> (r: Root4)
        ensures
            r == Root4::R0,
    {
        Root4::R0
    }

    fn inverse(self) -> (r: Root4)
        ensures
            r == root_of((4 - exponent(self)) as nat),
    {
        self.conj()
    }
}

impl core::ops::Mul for Root4 {
    type Output = Root4;

    fn mul(self, rhs: Root4) -> (r: Root4) {
        Root4::from_exponent(self.exponent() + rhs.exponent())
    }
}

impl vstd::std_specs::ops::MulSpecImpl for Root4 {
    open spec fn obeys_mul_spec() -> bool {
        true
    }

    open spec fn mul_req(self, rhs: Root4) -> bool {
        true
    }

    open spec fn mul_spec(self, rhs: Root4) -> Root4 {
        root_of(exponent(self) + exponent(rhs))
    }
}

impl core::ops::Neg for Root4 {
    type Output = Root4;

    fn neg(self) -> (r: Root4) {
        Root4::from_exponent(self.exponent() + 2)
    }
}

impl vstd::std_specs::ops::NegSpecImpl for Root4 {
    open spec fn obeys_neg_spec() -> bool {
        true
    }

    open spec fn neg_req(self) -> bool {
        true
    }

    open spec fn neg_spec(self) -> Root4 {
        root_of(exponent(self) + 2)
    }
}

} // verus!
