//! Spin-orbitals and the terms of a fermionic Hamiltonian.

use vstd::prelude::*;

use crate::Code;

verus! {

/// The spin of an electron.
#[derive(Debug, Clone, Copy, PartialEq, Eq, Structural, Hash)]
pub enum Spin {
    Down,
    Up,
}

/// The bit that a spin adds to an orbital index: `Down = 0`, `Up = 1`.
pub open spec fn spin_bit(spin: Spin) -> u32 {
    match spin {
        Spin::Down => 0,
        Spin::Up => 1,
    }
}

impl Default for Spin {
    fn default() -> (r: Spin)
        ensures
            r == Spin::Down,
    {
        Spin::Down
    }
}

impl From<Spin> for u8 {
    fn from(value: Spin) -> (r: u8) {
        match value {
            Spin::Down => 0,
            Spin::Up => 1,
        }
    }
}

impl vstd::std_specs::convert::FromSpecImpl<Spin> for u8 {
    open spec fn obeys_from_spec() -> bool {
        true
    }

    open spec fn from_spec(v: Spin) -> u8 {
        spin_bit(v) as u8
    }
}

/// A spin-orbital, identified by one index: `2 * n + spin` for spatial
/// orbital `n`.
#[derive(Debug, Clone, Copy, PartialEq, Eq, Structural, PartialOrd, Ord, Hash)]
pub struct Orbital {
    pub(crate) index: u32,
}

impl Orbital {
    /// The index of the spin-orbital.
    pub open(crate) spec fn idx(self) -> u32 {
        self.index
    }

    /// The spin-orbital of spatial orbital `n` with spin `spin`; the index
    /// must fit in 32 bits.
    pub fn new(n: u32, spin: Spin) -> (r: Orbital)
        requires
            2 * n + spin_bit(spin) <= u32::MAX,
        ensures
            r.idx() == 2 * n + spin_bit(spin),
    {
        let bit: u32 = match spin {
            Spin::Down => 0,
            Spin::Up => 1,
        };
        Orbital { index: 2 * n + bit }
    }

    /// The spin-orbital with index `index`.
    pub open(crate) spec fn from_index_spec(index: u32) -> Orbital {
        Orbital { index }
    }

    /// The spin-orbital with index `index`.
    pub fn from_index(index: u32) -> (r: Orbital)
        ensures
            r == Orbital::from_index_spec(index),
            r.idx() == index,
    {
        Orbital { index }
    }

    /// The index of the spin-orbital.
    pub fn index(&self) -> (r: u32)
        ensures
            r == self.idx(),
    {
        self.index
    }
}

impl Default for Orbital {
    fn default() -> (r: Orbital)
        ensures
            r.idx() == 0,
    {
        Orbital { index: 0 }
    }
}

/// A creation operator on a spin-orbital.
#[derive(Debug, Clone, Copy, PartialEq, Eq, Structural, Hash)]
pub struct Cr(pub Orbital);

/// An annihilation operator on a spin-orbital.
#[derive(Debug, Clone, Copy, PartialEq, Eq, Structural, Hash)]
pub struct An(pub Orbital);

/// A term of a fermionic Hamiltonian; the coefficient is kept apart.
#[derive(Debug, Clone, Copy, PartialEq, Eq, Hash)]
#[allow(inconsistent_fields)]
pub enum FermiCode {
    /// The constant term.
    Offset,
    /// `a+_cr a_an` together with its conjugate, stored with `cr <= an`.
    OneElectron { cr: Orbital, an: Orbital },
    /// `a+_p a+_q a_r a_s` together with its conjugate, stored with `p < q`
    /// and `r > s`, where `cr = (p, q)` and `an = (r, s)`.
    TwoElectron { cr: (Orbital, Orbital), an: (Orbital, Orbital) },
}

impl FermiCode {
    /// The term keeps the ordering that its constructors enforce.
    pub open spec fn is_ordered(self) -> bool {
        match self {
            FermiCode::Offset => true,
            FermiCode::OneElectron { cr, an } => cr.idx() <= an.idx(),
            FermiCode::TwoElectron { cr, an } => cr.0.idx() < cr.1.idx() && an.0.idx() > an.1.idx(),
        }
    }

    /// The one-electron term `a+_cr a_an`, where `cr <= an`.
    pub fn one_electron(cr: Cr, an: An) -> (r: Option<FermiCode>)
        ensures
            r == if cr.0.idx() <= an.0.idx() {
                Some(FermiCode::OneElectron { cr: cr.0, an: an.0 })
            } else {
                None
            },
    {
        if cr.0.index <= an.0.index {
            Some(FermiCode::OneElectron { cr: cr.0, an: an.0 })
        } else {
            None
        }
    }

    /// The two-electron term `a+_p a+_q a_r a_s`, where `p < q` and `r > s`.
    pub fn two_electron(cr: (Cr, Cr), an: (An, An)) -> (r: Option<FermiCode>)
        ensures
            r == if cr.0.0.idx() < cr.1.0.idx() && an.0.0.idx() > an.1.0.idx() {
                Some(FermiCode::TwoElectron { cr: (cr.0.0, cr.1.0), an: (an.0.0, an.1.0) })
            } else {
                None
            },
    {
        if cr.0.0.index < cr.1.0.index && an.0.0.index > an.1.0.index {
            Some(FermiCode::TwoElectron { cr: (cr.0.0, cr.1.0), an: (an.0.0, an.1.0) })
        } else {
            None
        }
    }
}

/// The spin-orbital indices that a term acts on.
pub open spec fn orbitals(term: FermiCode) -> Seq<u32> {
    match term {
        FermiCode::Offset => seq![],
        FermiCode::OneElectron { cr, an } => seq![cr.idx(), an.idx()],
        FermiCode::TwoElectron { cr, an } => seq![cr.0.idx(), cr.1.idx(), an.0.idx(), an.1.idx()],
    }
}

/// The term whose indices are `idx`: none for the constant, `[cr, an]` for
/// a one-electron term and `[p, q, r, s]` for a two-electron term, each
/// only where the ordering holds.
pub open spec fn term_of_indices(idx: Seq<u32>) -> Option<FermiCode> {
    if idx.len() == 0 {
        Some(FermiCode::Offset)
    } else if idx.len() == 2 && idx[0] <= idx[1] {
        Some(
            FermiCode::OneElectron {
                cr: Orbital::from_index_spec(idx[0]),
                an: Orbital::from_index_spec(idx[1]),
            },
        )
    } else if idx.len() == 4 && idx[0] < idx[1] && idx[2] > idx[3] {
        Some(
            FermiCode::TwoElectron {
                cr: (Orbital::from_index_spec(idx[0]), Orbital::from_index_spec(idx[1])),
                an: (Orbital::from_index_spec(idx[2]), Orbital::from_index_spec(idx[3])),
            },
        )
    } else {
        None
    }
}

impl FermiCode {
    /// The indices of the term, in the order `cr, an` or `p, q, r, s`.
    pub fn indices(&self) -> (r: Vec<u32>)
        ensures
            r@ == orbitals(*self),
    {
        let r = match self {
            FermiCode::Offset => Vec::new(),
            FermiCode::OneElectron { cr, an } => vec![cr.index, an.index],
            FermiCode::TwoElectron { cr, an } => vec![
                cr.0.index,
                cr.1.index,
                an.0.index,
                an.1.index,
            ],
        };
        assert(r@ =~= orbitals(*self));
        r
    }

    /// The term whose indices are `idx`, as `indices` lists them; `None`
    /// for any other length or where the ordering fails.
    pub fn from_indices(idx: &[u32]) -> (r: Option<FermiCode>)
        ensures
            r == term_of_indices(idx@),
    {
        if idx.len() == 0 {
            Some(FermiCode::Offset)
        } else if idx.len() == 2 {
            FermiCode::one_electron(Cr(Orbital::from_index(idx[0])), An(Orbital::from_index(idx[1])))
        } else if idx.len() == 4 {
            FermiCode::two_electron(
                (Cr(Orbital::from_index(idx[0])), Cr(Orbital::from_index(idx[1]))),
                (An(Orbital::from_index(idx[2])), An(Orbital::from_index(idx[3]))),
            )
        } else {
            None
        }
    }
}

/// Listing the indices of an ordered term and reading them back gives the
/// term.
pub proof fn lemma_indices_round_trip(term: FermiCode)
    requires
        term.is_ordered(),
    ensures
        term_of_indices(orbitals(term)) == Some(term),
{
}

impl Code for FermiCode {
    fn same(&self, other: &Self) -> (r: bool) {
        match (self, other) {
            (FermiCode::Offset, FermiCode::Offset) => true,
            (
                FermiCode::OneElectron { cr: c1, an: a1 },
                FermiCode::OneElectron { cr: c2, an: a2 },
            ) => c1.index == c2.index && a1.index == a2.index,
            (
                FermiCode::TwoElectron { cr: c1, an: a1 },
                FermiCode::TwoElectron { cr: c2, an: a2 },
            ) => c1.0.index == c2.0.index && c1.1.index == c2.1.index && a1.0.index == a2.0.index
                && a1.1.index == a2.1.index,
            _ => false,
        }
    }
}

} // verus!
