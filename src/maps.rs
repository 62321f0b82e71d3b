//! The Jordan-Wigner mapping from fermionic terms to Pauli strings.

use vstd::prelude::*;

use crate::fermions::{orbitals, FermiCode, Orbital};
use crate::qubits::{
    digit, lemma_identity_view, lemma_with_pauli, pauli_of_bits, with_pauli, z_string, Pauli,
    PauliCode, WIDTH,
};
use crate::terms::{codes_distinct, has_code, upsert, upsert_all, Coeff, SumRepr};
use crate::{Error, Terms};

verus! {

/// Register `r` with operator `op` written at qubit `i`.
pub open spec fn put(r: u128, i: u32, op: Pauli) -> u128 {
    with_pauli(r, i as int, op)
}

/// Register `z` with the operators `ops` written at qubits `at`, in order.
pub open spec fn put4(z: u128, at: (u32, u32, u32, u32), ops: (Pauli, Pauli, Pauli, Pauli)) -> u128 {
    put(put(put(put(z, at.0, ops.0), at.1, ops.1), at.2, ops.2), at.3, ops.3)
}

/// Every index of the term addresses a qubit of the register.
pub open spec fn in_register(term: FermiCode) -> bool {
    forall|k: int| 0 <= k < orbitals(term).len() ==> #[trigger] orbitals(term)[k] < 64
}

/// `c / 2`.
pub open spec fn half<T: Coeff>(c: T) -> T {
    c.spec_halved()
}

/// `c / 4`.
pub open spec fn quarter<T: Coeff>(c: T) -> T {
    c.spec_halved().spec_halved()
}

/// `c / 8`.
pub open spec fn eighth<T: Coeff>(c: T) -> T {
    c.spec_halved().spec_halved().spec_halved()
}

/// The Pauli strings, each with its weight, that the mapping gives for
/// `term` with coefficient `c`, in the order in which they are added.
pub open spec fn jw_terms<T: Coeff>(term: FermiCode, c: T) -> Seq<(PauliCode, T)> {
    match term {
        FermiCode::Offset => seq![(PauliCode::from_register(0), c)],
        FermiCode::OneElectron { cr, an } => one_electron_terms(cr.idx(), an.idx(), c),
        FermiCode::TwoElectron { cr, an } => two_electron_terms(
            cr.0.idx(),
            cr.1.idx(),
            an.0.idx(),
            an.1.idx(),
            c,
        ),
    }
}

/// `a+_p a_q` and its conjugate: `(I - Z_p) / 2` where `p == q`, else
/// `(X_p Z..Z X_q + Y_p Z..Z Y_q) / 2` with `Z` strictly between.
pub open spec fn one_electron_terms<T: Coeff>(p: u32, q: u32, c: T) -> Seq<(PauliCode, T)> {
    if p == q {
        seq![
            (PauliCode::from_register(0), half(c)),
            (PauliCode::from_register(put(0, p, Pauli::Z)), half(c).spec_negated()),
        ]
    } else {
        let z = z_string(0, p + 1, q as int);
        seq![
            (PauliCode::from_register(put(put(z, p, Pauli::X), q, Pauli::X)), half(c)),
            (PauliCode::from_register(put(put(z, p, Pauli::Y), q, Pauli::Y)), half(c)),
        ]
    }
}

/// `a+_p a+_q a_r a_s` and its conjugate, by the shape of its indices.
pub open spec fn two_electron_terms<T: Coeff>(p: u32, q: u32, r: u32, s: u32, c: T) -> Seq<
    (PauliCode, T),
> {
    if p == s && q == r {
        number_pair_terms(p, q, c)
    } else if q == r {
        shared_index_terms(p, q, s, c)
    } else {
        distinct_terms(p, q, r, s, c)
    }
}

/// `n_p n_q = (I - Z_p - Z_q + Z_p Z_q) / 4`.
pub open spec fn number_pair_terms<T: Coeff>(p: u32, q: u32, c: T) -> Seq<(PauliCode, T)> {
    seq![
        (PauliCode::from_register(0), quarter(c)),
        (PauliCode::from_register(put(0, p, Pauli::Z)), quarter(c).spec_negated()),
        (PauliCode::from_register(put(0, q, Pauli::Z)), quarter(c).spec_negated()),
        (PauliCode::from_register(put(put(0, p, Pauli::Z), q, Pauli::Z)), quarter(c)),
    ]
}

/// The term with `q` both created and annihilated: `X_p X_s` and `Y_p Y_s`
/// with `Z` strictly between `p` and `s`, each also with `Z_q`.
pub open spec fn shared_index_terms<T: Coeff>(p: u32, q: u32, s: u32, c: T) -> Seq<(PauliCode, T)> {
    let lo = if p < s {
        p
    } else {
        s
    };
    let hi = if p < s {
        s
    } else {
        p
    };
    let z = z_string(0, lo + 1, hi as int);
    let xx = put(put(z, p, Pauli::X), s, Pauli::X);
    let yy = put(put(z, p, Pauli::Y), s, Pauli::Y);
    seq![
        (PauliCode::from_register(xx), quarter(c)),
        (PauliCode::from_register(put(xx, q, Pauli::Z)), quarter(c).spec_negated()),
        (PauliCode::from_register(yy), quarter(c).spec_negated()),
        (PauliCode::from_register(put(yy, q, Pauli::Z)), quarter(c)),
    ]
}

/// The general two-electron term: `Z` strictly between `p` and `q` and
/// strictly between `s` and `r`, and eight patterns of `X` and `Y` on
/// `(p, q, r, s)`, each weighted `c / 8` with its sign.
pub open spec fn distinct_terms<T: Coeff>(p: u32, q: u32, r: u32, s: u32, c: T) -> Seq<
    (PauliCode, T),
> {
    let z = z_string(z_string(0, p + 1, q as int), s + 1, r as int);
    let at = (p, q, r, s);
    let w = eighth(c);
    let m = eighth(c).spec_negated();
    seq![
        (PauliCode::from_register(put4(z, at, (Pauli::X, Pauli::X, Pauli::X, Pauli::X))), w),
        (PauliCode::from_register(put4(z, at, (Pauli::X, Pauli::X, Pauli::Y, Pauli::Y))), m),
        (PauliCode::from_register(put4(z, at, (Pauli::X, Pauli::Y, Pauli::X, Pauli::Y))), w),
        (PauliCode::from_register(put4(z, at, (Pauli::Y, Pauli::X, Pauli::X, Pauli::Y))), w),
        (PauliCode::from_register(put4(z, at, (Pauli::Y, Pauli::X, Pauli::Y, Pauli::X))), w),
        (PauliCode::from_register(put4(z, at, (Pauli::Y, Pauli::Y, Pauli::X, Pauli::X))), m),
        (PauliCode::from_register(put4(z, at, (Pauli::X, Pauli::Y, Pauli::Y, Pauli::X))), w),
        (PauliCode::from_register(put4(z, at, (Pauli::Y, Pauli::Y, Pauli::Y, Pauli::Y))), w),
    ]
}

/// The Pauli strings of all the entries of a fermionic sum, in order.
pub open spec fn jw_all<T: Coeff>(entries: Seq<(FermiCode, T)>) -> Seq<(PauliCode, T)>
    decreases entries.len(),
{
    if entries.len() == 0 {
        seq![]
    } else {
        jw_all(entries.drop_last()) + jw_terms(entries.last().0, entries.last().1)
    }
}

/// Adding one more term after a sequence of them.
pub proof fn lemma_upsert_all_push<K, T: Coeff>(s: Seq<(K, T)>, terms: Seq<(K, T)>, t: (K, T))
    ensures
        upsert_all(s, terms.push(t)) == upsert(upsert_all(s, terms), t.0, t.1),
{
    assert(terms.push(t).drop_last() =~= terms);
}

/// Adding two sequences of terms one after the other.
pub proof fn lemma_upsert_all_concat<K, T: Coeff>(
    s: Seq<(K, T)>,
    a: Seq<(K, T)>,
    b: Seq<(K, T)>,
)
    ensures
        upsert_all(s, a + b) == upsert_all(upsert_all(s, a), b),
    decreases b.len(),
{
    if b.len() == 0 {
        assert(a + b =~= a);
    } else {
        assert((a + b).drop_last() =~= a + b.drop_last());
        lemma_upsert_all_concat(s, a, b.drop_last());
    }
}

/// Register `base` with `Z` written at each qubit of `lo..hi`.
fn z_code(base: PauliCode, lo: u16, hi: u16) -> (r: PauliCode)
    requires
        hi <= WIDTH,
    ensures
        r.register() == z_string(base.register(), lo as int, hi as int),
{
    let mut code = base;
    let mut i: u16 = lo;
    while i < hi
        invariant
            hi <= 64,
            lo <= i || hi <= i,
            z_string(code.register(), i as int, hi as int) == z_string(
                base.register(),
                lo as int,
                hi as int,
            ),
        decreases hi - i,
    {
        code.set_unchecked(i, Pauli::Z);
        i += 1;
    }
    code
}

/// `code` with the operators `ops` written at qubits `at`, in order.
fn code4(code: PauliCode, at: (u16, u16, u16, u16), ops: (Pauli, Pauli, Pauli, Pauli)) -> (r:
    PauliCode)
    requires
        at.0 < WIDTH,
        at.1 < WIDTH,
        at.2 < WIDTH,
        at.3 < WIDTH,
    ensures
        r.register() == put4(
            code.register(),
            (at.0 as u32, at.1 as u32, at.2 as u32, at.3 as u32),
            ops,
        ),
{
    let mut c = code;
    c.set_unchecked(at.0, ops.0);
    c.set_unchecked(at.1, ops.1);
    c.set_unchecked(at.2, ops.2);
    c.set_unchecked(at.3, ops.3);
    c
}

/// The strings of a one-electron term on qubits `p` and `q`.
fn one_electron<T: Coeff>(p: u16, q: u16, coeff: T) -> (r: Vec<(PauliCode, T)>)
    requires
        p < WIDTH,
        q < WIDTH,
    ensures
        r@ == one_electron_terms(p as u32, q as u32, coeff),
{
    let h = coeff.halved();
    let mut out: Vec<(PauliCode, T)> = Vec::new();
    if p == q {
        let mut z = PauliCode::identity();
        out.push((z, h));
        z.set_unchecked(p, Pauli::Z);
        out.push((z, h.negated()));
    } else {
        let z = z_code(PauliCode::identity(), p + 1, q);
        let mut xx = z;
        xx.set_unchecked(p, Pauli::X);
        xx.set_unchecked(q, Pauli::X);
        out.push((xx, h));
        let mut yy = z;
        yy.set_unchecked(p, Pauli::Y);
        yy.set_unchecked(q, Pauli::Y);
        out.push((yy, h));
    }
    assert(out@ =~= one_electron_terms(p as u32, q as u32, coeff));
    out
}

/// The strings of the two-electron term `a+_p a+_q a_q a_p`.
fn number_pair<T: Coeff>(p: u16, q: u16, coeff: T) -> (r: Vec<(PauliCode, T)>)
    requires
        p < WIDTH,
        q < WIDTH,
    ensures
        r@ == number_pair_terms(p as u32, q as u32, coeff),
{
    let w = coeff.halved().halved();
    let m = w.negated();
    let mut out: Vec<(PauliCode, T)> = Vec::new();
    out.push((PauliCode::identity(), w));
    let mut zp = PauliCode::identity();
    zp.set_unchecked(p, Pauli::Z);
    out.push((zp, m));
    let mut zq = PauliCode::identity();
    zq.set_unchecked(q, Pauli::Z);
    out.push((zq, m));
    let mut zz = zp;
    zz.set_unchecked(q, Pauli::Z);
    out.push((zz, w));
    assert(out@ =~= number_pair_terms(p as u32, q as u32, coeff));
    out
}

/// The strings of the two-electron term `a+_p a+_q a_q a_s`.
fn shared_index<T: Coeff>(p: u16, q: u16, s: u16, coeff: T) -> (r: Vec<(PauliCode, T)>)
    requires
        p < WIDTH,
        q < WIDTH,
        s < WIDTH,
    ensures
        r@ == shared_index_terms(p as u32, q as u32, s as u32, coeff),
{
    let w = coeff.halved().halved();
    let m = w.negated();
    let (lo, hi) = if p < s {
        (p, s)
    } else {
        (s, p)
    };
    let z = z_code(PauliCode::identity(), lo + 1, hi);
    let mut out: Vec<(PauliCode, T)> = Vec::new();
    let mut xx = z;
    xx.set_unchecked(p, Pauli::X);
    xx.set_unchecked(s, Pauli::X);
    out.push((xx, w));
    let mut xxz = xx;
    xxz.set_unchecked(q, Pauli::Z);
    out.push((xxz, m));
    let mut yy = z;
    yy.set_unchecked(p, Pauli::Y);
    yy.set_unchecked(s, Pauli::Y);
    out.push((yy, m));
    let mut yyz = yy;
    yyz.set_unchecked(q, Pauli::Z);
    out.push((yyz, w));
    assert(out@ =~= shared_index_terms(p as u32, q as u32, s as u32, coeff));
    out
}

/// The strings of the general two-electron term `a+_p a+_q a_r a_s`.
fn distinct<T: Coeff>(p: u16, q: u16, r: u16, s: u16, coeff: T) -> (res: Vec<(PauliCode, T)>)
    requires
        p < WIDTH,
        q < WIDTH,
        r < WIDTH,
        s < WIDTH,
    ensures
        res@ == distinct_terms(p as u32, q as u32, r as u32, s as u32, coeff),
{
    let w = coeff.halved().halved().halved();
    let m = w.negated();
    let z = z_code(z_code(PauliCode::identity(), p + 1, q), s + 1, r);
    let at = (p, q, r, s);
    let mut out: Vec<(PauliCode, T)> = Vec::new();
    out.push((code4(z, at, (Pauli::X, Pauli::X, Pauli::X, Pauli::X)), w));
    out.push((code4(z, at, (Pauli::X, Pauli::X, Pauli::Y, Pauli::Y)), m));
    out.push((code4(z, at, (Pauli::X, Pauli::Y, Pauli::X, Pauli::Y)), w));
    out.push((code4(z, at, (Pauli::Y, Pauli::X, Pauli::X, Pauli::Y)), w));
    out.push((code4(z, at, (Pauli::Y, Pauli::X, Pauli::Y, Pauli::X)), w));
    out.push((code4(z, at, (Pauli::Y, Pauli::Y, Pauli::X, Pauli::X)), m));
    out.push((code4(z, at, (Pauli::X, Pauli::Y, Pauli::Y, Pauli::X)), w));
    out.push((code4(z, at, (Pauli::Y, Pauli::Y, Pauli::Y, Pauli::Y)), w));
    assert(out@ =~= distinct_terms(p as u32, q as u32, r as u32, s as u32, coeff));
    out
}

/// Where an index of `term` lies beyond the register, the first such index.
fn index_beyond(term: &FermiCode) -> (r: Option<u32>)
    ensures
        r is None <==> in_register(*term),
        r is Some ==> r->0 >= 64 && orbitals(*term).contains(r->0),
{
    let idx: Vec<u32> = match term {
        FermiCode::Offset => Vec::new(),
        FermiCode::OneElectron { cr, an } => vec![cr.index(), an.index()],
        FermiCode::TwoElectron { cr, an } => vec![
            cr.0.index(),
            cr.1.index(),
            an.0.index(),
            an.1.index(),
        ],
    };
    assert(idx@ =~= orbitals(*term));
    let mut k: usize = 0;
    while k < idx.len()
        invariant
            idx@ == orbitals(*term),
            0 <= k <= idx@.len(),
            forall|j: int| 0 <= j < k ==> #[trigger] idx@[j] < 64,
        decreases idx@.len() - k,
    {
        if idx[k] >= 64 {
            return Some(idx[k]);
        }
        k += 1;
    }
    None
}

/// The Pauli strings, with their weights, of `term` with coefficient
/// `coeff`; every index of the term lies within the register.
pub fn term_paulis<T: Coeff>(term: &FermiCode, coeff: T) -> (r: Vec<(PauliCode, T)>)
    requires
        in_register(*term),
    ensures
        r@ == jw_terms(*term, coeff),
{
    match term {
        FermiCode::Offset => vec![(PauliCode::identity(), coeff)],
        FermiCode::OneElectron { cr, an } => {
            assert(orbitals(*term)[0] < 64 && orbitals(*term)[1] < 64);
            one_electron(cr.index() as u16, an.index() as u16, coeff)
        },
        FermiCode::TwoElectron { cr, an } => {
            assert(orbitals(*term)[0] < 64 && orbitals(*term)[1] < 64);
            assert(orbitals(*term)[2] < 64 && orbitals(*term)[3] < 64);
            let (p, q, r, s) = (
                cr.0.index() as u16,
                cr.1.index() as u16,
                an.0.index() as u16,
                an.1.index() as u16,
            );
            if p == s && q == r {
                number_pair(p, q, coeff)
            } else if q == r {
                shared_index(p, q, s, coeff)
            } else {
                distinct(p, q, r, s, coeff)
            }
        },
    }
}

/// Adds `terms` to `repr`, in order.
fn add_all<T: Coeff>(repr: &mut SumRepr<T, PauliCode>, terms: &Vec<(PauliCode, T)>)
    requires
        old(repr).wf(),
    ensures
        final(repr).wf(),
        final(repr)@ == upsert_all(old(repr)@, terms@),
{
    let ghost start = repr@;
    let mut i: usize = 0;
    while i < terms.len()
        invariant
            repr.wf(),
            0 <= i <= terms@.len(),
            repr@ == upsert_all(start, terms@.take(i as int)),
        decreases terms@.len() - i,
    {
        let (code, coeff) = terms[i];
        proof {
            assert(terms@.take(i as int + 1) =~= terms@.take(i as int).push(terms@[i as int]));
            lemma_upsert_all_push(start, terms@.take(i as int), terms@[i as int]);
        }
        repr.add_term(code, coeff);
        i += 1;
    }
    assert(terms@.take(i as int) =~= terms@);
}

/// Jordan-Wigner mapping of a sum of fermionic terms, which it adds, as
/// Pauli strings, into a sum of those.
pub struct JordanWigner<'a, T> {
    repr: &'a SumRepr<T, FermiCode>,
}

impl<'a, T: Coeff> JordanWigner<'a, T> {
    /// The fermionic entries that the mapping reads.
    pub closed spec fn source(&self) -> Seq<(FermiCode, T)> {
        self.repr@
    }

    /// The mapping of the fermionic sum `repr`.
    pub fn new(repr: &'a SumRepr<T, FermiCode>) -> (r: Self)
        ensures
            r.source() == repr@,
    {
        JordanWigner { repr }
    }
}

impl<'a, T: Coeff> Terms<T, PauliCode> for JordanWigner<'a, T> {
    /// Adds the Pauli strings of every fermionic entry into `repr`; fails,
    /// adding nothing, where an orbital index lies beyond the register.
    fn add_to(&mut self, repr: &mut SumRepr<T, PauliCode>) -> (r: Result<(), Error>)
        ensures
            r is Ok <==> forall|i: int|
                0 <= i < old(self).source().len() ==> in_register(#[trigger] old(self).source()[i].0),
            r is Ok ==> final(repr)@ == upsert_all(old(repr)@, jw_all(old(self).source())),
            r is Err ==> *final(repr) == *old(repr),
            r matches Err(Error::PauliIndex { index }) ==> index >= 64 && exists|i: int|
                0 <= i < old(self).source().len() && orbitals(#[trigger] old(self).source()[i].0).contains(
                    index,
                ),
            *final(self) == *old(self),
    {
        let entries = self.repr.entries();
        let mut i: usize = 0;
        while i < entries.len()
            invariant
                entries@ == old(self).source(),
                0 <= i <= entries@.len(),
                forall|j: int| 0 <= j < i ==> in_register(#[trigger] entries@[j].0),
                repr.wf(),
            decreases entries@.len() - i,
        {
            match index_beyond(&entries[i].0) {
                Some(index) => {
                    return Err(Error::PauliIndex { index });
                },
                None => {},
            }
            i += 1;
        }
        let ghost start = repr@;
        let mut i: usize = 0;
        while i < entries.len()
            invariant
                entries@ == old(self).source(),
                forall|j: int| 0 <= j < entries@.len() ==> in_register(#[trigger] entries@[j].0),
                0 <= i <= entries@.len(),
                repr.wf(),
                repr@ == upsert_all(start, jw_all(entries@.take(i as int))),
            decreases entries@.len() - i,
        {
            let (term, coeff) = entries[i];
            let paulis = term_paulis(&term, coeff);
            proof {
                let e = entries@.take(i as int + 1);
                assert(e.drop_last() =~= entries@.take(i as int));
                lemma_upsert_all_concat(start, jw_all(entries@.take(i as int)), paulis@);
            }
            add_all(repr, &paulis);
            i += 1;
        }
        assert(entries@.take(i as int) =~= entries@);
        Ok(())
    }
}

/// Adding terms with distinct codes to an empty sum gives exactly those
/// terms.
pub proof fn lemma_fresh_terms<K, T: Coeff>(terms: Seq<(K, T)>)
    requires
        codes_distinct(terms),
    ensures
        upsert_all(Seq::<(K, T)>::empty(), terms) == terms,
    decreases terms.len(),
{
    if terms.len() > 0 {
        let init = terms.drop_last();
        assert(codes_distinct(init));
        lemma_fresh_terms(init);
        assert(!has_code(init, terms.last().0)) by {
            if has_code(init, terms.last().0) {
                let i = choose|i: int| 0 <= i < init.len() && init[i].0 == terms.last().0;
                assert(terms[i].0 == terms[terms.len() - 1].0);
            }
        }
        assert(init.push(terms.last()) =~= terms);
    }
}

/// The mapping of a sum that holds one entry, added into an empty sum.
pub open spec fn mapped_alone<T: Coeff>(term: FermiCode, c: T) -> Seq<(PauliCode, T)> {
    upsert_all(Seq::<(PauliCode, T)>::empty(), jw_all(seq![(term, c)]))
}

proof fn lemma_jw_all_single<T: Coeff>(term: FermiCode, c: T)
    ensures
        jw_all(seq![(term, c)]) == jw_terms(term, c),
{
    reveal_with_fuel(jw_all, 2);
    assert(seq![(term, c)].drop_last() =~= Seq::<(FermiCode, T)>::empty());
    assert(Seq::<(PauliCode, T)>::empty() + jw_terms(term, c) =~= jw_terms(term, c));
}

/// The operator that register `r` holds at qubit `i`.
pub open spec fn op_at(r: u128, i: int) -> Pauli {
    pauli_of_bits(digit(r, i))
}

proof fn lemma_op_at_zero(i: int)
    requires
        0 <= i < 64,
    ensures
        op_at(0, i) == Pauli::I,
{
    let id = PauliCode::from_register(0);
    assert(id@[i] == op_at(0, i));
    lemma_identity_view(i);
}

/// The constant term maps to the identity with the same coefficient.
pub proof fn lemma_offset<T: Coeff>(c: T)
    ensures
        mapped_alone(FermiCode::Offset, c) == seq![(PauliCode::from_register(0), c)],
{
    lemma_jw_all_single(FermiCode::Offset, c);
    lemma_fresh_terms(seq![(PauliCode::from_register(0), c)]);
}

/// The one-electron term on a single orbital `p` maps to the identity with
/// `c / 2` and to `Z_p` with `-c / 2`.
pub proof fn lemma_one_electron_diagonal<T: Coeff>(p: Orbital, c: T)
    requires
        p.idx() < 64,
    ensures
        mapped_alone(FermiCode::OneElectron { cr: p, an: p }, c) == seq![
            (PauliCode::from_register(0), half(c)),
            (PauliCode::from_register(put(0, p.idx(), Pauli::Z)), half(c).spec_negated()),
        ],
{
    let term = FermiCode::OneElectron { cr: p, an: p };
    lemma_jw_all_single(term, c);
    let i = p.idx() as int;
    let t = one_electron_terms(p.idx(), p.idx(), c);
    assert(jw_terms(term, c) == t);
    lemma_with_pauli(0, i, Pauli::Z, i);
    lemma_op_at_zero(i);
    assert(op_at(put(0, p.idx(), Pauli::Z), i) != op_at(0, i));
    assert(t[0].0 != t[1].0);
    lemma_fresh_terms(t);
}

/// The one-electron term on orbitals `p < q` maps to `X_p Z..Z X_q` and to
/// `Y_p Z..Z Y_q`, each with `c / 2`, and to nothing else.
pub proof fn lemma_one_electron_off_diagonal<T: Coeff>(p: Orbital, q: Orbital, c: T)
    requires
        p.idx() < q.idx() < 64,
    ensures
        ({
            let z = z_string(0, p.idx() + 1, q.idx() as int);
            mapped_alone(FermiCode::OneElectron { cr: p, an: q }, c) == seq![
                (
                    PauliCode::from_register(put(put(z, p.idx(), Pauli::X), q.idx(), Pauli::X)),
                    half(c),
                ),
                (
                    PauliCode::from_register(put(put(z, p.idx(), Pauli::Y), q.idx(), Pauli::Y)),
                    half(c),
                ),
            ]
        }),
{
    let term = FermiCode::OneElectron { cr: p, an: q };
    lemma_jw_all_single(term, c);
    let z = z_string(0, p.idx() + 1, q.idx() as int);
    let (i, j) = (p.idx() as int, q.idx() as int);
    lemma_with_pauli(put(z, p.idx(), Pauli::X), j, Pauli::X, i);
    lemma_with_pauli(z, i, Pauli::X, i);
    lemma_with_pauli(put(z, p.idx(), Pauli::Y), j, Pauli::Y, i);
    lemma_with_pauli(z, i, Pauli::Y, i);
    let t = one_electron_terms(p.idx(), q.idx(), c);
    assert(jw_terms(term, c) == t);
    assert(op_at(t[0].0.register(), i) != op_at(t[1].0.register(), i));
    assert(t[0].0 != t[1].0);
    lemma_fresh_terms(t);
}

} // verus!
