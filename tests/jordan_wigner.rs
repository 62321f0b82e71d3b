use f2q::fermions::{An, Cr, FermiCode, Orbital, Spin};
use f2q::maps::JordanWigner;
use f2q::qubits::{Pauli, PauliCode};
use f2q::terms::{Coeff, SumRepr};
use f2q::{Error, Terms};
use f2q::qubits::Pauli::{I, X, Y, Z};

/// Double-precision coefficients.
#[derive(Debug, Clone, Copy, PartialEq)]
struct Real(f64);

impl Coeff for Real {
    fn spec_zero() -> Self {
        Self::zero()
    }

    fn spec_plus(self, other: Self) -> Self {
        self.plus(other)
    }

    fn spec_negated(self) -> Self {
        self.negated()
    }

    fn spec_halved(self) -> Self {
        self.halved()
    }

    fn zero() -> Self {
        Real(0.0)
    }

    fn plus(self, other: Self) -> Self {
        Real(self.0 + other.0)
    }

    fn negated(self) -> Self {
        Real(-self.0)
    }

    fn halved(self) -> Self {
        Real(self.0 * 0.5)
    }
}

const MOCK_COEFF: f64 = 0.12345;

fn close(coeff: Real, expected: f64) {
    assert!(
        (coeff.0 - expected).abs() < f64::EPSILON,
        "{} {expected}",
        coeff.0
    );
}

fn map_one(term: FermiCode, coeff: f64) -> SumRepr<Real, PauliCode> {
    let mut fermi_sum = SumRepr::new();
    fermi_sum.add_term(term, Real(coeff));
    let mut pauli_sum = SumRepr::new();
    JordanWigner::new(&fermi_sum)
        .add_to(&mut pauli_sum)
        .unwrap();
    pauli_sum
}

#[test]
fn test_sumrepr_init_01() {
    let code = PauliCode::new((1234, 0));
    let mut hamil = SumRepr::new();

    hamil.add_term(code, Real(4321.));
    let coeff = hamil.coeff(code);
    assert!(f64::abs(coeff.0 - 4321.) < f64::EPSILON);
}

#[test]
fn sumrepr_additivity() {
    let code = PauliCode::new((77, 5));
    let mut sum = SumRepr::new();
    sum.add_term(code, Real(1.25));
    sum.add_term(code, Real(2.5));
    assert_eq!(sum.coeff(code), Real(3.75));
    assert_eq!(sum.len(), 1);

    sum.add_term(PauliCode::default(), Real(0.0));
    assert_eq!(sum.len(), 2);
    assert_eq!(sum.coeff(PauliCode::default()), Real(0.0));
    assert_eq!(sum.coeff(PauliCode::new((1, 0))), Real(0.0));
    assert!(!sum.is_empty());
}

#[test]
fn sumrepr_entries_in_order() {
    let mut sum = SumRepr::with_capacity(8);
    assert!(sum.is_empty());
    sum.add_term(3u64, Real(1.0));
    sum.add_term(1u64, Real(2.0));
    sum.add_term(3u64, Real(4.0));
    assert_eq!(sum.entries(), &[(3u64, Real(5.0)), (1u64, Real(2.0))]);
}

#[test]
fn test_spin_init_01() {
    let spin = Spin::Down;
    assert_eq!(u8::from(spin), 0);
    let spin = Spin::Up;
    assert_eq!(u8::from(spin), 1);

    let spin = Spin::default();
    assert_eq!(u8::from(spin), 0);
}

#[test]
fn test_orbital_enumerate_01() {
    let orb = Orbital::default();
    assert_eq!(orb.index(), 0);

    let orb = Orbital::new(3, Spin::Down);
    assert_eq!(orb.index(), 6);

    let orb = Orbital::new(8, Spin::Up);
    assert_eq!(orb.index(), 17);
}

#[test]
fn orbital_from_index_01() {
    assert_eq!(Orbital::from_index(1).index(), 1);
    assert_eq!(Orbital::from_index(2).index(), 2);
    assert_eq!(Orbital::from_index(19).index(), 19);
}

#[test]
fn fermi_code_constructors() {
    let (o1, o2) = (Orbital::from_index(1), Orbital::from_index(2));
    assert!(FermiCode::one_electron(Cr(o1), An(o1)).is_some());
    assert!(FermiCode::one_electron(Cr(o1), An(o2)).is_some());
    assert_eq!(FermiCode::one_electron(Cr(o2), An(o1)), None);

    assert_eq!(
        FermiCode::two_electron((Cr(o1), Cr(o2)), (An(o2), An(o1))),
        Some(FermiCode::TwoElectron { cr: (o1, o2), an: (o2, o1) })
    );
    assert_eq!(FermiCode::two_electron((Cr(o2), Cr(o1)), (An(o2), An(o1))), None);
    assert_eq!(FermiCode::two_electron((Cr(o1), Cr(o1)), (An(o2), An(o1))), None);
    assert_eq!(FermiCode::two_electron((Cr(o1), Cr(o2)), (An(o1), An(o2))), None);
    assert_eq!(FermiCode::two_electron((Cr(o1), Cr(o2)), (An(o2), An(o2))), None);
}

#[test]
fn jordan_wigner_01() {
    let pauli_sum = map_one(FermiCode::Offset, MOCK_COEFF);
    close(pauli_sum.coeff(PauliCode::default()), MOCK_COEFF);
    assert_eq!(pauli_sum.len(), 1);
}

fn check_jordan_wigner_one_pp(index: u32) {
    let p = Orbital::from_index(index);
    let integral = FermiCode::one_electron(Cr(p), An(p)).unwrap();
    let pauli_sum = map_one(integral, MOCK_COEFF);

    let code = PauliCode::default();
    close(pauli_sum.coeff(code), MOCK_COEFF * 0.5);

    let code = {
        let mut code = PauliCode::default();
        code.set(u16::try_from(index).unwrap(), Pauli::Z).unwrap();
        code
    };
    close(pauli_sum.coeff(code), -MOCK_COEFF * 0.5);
    assert_eq!(pauli_sum.len(), 2);
}

#[test]
fn jordan_wigner_one_pp() {
    check_jordan_wigner_one_pp(0);
    check_jordan_wigner_one_pp(1);
    check_jordan_wigner_one_pp(2);
    check_jordan_wigner_one_pp(63);
}

fn check_jordan_wigner_one_pq(index1: u16, index2: u16) {
    assert!(index1 < index2);
    let p = Orbital::from_index(u32::from(index1));
    let q = Orbital::from_index(u32::from(index2));
    let integral = FermiCode::one_electron(Cr(p), An(q)).unwrap();
    let pauli_sum = map_one(integral, MOCK_COEFF);

    let mut code = PauliCode::default();
    for i in index1 + 1..index2 {
        code.set(i, Pauli::Z).unwrap();
    }
    code.set(index1, Pauli::X).unwrap();
    code.set(index2, Pauli::X).unwrap();
    close(pauli_sum.coeff(code), MOCK_COEFF * 0.5);

    code.set(index1, Pauli::Y).unwrap();
    code.set(index2, Pauli::Y).unwrap();
    close(pauli_sum.coeff(code), MOCK_COEFF * 0.5);
    assert_eq!(pauli_sum.len(), 2);
}

#[test]
fn jordan_wigner_one_pq() {
    check_jordan_wigner_one_pq(0, 1);
    check_jordan_wigner_one_pq(0, 3);
    check_jordan_wigner_one_pq(0, 17);

    check_jordan_wigner_one_pq(11, 17);
    check_jordan_wigner_one_pq(11, 47);
}

#[test]
fn jordan_wigner_one_adjacent() {
    let (p, q) = (Orbital::from_index(0), Orbital::from_index(1));
    let pauli_sum = map_one(FermiCode::one_electron(Cr(p), An(q)).unwrap(), 0.12345);
    assert_eq!(pauli_sum.len(), 2);
    close(pauli_sum.coeff(PauliCode::with_ops(&[X, X])), 0.061725);
    close(pauli_sum.coeff(PauliCode::with_ops(&[Y, Y])), 0.061725);
}

fn check_jordan_wigner_two_pq(index1: u16, index2: u16) {
    assert!(index1 < index2);
    let p = Orbital::from_index(u32::from(index1));
    let q = Orbital::from_index(u32::from(index2));
    let integral =
        FermiCode::two_electron((Cr(p), Cr(q)), (An(q), An(p))).unwrap();
    let pauli_sum = map_one(integral, MOCK_COEFF);

    close(pauli_sum.coeff(PauliCode::default()), MOCK_COEFF * 0.25);

    let mut code = PauliCode::default();
    code.set(index1, Pauli::Z).unwrap();
    close(pauli_sum.coeff(code), -MOCK_COEFF * 0.25);

    let mut code = PauliCode::default();
    code.set(index2, Pauli::Z).unwrap();
    close(pauli_sum.coeff(code), -MOCK_COEFF * 0.25);

    let mut code = PauliCode::default();
    code.set(index1, Pauli::Z).unwrap();
    code.set(index2, Pauli::Z).unwrap();
    close(pauli_sum.coeff(code), MOCK_COEFF * 0.25);
    assert_eq!(pauli_sum.len(), 4);
}

#[test]
fn jordan_wigner_two_pq() {
    check_jordan_wigner_two_pq(0, 1);
    check_jordan_wigner_two_pq(0, 2);
    check_jordan_wigner_two_pq(0, 3);

    check_jordan_wigner_two_pq(11, 13);
    check_jordan_wigner_two_pq(11, 33);
}

#[test]
fn jordan_wigner_number_pair_scenario() {
    let (p, q) = (Orbital::from_index(0), Orbital::from_index(1));
    let integral = FermiCode::two_electron((Cr(p), Cr(q)), (An(q), An(p))).unwrap();
    let pauli_sum = map_one(integral, 0.12345);
    assert_eq!(pauli_sum.len(), 4);
    close(pauli_sum.coeff(PauliCode::default()), 0.0308625);
    close(pauli_sum.coeff(PauliCode::with_ops(&[Z])), -0.0308625);
    close(pauli_sum.coeff(PauliCode::with_ops(&[I, Z])), -0.0308625);
    close(pauli_sum.coeff(PauliCode::with_ops(&[Z, Z])), 0.0308625);
}

fn check_jordan_wigner_two_pqs(index1: u16, index2: u16, index3: u16) {
    assert!(index1 < index2);
    assert!(index2 > index3);
    assert!(index1 <= index3);

    let p = Orbital::from_index(u32::from(index1));
    let q = Orbital::from_index(u32::from(index2));
    let s = Orbital::from_index(u32::from(index3));
    let integral =
        FermiCode::two_electron((Cr(p), Cr(q)), (An(q), An(s))).unwrap();
    let pauli_sum = map_one(integral, MOCK_COEFF);

    let mut code = PauliCode::default();
    for i in index1 + 1..index3 {
        code.set(i, Pauli::Z).unwrap();
    }
    code.set(index1, Pauli::X).unwrap();
    code.set(index3, Pauli::X).unwrap();
    close(pauli_sum.coeff(code), MOCK_COEFF * 0.25);

    let mut code = PauliCode::default();
    for i in index1 + 1..index3 {
        code.set(i, Pauli::Z).unwrap();
    }
    code.set(index1, Pauli::Y).unwrap();
    code.set(index3, Pauli::Y).unwrap();
    close(pauli_sum.coeff(code), -MOCK_COEFF * 0.25);

    let mut code = PauliCode::default();
    for i in index1 + 1..index3 {
        code.set(i, Pauli::Z).unwrap();
    }
    code.set(index1, Pauli::X).unwrap();
    code.set(index3, Pauli::X).unwrap();
    code.set(index2, Pauli::Z).unwrap();
    close(pauli_sum.coeff(code), -MOCK_COEFF * 0.25);

    let mut code = PauliCode::default();
    for i in index1 + 1..index3 {
        code.set(i, Pauli::Z).unwrap();
    }
    code.set(index1, Pauli::Y).unwrap();
    code.set(index3, Pauli::Y).unwrap();
    code.set(index2, Pauli::Z).unwrap();
    close(pauli_sum.coeff(code), MOCK_COEFF * 0.25);
    assert_eq!(pauli_sum.len(), 4);
}

#[test]
fn jordan_wigner_two_pqs() {
    check_jordan_wigner_two_pqs(0, 2, 1);
    check_jordan_wigner_two_pqs(0, 7, 3);
    check_jordan_wigner_two_pqs(11, 13, 12);

    check_jordan_wigner_two_pqs(11, 37, 22);
}

fn check_jordan_wigner_two_pqrs(index1: u16, index2: u16, index3: u16, index4: u16) {
    assert!(index1 < index2);
    assert!(index3 > index4);
    assert!(index1 <= index4);

    let p = Orbital::from_index(u32::from(index1));
    let q = Orbital::from_index(u32::from(index2));
    let r = Orbital::from_index(u32::from(index3));
    let s = Orbital::from_index(u32::from(index4));
    let integral =
        FermiCode::two_electron((Cr(p), Cr(q)), (An(r), An(s))).unwrap();
    let pauli_sum = map_one(integral, MOCK_COEFF);

    let base_code = {
        let mut code = PauliCode::default();
        for i in index1 + 1..index2 {
            code.set(i, Pauli::Z).unwrap();
        }
        for i in index4 + 1..index3 {
            code.set(i, Pauli::Z).unwrap();
        }
        code
    };

    let patterns: [([Pauli; 4], f64); 8] = {
        [
            ([X, X, X, X], 1.0),
            ([X, X, Y, Y], -1.0),
            ([X, Y, X, Y], 1.0),
            ([Y, X, X, Y], 1.0),
            ([Y, X, Y, X], 1.0),
            ([Y, Y, X, X], -1.0),
            ([X, Y, Y, X], 1.0),
            ([Y, Y, Y, Y], 1.0),
        ]
    };
    for (ops, sign) in patterns {
        let mut code = base_code;
        code.set(index1, ops[0]).unwrap();
        code.set(index2, ops[1]).unwrap();
        code.set(index3, ops[2]).unwrap();
        code.set(index4, ops[3]).unwrap();
        close(pauli_sum.coeff(code), sign * MOCK_COEFF * 0.125);
    }
    assert_eq!(pauli_sum.len(), 8);
}

#[test]
fn jordan_wigner_two_pqrs() {
    check_jordan_wigner_two_pqrs(0, 1, 2, 0);
    check_jordan_wigner_two_pqrs(0, 1, 2, 1);
    check_jordan_wigner_two_pqrs(0, 1, 3, 2);

    check_jordan_wigner_two_pqrs(11, 32, 31, 19);
    check_jordan_wigner_two_pqrs(11, 31, 61, 29);
}

#[test]
fn jordan_wigner_index_beyond_register() {
    let (p, q) = (Orbital::from_index(3), Orbital::from_index(64));
    let mut fermi_sum = SumRepr::new();
    fermi_sum.add_term(FermiCode::Offset, Real(1.0));
    fermi_sum.add_term(FermiCode::one_electron(Cr(p), An(q)).unwrap(), Real(1.0));

    let mut pauli_sum = SumRepr::new();
    pauli_sum.add_term(PauliCode::new((5, 0)), Real(2.0));
    let result = JordanWigner::new(&fermi_sum).add_to(&mut pauli_sum);
    assert_eq!(result, Err(Error::PauliIndex { index: 64 }));
    assert_eq!(pauli_sum.entries(), &[(PauliCode::new((5, 0)), Real(2.0))]);
}

#[test]
fn jordan_wigner_merges_terms() {
    let p = Orbital::from_index(5);
    let mut fermi_sum = SumRepr::new();
    fermi_sum.add_term(FermiCode::Offset, Real(1.0));
    fermi_sum.add_term(FermiCode::one_electron(Cr(p), An(p)).unwrap(), Real(3.0));

    let mut pauli_sum = SumRepr::new();
    JordanWigner::new(&fermi_sum).add_to(&mut pauli_sum).unwrap();
    assert_eq!(pauli_sum.len(), 2);
    assert_eq!(pauli_sum.coeff(PauliCode::default()), Real(2.5));
    let mut z5 = PauliCode::default();
    z5.set(5, Pauli::Z).unwrap();
    assert_eq!(pauli_sum.coeff(z5), Real(-1.5));
}

#[test]
fn integer_coefficients_exact() {
    let o = |i: u32| Orbital::from_index(i);
    let mut fermi_sum: SumRepr<i64, FermiCode> = SumRepr::new();
    fermi_sum.add_term(
        FermiCode::two_electron((Cr(o(11)), Cr(o(32))), (An(o(31)), An(o(19)))).unwrap(),
        800,
    );
    fermi_sum.add_term(FermiCode::one_electron(Cr(o(2)), An(o(2))).unwrap(), -6);
    let mut pauli_sum = SumRepr::new();
    JordanWigner::new(&fermi_sum).add_to(&mut pauli_sum).unwrap();
    assert_eq!(pauli_sum.len(), 10);

    let mut xxxx = PauliCode::default();
    for i in (12..32).chain(20..31) {
        xxxx.set(i, Z).unwrap();
    }
    for i in [11, 32, 31, 19] {
        xxxx.set(i, X).unwrap();
    }
    assert_eq!(pauli_sum.coeff(xxxx), 100);
    let mut yyxx = xxxx;
    yyxx.set(11, Y).unwrap();
    yyxx.set(32, Y).unwrap();
    assert_eq!(pauli_sum.coeff(yyxx), -100);

    assert_eq!(pauli_sum.coeff(PauliCode::default()), -3);
    assert_eq!(pauli_sum.coeff(PauliCode::with_ops(&[I, I, Z])), 3);
}

#[test]
fn integer_coefficient_ops() {
    assert_eq!(<i64 as Coeff>::zero(), 0);
    assert_eq!(5i64.plus(-7), -2);
    assert_eq!(i64::MAX.plus(1), i64::MIN);
    assert_eq!(5i64.negated(), -5);
    assert_eq!(6i64.halved(), 3);
    assert_eq!((-3i64).halved(), -2);
}
