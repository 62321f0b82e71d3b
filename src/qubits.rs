//! Pauli operators and strings of 64 of them packed into one register.

use vstd::prelude::*;
use vstd::string::StrSliceExecFns;

use crate::{Code, Error};

verus! {

/// Number of qubits that one code addresses.
pub const WIDTH: u16 = 64;

/// A single-qubit Pauli operator.
#[derive(Debug, Clone, Copy, PartialEq, Eq, Structural, Hash)]
pub enum Pauli {
    I,
    X,
    Y,
    Z,
}

/// The operator that two bits encode: `I = 0`, `X = 1`, `Y = 2`, `Z = 3`.
pub open spec fn pauli_of_bits(b: u128) -> Pauli {
    if b == 0 {
        Pauli::I
    } else if b == 1 {
        Pauli::X
    } else if b == 2 {
        Pauli::Y
    } else {
        Pauli::Z
    }
}

/// The two bits that encode an operator.
pub open spec fn bits_of(p: Pauli) -> u128 {
    match p {
        Pauli::I => 0,
        Pauli::X => 1,
        Pauli::Y => 2,
        Pauli::Z => 3,
    }
}

/// The two bits of register `r` at qubit `i`.
pub open spec fn digit(r: u128, i: int) -> u128 {
    (r >> ((2 * i) as u128)) & 3
}

/// Register `r` with the operator at qubit `i` replaced by `p`.
pub open spec fn with_pauli(r: u128, i: int, p: Pauli) -> u128 {
    (r & !(3u128 << ((2 * i) as u128))) | (bits_of(p) << ((2 * i) as u128))
}

/// Register `r` with `Z` written at each qubit of `lo..hi`, lowest first.
pub open spec fn z_string(r: u128, lo: int, hi: int) -> u128
    decreases hi - lo,
{
    if lo >= hi {
        r
    } else {
        z_string(with_pauli(r, lo, Pauli::Z), lo + 1, hi)
    }
}

proof fn lemma_digit_same(r: u128, i: u128, v: u128)
    by (bit_vector)
    requires
        i < 64,
        v < 4,
    ensures
        (((r & !(3u128 << (2 * i))) | (v << (2 * i))) >> (2 * i)) & 3 == v,
{
}

proof fn lemma_digit_other(r: u128, i: u128, j: u128, v: u128)
    by (bit_vector)
    requires
        i < 64,
        j < 64,
        i != j,
        v < 4,
    ensures
        (((r & !(3u128 << (2 * i))) | (v << (2 * i))) >> (2 * j)) & 3 == (r >> (2 * j)) & 3,
{
}

/// Two bits hold a value below four.
pub proof fn lemma_digit_bound(r: u128, i: u128)
    by (bit_vector)
    ensures
        (r >> i) & 3 < 4,
{
}

proof fn lemma_digit_zero(i: u128)
    by (bit_vector)
    ensures
        (0u128 >> i) & 3 == 0,
{
}

/// The zero register holds the identity on every qubit.
pub proof fn lemma_identity_view(i: int)
    requires
        0 <= i < 64,
    ensures
        pauli_of_bits(digit(0, i)) == Pauli::I,
{
    lemma_digit_zero((2 * i) as u128);
}

/// Decoding the bits of an operator gives the operator back.
pub proof fn lemma_pauli_bits(p: Pauli)
    ensures
        pauli_of_bits(bits_of(p)) == p,
        bits_of(p) < 4,
{
}

/// Writing an operator at qubit `i` changes the decoded operator there and
/// nowhere else.
pub proof fn lemma_with_pauli(r: u128, i: int, p: Pauli, j: int)
    requires
        0 <= i < 64,
        0 <= j < 64,
    ensures
        pauli_of_bits(digit(with_pauli(r, i, p), j)) == if i == j {
            p
        } else {
            pauli_of_bits(digit(r, j))
        },
{
    lemma_pauli_bits(p);
    if i == j {
        lemma_digit_same(r, i as u128, bits_of(p));
    } else {
        lemma_digit_other(r, i as u128, j as u128, bits_of(p));
    }
}

/// A string of 64 Pauli operators packed two bits per qubit into a 128-bit
/// register; qubit `i` occupies bits `2i` and `2i + 1`.
#[derive(Debug, Clone, Copy, PartialEq, Eq, Structural, PartialOrd, Ord, Hash)]
pub struct PauliCode {
    pub(crate) pack: u128,
}

impl View for PauliCode {
    type V = Seq<Pauli>;

    /// The operators at qubits `0..64`.
    open spec fn view(&self) -> Seq<Pauli> {
        Seq::new(64, |i: int| pauli_of_bits(digit(self.register(), i)))
    }
}

impl PauliCode {
    /// The packed register.
    pub open(crate) spec fn register(self) -> u128 {
        self.pack
    }

    /// The code whose packed register is `r`.
    pub open(crate) spec fn from_register(r: u128) -> PauliCode {
        PauliCode { pack: r }
    }

    /// Builds a code from the two 64-bit halves of its register, low half
    /// first.
    pub fn new(pack: (u64, u64)) -> (r: PauliCode)
        ensures
            r.register() as int == pack.0 as int + pack.1 as int * 0x1_0000_0000_0000_0000,
    {
        let (lo, hi) = pack;
        let r = (lo as u128) | ((hi as u128) << 64u128);
        assert(r as int == lo as int + hi as int * 0x1_0000_0000_0000_0000) by (bit_vector)
            requires
                r == (lo as u128) | ((hi as u128) << 64u128),
        ;
        PauliCode { pack: r }
    }

    /// The identity on every qubit.
    pub fn identity() -> (r: PauliCode)
        ensures
            r.register() == 0,
            forall|i: int| 0 <= i < 64 ==> #[trigger] r@[i] == Pauli::I,
    {
        proof {
            assert forall|i: int| 0 <= i < 64 implies pauli_of_bits(digit(0, i)) == Pauli::I by {
                lemma_digit_zero((2 * i) as u128);
            }
        }
        PauliCode { pack: 0 }
    }

    /// The packed register.
    pub fn index(&self) -> (r: u128)
        ensures
            r == self.register(),
    {
        self.pack
    }

    /// The operator at qubit `index`, or `None` beyond the register.
    pub fn pauli(&self, index: u16) -> (r: Option<Pauli>)
        ensures
            r == if index < WIDTH {
                Some(self@[index as int])
            } else {
                None
            },
    {
        if index < WIDTH {
            Some(self.pauli_unchecked(index))
        } else {
            None
        }
    }

    /// The operator at qubit `index`, without the bounds check; the caller
    /// guarantees that `index` lies within the register.
    pub fn pauli_unchecked(&self, index: u16) -> (r: Pauli)
        requires
            index < WIDTH,
        ensures
            r == self@[index as int],
    {
        let shift = 2 * (index as u128);
        let bits = (self.pack >> shift) & 3;
        proof {
            lemma_digit_bound(self.pack, shift);
        }
        if bits == 0 {
            Pauli::I
        } else if bits == 1 {
            Pauli::X
        } else if bits == 2 {
            Pauli::Y
        } else {
            Pauli::Z
        }
    }

    /// Writes `pauli` at qubit `index`, which the caller keeps within the
    /// register.
    pub fn set_unchecked(&mut self, index: u16, pauli: Pauli)
        requires
            index < WIDTH,
        ensures
            final(self).register() == with_pauli(old(self).register(), index as int, pauli),
            final(self)@ == old(self)@.update(index as int, pauli),
    {
        let shift = 2 * (index as u128);
        let bits: u128 = match pauli {
            Pauli::I => 0,
            Pauli::X => 1,
            Pauli::Y => 2,
            Pauli::Z => 3,
        };
        let ghost before = *self;
        self.pack = (self.pack & !(3u128 << shift)) | (bits << shift);
        proof {
            assert forall|j: int| 0 <= j < 64 implies #[trigger] self@[j] == before@.update(
                index as int,
                pauli,
            )[j] by {
                lemma_with_pauli(before.pack, index as int, pauli, j);
            }
            assert(self@ =~= before@.update(index as int, pauli));
        }
    }

    /// Replaces the operator at qubit `index` by what `update` makes of it,
    /// and returns `true`; returns `false`, leaving the code as it was, when
    /// `index` lies beyond the register.
    pub fn pauli_mut<F: FnOnce(Pauli) -> Pauli>(&mut self, index: u16, update: F) -> (r: bool)
        requires
            index < WIDTH ==> update.requires((old(self)@[index as int],)),
        ensures
            r == (index < WIDTH),
            index < WIDTH ==> exists|p: Pauli|
                update.ensures((old(self)@[index as int],), p) && #[trigger] final(self)@
                    == old(self)@.update(index as int, p),
            index >= WIDTH ==> *final(self) == *old(self),
    {
        if index < WIDTH {
            let p = update(self.pauli_unchecked(index));
            self.set_unchecked(index, p);
            true
        } else {
            false
        }
    }

    /// Writes `pauli` at qubit `index`; fails, leaving the code as it was,
    /// when `index` lies beyond the register.
    pub fn set(&mut self, index: u16, pauli: Pauli) -> (r: Result<(), Error>)
        ensures
            index < WIDTH ==> r is Ok && final(self).register() == with_pauli(
                old(self).register(),
                index as int,
                pauli,
            ) && final(self)@ == old(self)@.update(index as int, pauli),
            index >= WIDTH ==> r == Err::<(), Error>(Error::PauliIndex { index: index as u32 })
                && *final(self) == *old(self),
    {
        if index < WIDTH {
            self.set_unchecked(index, pauli);
            Ok(())
        } else {
            Err(Error::PauliIndex { index: index as u32 })
        }
    }
}

/// The operators of a code built from `ops`: `ops` cut or padded with `I`
/// to 64 qubits.
pub open spec fn padded(ops: Seq<Pauli>) -> Seq<Pauli> {
    Seq::new(
        64,
        |i: int|
            if i < ops.len() {
                ops[i]
            } else {
                Pauli::I
            },
    )
}

/// One past the last of the qubits `0..n` that does not hold `I`, or zero
/// where they all do.
pub open spec fn register_size(s: Seq<Pauli>, n: int) -> int
    decreases n,
{
    if n <= 0 {
        0
    } else if s[n - 1] != Pauli::I {
        n
    } else {
        register_size(s, n - 1)
    }
}

/// Number of qubits among `s[0..n]` that hold an operator other than `I`.
pub open spec fn count_nontrivial(s: Seq<Pauli>, n: int) -> nat
    decreases n,
{
    if n <= 0 {
        0
    } else {
        count_nontrivial(s, n - 1) + if s[n - 1] != Pauli::I {
            1nat
        } else {
            0nat
        }
    }
}

proof fn lemma_count_nontrivial_bound(s: Seq<Pauli>, n: int)
    ensures
        count_nontrivial(s, n) <= if n < 0 {
            0
        } else {
            n
        },
    decreases n,
{
    if n > 0 {
        lemma_count_nontrivial_bound(s, n - 1);
    }
}

impl PauliCode {
    /// Builds a code from a sequence of operators: qubit `i` takes `ops[i]`;
    /// operators beyond the register are ignored, and qubits beyond the
    /// sequence hold `I`.
    pub fn with_ops(ops: &[Pauli]) -> (r: PauliCode)
        ensures
            r@ == padded(ops@),
    {
        let mut code = PauliCode::identity();
        let n: usize = if ops.len() < 64 {
            ops.len()
        } else {
            64
        };
        let mut i: usize = 0;
        while i < n
            invariant
                n <= 64,
                n <= ops@.len(),
                n == ops@.len() || n == 64,
                0 <= i <= n,
                forall|j: int| 0 <= j < i ==> #[trigger] code@[j] == ops@[j],
                forall|j: int| i <= j < 64 ==> #[trigger] code@[j] == Pauli::I,
            decreases n - i,
        {
            code.set_unchecked(i as u16, ops[i]);
            i += 1;
        }
        assert(code@ =~= padded(ops@));
        code
    }

    /// The operators at qubits `0..64`, trailing identities included.
    pub fn to_vec(&self) -> (r: Vec<Pauli>)
        ensures
            r@ == self@,
    {
        let mut v: Vec<Pauli> = Vec::new();
        let mut i: u16 = 0;
        while i < WIDTH
            invariant
                i <= 64,
                v@ == self@.subrange(0, i as int),
            decreases 64 - i,
        {
            v.push(self.pauli_unchecked(i));
            i += 1;
            assert(v@ =~= self@.subrange(0, i as int));
        }
        assert(v@ =~= self@);
        v
    }

    /// Number of qubits on which the code acts other than as the identity.
    pub fn num_nontrivial(&self) -> (r: u16)
        ensures
            r == count_nontrivial(self@, 64),
    {
        let mut count: u16 = 0;
        let mut i: u16 = 0;
        while i < WIDTH
            invariant
                i <= 64,
                count == count_nontrivial(self@, i as int),
            decreases 64 - i,
        {
            proof {
                lemma_count_nontrivial_bound(self@, i as int);
            }
            if self.pauli_unchecked(i) != Pauli::I {
                count += 1;
            }
            i += 1;
        }
        count
    }

    /// The least `n` such that every qubit from `n` on holds `I`.
    pub open spec fn min_register_size_spec(self) -> int {
        register_size(self@, 64)
    }

    /// The least number of qubits that hold every operator other than `I`:
    /// one past the last such qubit, or zero for the identity.
    pub fn min_register_size(&self) -> (r: u16)
        ensures
            r <= 64,
            forall|i: int| r <= i < 64 ==> #[trigger] self@[i] == Pauli::I,
            r > 0 ==> self@[r - 1] != Pauli::I,
            r == self.min_register_size_spec(),
    {
        let mut n: u16 = WIDTH;
        while n > 0 && self.pauli_unchecked(n - 1) == Pauli::I
            invariant
                n <= 64,
                forall|i: int| n <= i < 64 ==> #[trigger] self@[i] == Pauli::I,
                register_size(self@, n as int) == register_size(self@, 64),
            decreases n,
        {
            n -= 1;
        }
        n
    }
}

impl Code for PauliCode {
    fn same(&self, other: &Self) -> (r: bool) {
        self.pack == other.pack
    }
}

impl Default for PauliCode {
    /// The identity on every qubit.
    fn default() -> (r: PauliCode)
        ensures
            r.register() == 0,
            forall|i: int| 0 <= i < 64 ==> #[trigger] r@[i] == Pauli::I,
    {
        PauliCode::identity()
    }
}

impl From<Pauli> for u8 {
    fn from(value: Pauli) -> (r: u8) {
        match value {
            Pauli::I => 0,
            Pauli::X => 1,
            Pauli::Y => 2,
            Pauli::Z => 3,
        }
    }
}

impl vstd::std_specs::convert::FromSpecImpl<Pauli> for u8 {
    open spec fn obeys_from_spec() -> bool {
        true
    }

    open spec fn from_spec(v: Pauli) -> u8 {
        bits_of(v) as u8
    }
}

impl From<u128> for PauliCode {
    fn from(value: u128) -> (r: PauliCode) {
        PauliCode { pack: value }
    }
}

impl vstd::std_specs::convert::FromSpecImpl<u128> for PauliCode {
    open spec fn obeys_from_spec() -> bool {
        true
    }

    open spec fn from_spec(v: u128) -> PauliCode {
        PauliCode::from_register(v)
    }
}

/// Building a code from a sequence of at most 64 operators and reading it
/// back gives the sequence, followed by identities.
pub proof fn lemma_round_trip(ops: Seq<Pauli>)
    requires
        ops.len() <= 64,
    ensures
        padded(ops).subrange(0, ops.len() as int) == ops,
        forall|i: int| ops.len() <= i < 64 ==> #[trigger] padded(ops)[i] == Pauli::I,
{
    assert(padded(ops).subrange(0, ops.len() as int) =~= ops);
}

/// The letter of an operator.
pub open spec fn char_of(p: Pauli) -> char {
    match p {
        Pauli::I => 'I',
        Pauli::X => 'X',
        Pauli::Y => 'Y',
        Pauli::Z => 'Z',
    }
}

/// The operator of a letter, where it is one of `I`, `X`, `Y`, `Z`.
pub open spec fn pauli_of_char(c: char) -> Option<Pauli> {
    if c == 'I' {
        Some(Pauli::I)
    } else if c == 'X' {
        Some(Pauli::X)
    } else if c == 'Y' {
        Some(Pauli::Y)
    } else if c == 'Z' {
        Some(Pauli::Z)
    } else {
        None
    }
}

/// The text of a code: one letter per qubit up to the last one that does
/// not hold `I`, and at least one letter.
pub open spec fn text_of(ops: Seq<Pauli>, size: int) -> Seq<char> {
    let n = if size == 0 {
        1
    } else {
        size
    };
    ops.take(n).map_values(|p: Pauli| char_of(p))
}

/// Text that names a code: 1 to 64 letters, each one of `I`, `X`, `Y`, `Z`.
pub open spec fn is_code_text(t: Seq<char>) -> bool {
    &&& 1 <= t.len() <= 64
    &&& forall|i: int| 0 <= i < t.len() ==> (#[trigger] pauli_of_char(t[i])) is Some
}

impl Pauli {
    /// The letter of the operator.
    pub fn to_char(self) -> (r: char)
        ensures
            r == char_of(self),
    {
        match self {
            Pauli::I => 'I',
            Pauli::X => 'X',
            Pauli::Y => 'Y',
            Pauli::Z => 'Z',
        }
    }

    /// The operator of a letter `I`, `X`, `Y` or `Z`; `None` for any other
    /// character.
    pub fn from_char(c: char) -> (r: Option<Pauli>)
        ensures
            r == pauli_of_char(c),
    {
        if c == 'I' {
            Some(Pauli::I)
        } else if c == 'X' {
            Some(Pauli::X)
        } else if c == 'Y' {
            Some(Pauli::Y)
        } else if c == 'Z' {
            Some(Pauli::Z)
        } else {
            None
        }
    }
}

/// Relies on `String::from_iter` over characters: the string of those
/// characters, in order.
#[verifier::external_body]
fn string_of(chars: &Vec<char>) -> (r: String)
    ensures
        r@ == chars@,
{
    String::from_iter(chars.iter())
}

impl PauliCode {
    /// The letters of the code, trailing identities left out but for the
    /// first qubit: `"I"` for the identity.
    pub fn to_chars(&self) -> (r: Vec<char>)
        ensures
            r@ == text_of(self@, self.min_register_size_spec()),
    {
        let size = self.min_register_size();
        let n: u16 = if size == 0 {
            1
        } else {
            size
        };
        let mut out: Vec<char> = Vec::new();
        let mut i: u16 = 0;
        while i < n
            invariant
                n <= 64,
                i <= n,
                out@ == self@.take(i as int).map_values(|p: Pauli| char_of(p)),
            decreases n - i,
        {
            out.push(self.pauli_unchecked(i).to_char());
            i += 1;
            assert(out@ =~= self@.take(i as int).map_values(|p: Pauli| char_of(p)));
        }
        out
    }

    /// The text of the code, trailing identities left out but for the first
    /// qubit: `"I"` for the identity.
    pub fn to_text(&self) -> (r: String)
        ensures
            r@ == text_of(self@, self.min_register_size_spec()),
    {
        string_of(&self.to_chars())
    }

    /// The code that a text of 1 to 64 letters `I`, `X`, `Y`, `Z` names,
    /// qubit `i` taking letter `i`; `None` for any other text.
    pub fn parse(text: &str) -> (r: Option<PauliCode>)
        ensures
            r is Some <==> is_code_text(text@),
            r is Some ==> r->0@ == padded(text@.map_values(|c: char| pauli_of_char(c)->0)),
    {
        let len = text.unicode_len();
        if len == 0 || len > 64 {
            return None;
        }
        let ghost ops = text@.map_values(|c: char| pauli_of_char(c)->0);
        let mut code = PauliCode::identity();
        let mut i: usize = 0;
        while i < len
            invariant
                len == text@.len(),
                ops == text@.map_values(|c: char| pauli_of_char(c)->0),
                1 <= len <= 64,
                0 <= i <= len,
                forall|j: int| 0 <= j < i ==> (#[trigger] pauli_of_char(text@[j])) is Some,
                forall|j: int| 0 <= j < i ==> #[trigger] code@[j] == ops[j],
                forall|j: int| i <= j < 64 ==> #[trigger] code@[j] == Pauli::I,
            decreases len - i,
        {
            match Pauli::from_char(text.get_char(i)) {
                Some(p) => {
                    code.set_unchecked(i as u16, p);
                },
                None => {
                    return None;
                },
            }
            i += 1;
        }
        assert(code@ =~= padded(ops));
        Some(code)
    }
}

} // verus!
