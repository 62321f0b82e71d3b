//! Sums of terms: each code mapped to its accumulated coefficient.

use vstd::prelude::*;

use crate::Code;

verus! {

/// The number type of the coefficients of a sum. The spec functions name
/// what the executable operations compute, so that contracts can speak of
/// them; each implementation supplies both.
pub trait Coeff: Copy + Sized {
    /// The additive identity.
    spec fn spec_zero() -> Self;

    /// The sum of two coefficients.
    spec fn spec_plus(self, other: Self) -> Self;

    /// The additive inverse.
    spec fn spec_negated(self) -> Self;

    /// Half of the coefficient.
    spec fn spec_halved(self) -> Self;

    fn zero() -> (r: Self)
        ensures
            r == Self::spec_zero(),
    ;

    fn plus(self, other: Self) -> (r: Self)
        ensures
            r == self.spec_plus(other),
    ;

    fn negated(self) -> (r: Self)
        ensures
            r == self.spec_negated(),
    ;

    fn halved(self) -> (r: Self)
        ensures
            r == self.spec_halved(),
    ;
}

/// Integer coefficients in wrapping arithmetic; halving is an arithmetic
/// shift, which rounds toward negative infinity, so that sums stay exact
/// where the coefficients are multiples of a fixed power of two.
impl Coeff for i64 {
    open spec fn spec_zero() -> i64 {
        0
    }

    open spec fn spec_plus(self, other: i64) -> i64 {
        self.wrapping_add(other)
    }

    open spec fn spec_negated(self) -> i64 {
        0i64.wrapping_sub(self)
    }

    open spec fn spec_halved(self) -> i64 {
        self.wrapping_shr(1)
    }

    fn zero() -> (r: i64) {
        0
    }

    fn plus(self, other: i64) -> (r: i64) {
        self.wrapping_add(other)
    }

    fn negated(self) -> (r: i64) {
        0i64.wrapping_sub(self)
    }

    fn halved(self) -> (r: i64) {
        self.wrapping_shr(1)
    }
}

/// No code occurs twice among the entries.
pub open spec fn codes_distinct<K, T>(s: Seq<(K, T)>) -> bool {
    forall|i: int, j: int| 0 <= i < j < s.len() ==> s[i].0 != s[j].0
}

/// Whether some entry holds `code`.
pub open spec fn has_code<K, T>(s: Seq<(K, T)>, code: K) -> bool {
    exists|i: int| 0 <= i < s.len() && s[i].0 == code
}

/// The position of the entry that holds `code`, where there is one.
pub open spec fn position<K, T>(s: Seq<(K, T)>, code: K) -> int {
    choose|i: int| 0 <= i < s.len() && s[i].0 == code
}

/// The coefficient of `code`: that of its entry, or zero where it has none.
pub open spec fn coeff_of<K, T: Coeff>(s: Seq<(K, T)>, code: K) -> T {
    if has_code(s, code) {
        s[position(s, code)].1
    } else {
        T::spec_zero()
    }
}

/// The entries after adding `delta` to the coefficient of `code`: the entry
/// of `code` keeps its place and takes `old + delta`; without one, a new
/// entry `(code, delta)` comes last.
pub open spec fn upsert<K, T: Coeff>(s: Seq<(K, T)>, code: K, delta: T) -> Seq<(K, T)> {
    if has_code(s, code) {
        s.update(position(s, code), (code, s[position(s, code)].1.spec_plus(delta)))
    } else {
        s.push((code, delta))
    }
}

/// The entries after adding each of `terms`, in order.
pub open spec fn upsert_all<K, T: Coeff>(s: Seq<(K, T)>, terms: Seq<(K, T)>) -> Seq<(K, T)>
    decreases terms.len(),
{
    if terms.len() == 0 {
        s
    } else {
        upsert(upsert_all(s, terms.drop_last()), terms.last().0, terms.last().1)
    }
}

/// Where the codes are distinct, the entry found for a code is the one that
/// holds it.
pub proof fn lemma_position<K, T>(s: Seq<(K, T)>, i: int)
    requires
        codes_distinct(s),
        0 <= i < s.len(),
    ensures
        has_code(s, s[i].0),
        position(s, s[i].0) == i,
{
    let p = position(s, s[i].0);
    assert(0 <= p < s.len() && s[p].0 == s[i].0);
}

/// Adding a term keeps the codes distinct.
pub proof fn lemma_upsert_distinct<K, T: Coeff>(s: Seq<(K, T)>, code: K, delta: T)
    requires
        codes_distinct(s),
    ensures
        codes_distinct(upsert(s, code, delta)),
{
}

/// A sum of terms: distinct codes, each with its coefficient, in the order
/// in which the codes were first added.
pub struct SumRepr<T, K> {
    terms: Vec<(K, T)>,
}

impl<T, K> View for SumRepr<T, K> {
    type V = Seq<(K, T)>;

    closed spec fn view(&self) -> Seq<(K, T)> {
        self.terms@
    }
}

impl<T: Coeff, K: Code> SumRepr<T, K> {
    /// The sum holds each code at most once.
    pub open spec fn wf(&self) -> bool {
        codes_distinct(self@)
    }

    /// An empty sum.
    pub fn new() -> (r: Self)
        ensures
            r@ == Seq::<(K, T)>::empty(),
            r.wf(),
    {
        SumRepr { terms: Vec::new() }
    }

    /// An empty sum with room for `capacity` codes.
    pub fn with_capacity(capacity: usize) -> (r: Self)
        ensures
            r@ == Seq::<(K, T)>::empty(),
            r.wf(),
    {
        SumRepr { terms: Vec::with_capacity(capacity) }
    }

    /// Number of distinct codes in the sum.
    pub fn len(&self) -> (r: usize)
        ensures
            r == self@.len(),
    {
        self.terms.len()
    }

    /// Whether the sum holds no code.
    pub fn is_empty(&self) -> (r: bool)
        ensures
            r == (self@.len() == 0),
    {
        self.terms.len() == 0
    }

    /// The entries, in the order in which their codes were first added.
    pub fn entries(&self) -> (r: &[(K, T)])
        ensures
            r@ == self@,
    {
        self.terms.as_slice()
    }

    /// Where the sum holds `code`, its position.
    fn find(&self, code: &K) -> (r: Option<usize>)
        requires
            self.wf(),
        ensures
            r is None <==> !has_code(self@, *code),
            r is Some ==> r->0 == position(self@, *code),
    {
        let mut i: usize = 0;
        while i < self.terms.len()
            invariant
                self.wf(),
                0 <= i <= self@.len(),
                forall|j: int| 0 <= j < i ==> self@[j].0 != *code,
            decreases self@.len() - i,
        {
            if self.terms[i].0.same(code) {
                proof {
                    lemma_position(self@, i as int);
                }
                return Some(i);
            }
            i += 1;
        }
        None
    }

    /// The coefficient of `code`, or zero where the sum does not hold it.
    pub fn coeff(&self, code: K) -> (r: T)
        requires
            self.wf(),
        ensures
            r == coeff_of(self@, code),
    {
        match self.find(&code) {
            Some(i) => self.terms[i].1,
            None => T::zero(),
        }
    }

    /// Adds `coeff` to the coefficient of `code`, inserting the code where
    /// the sum does not hold it yet.
    pub fn add_term(&mut self, code: K, coeff: T)
        requires
            old(self).wf(),
        ensures
            final(self)@ == upsert(old(self)@, code, coeff),
            final(self).wf(),
    {
        proof {
            lemma_upsert_distinct(self@, code, coeff);
        }
        match self.find(&code) {
            Some(i) => {
                let sum = self.terms[i].1.plus(coeff);
                self.terms.set(i, (code, sum));
            },
            None => {
                self.terms.push((code, coeff));
            },
        }
    }
}

/// Adding `a` and then `b` to a code leaves its coefficient at `a + b`
/// where the sum did not hold it, and at `old + a + b` where it did.
pub proof fn lemma_additivity<K, T: Coeff>(s: Seq<(K, T)>, code: K, a: T, b: T)
    requires
        codes_distinct(s),
    ensures
        !has_code(s, code) ==> coeff_of(upsert(upsert(s, code, a), code, b), code) == a.spec_plus(
            b,
        ),
        has_code(s, code) ==> coeff_of(upsert(upsert(s, code, a), code, b), code) == coeff_of(
            s,
            code,
        ).spec_plus(a).spec_plus(b),
{
    let s1 = upsert(s, code, a);
    let s2 = upsert(s1, code, b);
    lemma_upsert_distinct(s, code, a);
    lemma_upsert_distinct(s1, code, b);
    if has_code(s, code) {
        let p = position(s, code);
        assert(s1[p].0 == code);
        lemma_position(s1, p);
        lemma_position(s2, p);
    } else {
        let p = s.len() as int;
        assert(s1[p].0 == code);
        lemma_position(s1, p);
        lemma_position(s2, p);
    }
}

} // verus!
