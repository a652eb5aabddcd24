//! Token amounts: unsigned integers of 256 bits.
//!
//! An amount is held as four 64-bit words, least significant first. Its view
//! is the natural number that the words spell. Addition, subtraction and
//! ordering are done by `primitive_types::U256`.

use primitive_types::U256;
use vstd::prelude::*;

verus! {

/// Two to the power of 64: the weight of one word.
pub open spec fn word_base() -> nat {
    0x1_0000_0000_0000_0000
}

/// The natural number spelled by four words, least significant first.
pub open spec fn words_value(w0: u64, w1: u64, w2: u64, w3: u64) -> nat {
    (w0 as nat) + word_base() * ((w1 as nat) + word_base() * ((w2 as nat) + word_base() * (
    w3 as nat)))
}

/// The largest amount: two to the power of 256, less one.
pub open spec fn max_amount() -> nat {
    words_value(u64::MAX, u64::MAX, u64::MAX, u64::MAX)
}

/// An unsigned 256-bit quantity of tokens.
#[derive(Clone, Copy, Debug, PartialEq, Eq, Structural)]
pub struct Amount {
    pub w0: u64,
    pub w1: u64,
    pub w2: u64,
    pub w3: u64,
}

impl View for Amount {
    type V = nat;

    open spec fn view(&self) -> nat {
        words_value(self.w0, self.w1, self.w2, self.w3)
    }
}

/// Every amount is at most `max_amount()`.
pub proof fn lemma_amount_bounded(a: Amount)
    ensures
        a@ <= max_amount(),
{
    lemma_words_monotone(a.w0, a.w1, a.w2, a.w3, u64::MAX, u64::MAX, u64::MAX, u64::MAX);
}

proof fn lemma_words_monotone(
    a0: u64, a1: u64, a2: u64, a3: u64,
    b0: u64, b1: u64, b2: u64, b3: u64,
)
    requires
        a0 <= b0,
        a1 <= b1,
        a2 <= b2,
        a3 <= b3,
    ensures
        words_value(a0, a1, a2, a3) <= words_value(b0, b1, b2, b3),
{
}

/// Amounts with the same value have the same words.
pub proof fn lemma_amount_injective(a: Amount, b: Amount)
    ensures
        (a@ == b@) <==> (a == b),
{
    if a@ == b@ {
        let base = word_base() as int;
        let ha = (a.w1 as int) + base * ((a.w2 as int) + base * (a.w3 as int));
        let hb = (b.w1 as int) + base * ((b.w2 as int) + base * (b.w3 as int));
        assert(a.w0 as int + base * ha == b.w0 as int + base * hb);
        lemma_split_unique(a.w0 as int, ha, b.w0 as int, hb);
        let ga = (a.w2 as int) + base * (a.w3 as int);
        let gb = (b.w2 as int) + base * (b.w3 as int);
        lemma_split_unique(a.w1 as int, ga, b.w1 as int, gb);
        lemma_split_unique(a.w2 as int, a.w3 as int, b.w2 as int, b.w3 as int);
    }
}

proof fn lemma_split_unique(lo1: int, hi1: int, lo2: int, hi2: int)
    requires
        0 <= lo1 < 0x1_0000_0000_0000_0000,
        0 <= lo2 < 0x1_0000_0000_0000_0000,
        lo1 + 0x1_0000_0000_0000_0000 * hi1 == lo2 + 0x1_0000_0000_0000_0000 * hi2,
    ensures
        lo1 == lo2,
        hi1 == hi2,
{
}

/// Calls `primitive_types::U256::checked_add` on the words of `a` and `b`.
///
/// Trusted, not proved: a `U256` made of four words, least significant
/// first, has the value that `words_value` gives them, and `checked_add`
/// returns the sum of the two values where 256 bits hold it, and nothing
/// where they do not.
#[verifier::external_body]
fn wide_checked_add(a: Amount, b: Amount) -> (r: Option<Amount>)
    ensures
        a@ + b@ <= max_amount() ==> r.is_some() && r.unwrap()@ == a@ + b@,
        a@ + b@ > max_amount() ==> r.is_none(),
{
    match U256([a.w0, a.w1, a.w2, a.w3]).checked_add(U256([b.w0, b.w1, b.w2, b.w3])) {
        Some(v) => Some(Amount { w0: v.0[0], w1: v.0[1], w2: v.0[2], w3: v.0[3] }),
        None => None,
    }
}

/// Applies the `-` of `primitive_types::U256` to the words of `a` and `b`.
///
/// Trusted, not proved: the operator returns the difference of the two
/// values. It panics where `b` is the larger, which the precondition rules
/// out.
#[verifier::external_body]
fn wide_sub(a: Amount, b: Amount) -> (r: Amount)
    requires
        b@ <= a@,
    ensures
        r@ == a@ - b@,
{
    let v = U256([a.w0, a.w1, a.w2, a.w3]) - U256([b.w0, b.w1, b.w2, b.w3]);
    Amount { w0: v.0[0], w1: v.0[1], w2: v.0[2], w3: v.0[3] }
}

/// Applies the `<` of `primitive_types::U256` to the words of `a` and `b`.
///
/// Trusted, not proved: the operator compares the words from the most
/// significant down, and so tells whether the value of `a` is the smaller.
#[verifier::external_body]
fn wide_less(a: Amount, b: Amount) -> (r: bool)
    ensures
        r == (a@ < b@),
{
    U256([a.w0, a.w1, a.w2, a.w3]) < U256([b.w0, b.w1, b.w2, b.w3])
}

impl Amount {
    /// The amount zero.
    pub fn zero() -> (a: Amount)
        ensures
            a@ == 0,
    {
        Amount { w0: 0, w1: 0, w2: 0, w3: 0 }
    }

    /// The largest amount.
    pub fn max() -> (a: Amount)
        ensures
            a@ == max_amount(),
    {
        Amount { w0: u64::MAX, w1: u64::MAX, w2: u64::MAX, w3: u64::MAX }
    }

    /// The amount made of four words, least significant first.
    pub fn from_words(words: [u64; 4]) -> (a: Amount)
        ensures
            a.w0 == words[0],
            a.w1 == words[1],
            a.w2 == words[2],
            a.w3 == words[3],
            a@ == words_value(words[0], words[1], words[2], words[3]),
    {
        Amount { w0: words[0], w1: words[1], w2: words[2], w3: words[3] }
    }

    /// The four words of the amount, least significant first.
    pub fn to_words(&self) -> (words: [u64; 4])
        ensures
            words[0] == self.w0,
            words[1] == self.w1,
            words[2] == self.w2,
            words[3] == self.w3,
            words_value(words[0], words[1], words[2], words[3]) == self@,
    {
        [self.w0, self.w1, self.w2, self.w3]
    }

    /// The amount whose value is `n`.
    pub fn from_u64(n: u64) -> (a: Amount)
        ensures
            a@ == n,
    {
        Amount { w0: n, w1: 0, w2: 0, w3: 0 }
    }

    /// The amount whose value is `n`.
    pub fn from_u128(n: u128) -> (a: Amount)
        ensures
            a@ == n,
    {
        let low: u64 = (n & 0xffff_ffff_ffff_ffff) as u64;
        let high: u64 = (n >> 64) as u64;
        assert(n == (n & 0xffff_ffff_ffff_ffff) + 0x1_0000_0000_0000_0000 * (n >> 64))
            by (bit_vector);
        assert(n & 0xffff_ffff_ffff_ffff <= 0xffff_ffff_ffff_ffff) by (bit_vector);
        assert(n >> 64 <= 0xffff_ffff_ffff_ffff) by (bit_vector);
        Amount { w0: low, w1: high, w2: 0, w3: 0 }
    }

    /// Whether the amount is zero.
    pub fn is_zero(&self) -> (r: bool)
        ensures
            r == (self@ == 0),
    {
        self.w0 == 0 && self.w1 == 0 && self.w2 == 0 && self.w3 == 0
    }

    /// Whether `self` is less than `other`.
    pub fn less_than(&self, other: &Amount) -> (r: bool)
        ensures
            r == (self@ < other@),
    {
        wide_less(*self, *other)
    }

    /// The sum of `self` and `other`, where 256 bits can hold it.
    pub fn checked_add(&self, other: &Amount) -> (r: Option<Amount>)
        ensures
            match r {
                Some(sum) => sum@ == self@ + other@,
                None => self@ + other@ > max_amount(),
            },
    {
        wide_checked_add(*self, *other)
    }

    /// The difference of `self` and `other`, which must not be the larger.
    pub fn minus(&self, other: &Amount) -> (r: Amount)
        requires
            other@ <= self@,
        ensures
            r@ == self@ - other@,
    {
        wide_sub(*self, *other)
    }
}

} // verus!
