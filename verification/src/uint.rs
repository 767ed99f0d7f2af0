//! Fixed-width unsigned integers of the execution layer: 256-bit words, whose
//! arithmetic is taken modulo `2^256`, and 512-bit values wide enough for the
//! exact cost of a transaction.

use core::cmp::Ordering;
use vstd::prelude::*;

verus! {

/// `2^128`.
#[verifier::inline]
pub open spec fn two_128() -> nat {
    0x1_0000_0000_0000_0000_0000_0000_0000_0000nat
}

/// `2^256`.
#[verifier::inline]
pub open spec fn two_256() -> nat {
    0x1_0000_0000_0000_0000_0000_0000_0000_0000_0000_0000_0000_0000_0000_0000_0000_0000nat
}

/// `2^512`.
#[verifier::inline]
pub open spec fn two_512() -> nat {
    0x1_0000_0000_0000_0000_0000_0000_0000_0000_0000_0000_0000_0000_0000_0000_0000_0000_0000_0000_0000_0000_0000_0000_0000_0000_0000_0000_0000_0000_0000_0000_0000_0000nat
}

/// The sum of two words, modulo `2^256`.
#[verifier::opaque]
pub open spec fn word_add(a: nat, b: nat) -> nat {
    (a + b) % two_256()
}

/// The difference of two words, modulo `2^256`.
#[verifier::opaque]
pub open spec fn word_sub(a: nat, b: nat) -> nat {
    ((a - b) % (two_256() as int)) as nat
}

/// The product of two words, modulo `2^256`.
#[verifier::opaque]
pub open spec fn word_mul(a: nat, b: nat) -> nat {
    (a * b) % two_256()
}

/// The smaller of two numbers.
pub open spec fn lesser(a: nat, b: nat) -> nat {
    if a <= b {
        a
    } else {
        b
    }
}

/// A 256-bit unsigned word.
#[derive(Clone, Copy, Debug, PartialEq, Eq, Structural)]
pub struct U256 {
    /// The upper 128 bits.
    pub hi: u128,
    /// The lower 128 bits.
    pub lo: u128,
}

impl View for U256 {
    type V = nat;

    open spec fn view(&self) -> nat {
        self.hi as nat * two_128() + self.lo as nat
    }
}

impl PartialOrd for U256 {
    fn partial_cmp(&self, other: &Self) -> (order: Option<Ordering>) {
        if self.hi < other.hi || (self.hi == other.hi && self.lo < other.lo) {
            Some(Ordering::Less)
        } else if self.hi == other.hi && self.lo == other.lo {
            Some(Ordering::Equal)
        } else {
            Some(Ordering::Greater)
        }
    }
}

impl vstd::std_specs::cmp::PartialOrdSpecImpl for U256 {
    open spec fn obeys_partial_cmp_spec() -> bool {
        true
    }

    open spec fn partial_cmp_spec(&self, other: &Self) -> Option<Ordering> {
        if self@ < other@ {
            Some(Ordering::Less)
        } else if self@ == other@ {
            Some(Ordering::Equal)
        } else {
            Some(Ordering::Greater)
        }
    }
}

/// A sum of two words overflows at most once.
pub proof fn lemma_word_add(a: nat, b: nat)
    requires
        a < two_256(),
        b < two_256(),
    ensures
        a + b < two_256() ==> word_add(a, b) == a + b,
        a + b >= two_256() ==> word_add(a, b) == a + b - two_256(),
{
    reveal(word_add);
}

/// A difference of two words underflows at most once.
pub proof fn lemma_word_sub(a: nat, b: nat)
    requires
        a < two_256(),
        b < two_256(),
    ensures
        b <= a ==> word_sub(a, b) == a - b,
        a < b ==> word_sub(a, b) == a - b + two_256(),
{
    reveal(word_sub);
}

impl U256 {
    pub fn zero() -> (word: U256)
        ensures
            word@ == 0,
    {
        U256 { hi: 0, lo: 0 }
    }

    pub fn one() -> (word: U256)
        ensures
            word@ == 1,
    {
        U256 { hi: 0, lo: 1 }
    }

    pub fn from_u64(x: u64) -> (word: U256)
        ensures
            word@ == x,
    {
        U256 { hi: 0, lo: x as u128 }
    }

    pub fn from_usize(x: usize) -> (word: U256)
        ensures
            word@ == x,
    {
        U256 { hi: 0, lo: x as u128 }
    }

    pub fn from_u128(x: u128) -> (word: U256)
        ensures
            word@ == x,
    {
        U256 { hi: 0, lo: x }
    }

    /// The lowest 64 bits.
    pub fn low_u64(&self) -> (low: u64)
        ensures
            low == self@ % 0x1_0000_0000_0000_0000,
    {
        (self.lo % 0x1_0000_0000_0000_0000) as u64
    }

    /// The sum modulo `2^256`.
    pub fn wrapping_add(self, other: U256) -> (sum: U256)
        ensures
            sum@ == word_add(self@, other@),
    {
        let lo: u128 = self.lo.wrapping_add(other.lo);
        let carry: u128 = if lo < self.lo {
            1
        } else {
            0
        };
        let hi: u128 = self.hi.wrapping_add(other.hi).wrapping_add(carry);
        proof {
            lemma_word_add(self@, other@);
        }
        U256 { hi, lo }
    }

    /// The difference modulo `2^256`.
    pub fn wrapping_sub(self, other: U256) -> (difference: U256)
        ensures
            difference@ == word_sub(self@, other@),
    {
        let lo: u128 = self.lo.wrapping_sub(other.lo);
        let borrow: u128 = if self.lo < other.lo {
            1
        } else {
            0
        };
        let hi: u128 = self.hi.wrapping_sub(other.hi).wrapping_sub(borrow);
        proof {
            lemma_word_sub(self@, other@);
        }
        U256 { hi, lo }
    }

    /// Half of the word, rounded down.
    pub fn half(&self) -> (half: U256)
        ensures
            half@ == self@ / 2,
    {
        U256 {
            hi: self.hi / 2,
            lo: (self.hi % 2) * 0x8000_0000_0000_0000_0000_0000_0000_0000 + self.lo / 2,
        }
    }

    /// The word without its lowest byte, and that byte.
    pub fn split_byte(&self) -> (parts: (U256, u8))
        ensures
            parts.0@ == self@ / 256,
            parts.1 == self@ % 256,
    {
        let upper: U256 = U256 {
            hi: self.hi / 256,
            lo: (self.hi % 256) * 0x100_0000_0000_0000_0000_0000_0000_0000 + self.lo / 256,
        };
        (upper, (self.lo % 256) as u8)
    }
}

/// The product of two numbers of at most 128 bits fits into a word.
pub proof fn lemma_small_product(a: nat, b: nat)
    requires
        a < two_128(),
        b < two_128(),
    ensures
        a * b < two_256(),
        word_mul(a, b) == a * b,
{
    lemma_product_bound(a as int, b as int, two_128() as int);
    reveal(word_mul);
}

/// Four partial products, each split at `base`, add up to the whole product.
proof fn lemma_partial_products(a1: int, a0: int, b1: int, b0: int, base: int)
    ensures
        (a1 * base + a0) * (b1 * base + b0) == (a1 * b1) * (base * base) + (a1 * b0 + a0 * b1)
            * base + a0 * b0,
{
    let b = b1 * base + b0;
    assert((a1 * base + a0) * b == (a1 * base) * b + a0 * b) by (nonlinear_arith);
    assert((a1 * base) * b == (a1 * base) * (b1 * base) + (a1 * base) * b0) by (nonlinear_arith)
        requires
            b == b1 * base + b0,
    ;
    assert(a0 * b == a0 * (b1 * base) + a0 * b0) by (nonlinear_arith)
        requires
            b == b1 * base + b0,
    ;
    assert((a1 * base) * (b1 * base) == (a1 * b1) * (base * base)) by (nonlinear_arith);
    assert((a1 * base) * b0 == (a1 * b0) * base) by (nonlinear_arith);
    assert(a0 * (b1 * base) == (a0 * b1) * base) by (nonlinear_arith);
    assert((a1 * b0 + a0 * b1) * base == (a1 * b0) * base + (a0 * b1) * base) by (nonlinear_arith);
}

/// The product of two numbers below `bound` is at most the square of `bound - 1`.
proof fn lemma_product_bound(a: int, b: int, bound: int)
    requires
        0 <= a < bound,
        0 <= b < bound,
    ensures
        0 <= a * b <= (bound - 1) * (bound - 1),
{
    assert(0 <= a * b <= (bound - 1) * (bound - 1)) by (nonlinear_arith)
        requires
            0 <= a < bound,
            0 <= b < bound,
    ;
}

/// The exact product of two 128-bit numbers.
pub fn mul_u128(a: u128, b: u128) -> (product: U256)
    ensures
        product@ == a * b,
{
    let a1: u128 = a / 0x1_0000_0000_0000_0000;
    let a0: u128 = a % 0x1_0000_0000_0000_0000;
    let b1: u128 = b / 0x1_0000_0000_0000_0000;
    let b0: u128 = b % 0x1_0000_0000_0000_0000;
    proof {
        let base: int = 0x1_0000_0000_0000_0000;
        lemma_product_bound(a1 as int, b1 as int, base);
        lemma_product_bound(a1 as int, b0 as int, base);
        lemma_product_bound(a0 as int, b1 as int, base);
        lemma_product_bound(a0 as int, b0 as int, base);
        lemma_partial_products(a1 as int, a0 as int, b1 as int, b0 as int, base);
    }
    let p11: u128 = a1 * b1;
    let p10: u128 = a1 * b0;
    let p01: u128 = a0 * b1;
    let p00: u128 = a0 * b0;
    let middle: u128 = p00 / 0x1_0000_0000_0000_0000 + p01 % 0x1_0000_0000_0000_0000 + p10
        % 0x1_0000_0000_0000_0000;
    let lo: u128 = (middle % 0x1_0000_0000_0000_0000) * 0x1_0000_0000_0000_0000 + p00
        % 0x1_0000_0000_0000_0000;
    let hi: u128 = p11 + p01 / 0x1_0000_0000_0000_0000 + p10 / 0x1_0000_0000_0000_0000 + middle
        / 0x1_0000_0000_0000_0000;
    U256 { hi, lo }
}

/// A 512-bit unsigned number.
#[derive(Clone, Copy, Debug, PartialEq, Eq, Structural)]
pub struct U512 {
    /// The upper 256 bits.
    pub hi: U256,
    /// The lower 256 bits.
    pub lo: U256,
}

impl View for U512 {
    type V = nat;

    open spec fn view(&self) -> nat {
        self.hi@ * two_256() + self.lo@
    }
}

impl PartialOrd for U512 {
    fn partial_cmp(&self, other: &Self) -> (order: Option<Ordering>) {
        if self.hi < other.hi || (self.hi == other.hi && self.lo < other.lo) {
            Some(Ordering::Less)
        } else if self.hi == other.hi && self.lo == other.lo {
            Some(Ordering::Equal)
        } else {
            Some(Ordering::Greater)
        }
    }
}

impl vstd::std_specs::cmp::PartialOrdSpecImpl for U512 {
    open spec fn obeys_partial_cmp_spec() -> bool {
        true
    }

    open spec fn partial_cmp_spec(&self, other: &Self) -> Option<Ordering> {
        if self@ < other@ {
            Some(Ordering::Less)
        } else if self@ == other@ {
            Some(Ordering::Equal)
        } else {
            Some(Ordering::Greater)
        }
    }
}

impl U256 {
    /// The exact product of two words.
    #[verifier::spinoff_prover]
    #[verifier::rlimit(40)]
    pub fn full_mul(self, other: U256) -> (product: U512)
        ensures
            product@ == self@ * other@,
    {
        let p11: U256 = mul_u128(self.hi, other.hi);
        let p10: U256 = mul_u128(self.hi, other.lo);
        let p01: U256 = mul_u128(self.lo, other.hi);
        let p00: U256 = mul_u128(self.lo, other.lo);
        proof {
            let base: int = two_128() as int;
            lemma_product_bound(self.hi as int, other.hi as int, base);
            lemma_product_bound(self.hi as int, other.lo as int, base);
            lemma_product_bound(self.lo as int, other.hi as int, base);
            lemma_product_bound(self.lo as int, other.lo as int, base);
            lemma_partial_products(
                self.hi as int,
                self.lo as int,
                other.hi as int,
                other.lo as int,
                base,
            );
        }
        let middle: U256 = U256::from_u128(p00.hi).wrapping_add(
            U256::from_u128(p01.lo),
        ).wrapping_add(U256::from_u128(p10.lo));
        proof {
            lemma_word_add(p00.hi as nat, p01.lo as nat);
            lemma_word_add((p00.hi + p01.lo) as nat, p10.lo as nat);
            assert(middle@ == p00.hi + p01.lo + p10.lo);
        }
        let hi: U256 = p11.wrapping_add(U256::from_u128(p01.hi)).wrapping_add(
            U256::from_u128(p10.hi),
        ).wrapping_add(U256::from_u128(middle.hi));
        proof {
            let square: nat = 0xffff_ffff_ffff_ffff_ffff_ffff_ffff_fffe_0000_0000_0000_0000_0000_0000_0000_0001nat;
            assert(p11@ <= square && p10@ <= square && p01@ <= square && p00@ <= square);
            assert(p01.hi <= two_128() - 2 && p10.hi <= two_128() - 2 && middle.hi <= 2);
            lemma_word_add(p11@, p01.hi as nat);
            lemma_word_add(p11@ + p01.hi as nat, p10.hi as nat);
            lemma_word_add(p11@ + p01.hi as nat + p10.hi as nat, middle.hi as nat);
            assert(hi@ == p11@ + p01.hi + p10.hi + middle.hi);
        }
        U512 { hi, lo: U256 { hi: middle.lo, lo: p00.lo } }
    }

    /// The product modulo `2^256`.
    pub fn wrapping_mul(self, other: U256) -> (product: U256)
        ensures
            product@ == word_mul(self@, other@),
    {
        let product: U512 = self.full_mul(other);
        proof {
            reveal(word_mul);
        }
        product.lo
    }
}

/// The upper half of a sum is taken modulo `2^256` where the whole is taken modulo `2^512`.
proof fn lemma_carry(whole: nat, hi: nat, lo: nat)
    requires
        whole < 2 * two_256(),
        lo < two_256(),
        hi == if whole < two_256() {
            whole
        } else {
            (whole - two_256()) as nat
        },
    ensures
        hi * two_256() + lo == (whole * two_256() + lo) % two_512(),
{
    let sum: nat = whole * two_256() + lo;
    if whole < two_256() {
        assert(sum < two_512());
    } else {
        assert(two_512() <= sum < 2 * two_512());
        assert(hi * two_256() + lo == sum - two_512());
    }
}

impl U512 {
    pub fn from_u256(x: U256) -> (number: U512)
        ensures
            number@ == x@,
    {
        U512 { hi: U256::zero(), lo: x }
    }

    /// The sum modulo `2^512`.
    #[verifier::spinoff_prover]
    #[verifier::rlimit(40)]
    pub fn wrapping_add(self, other: U512) -> (sum: U512)
        ensures
            sum@ == (self@ + other@) % two_512(),
    {
        let lo: U256 = self.lo.wrapping_add(other.lo);
        let carry: U256 = if lo < self.lo {
            U256::one()
        } else {
            U256::zero()
        };
        let hi: U256 = self.hi.wrapping_add(other.hi).wrapping_add(carry);
        proof {
            lemma_word_add(self.lo@, other.lo@);
            assert(self.lo@ + other.lo@ == carry@ * two_256() + lo@);
            lemma_word_add(self.hi@, other.hi@);
            lemma_word_add(word_add(self.hi@, other.hi@), carry@);
            let whole: nat = self.hi@ + other.hi@ + carry@;
            assert(hi@ == if whole < two_256() {
                whole
            } else {
                (whole - two_256()) as nat
            });
            assert(self@ + other@ == whole * two_256() + lo@);
            lemma_carry(whole, hi@, lo@);
        }
        U512 { hi, lo }
    }

    /// The lowest 256 bits.
    pub fn low_u256(&self) -> (low: U256)
        ensures
            low@ == self@ % two_256(),
    {
        self.lo
    }
}

} // verus!
