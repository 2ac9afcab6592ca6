//! Numbers as they stand in event payloads.
//!
//! A number is an IEEE 754 double. It is held by its 64 bits, by which two
//! numbers are compared, together with its decimal rendering, which is what a
//! template shows. Whoever makes a number from a double supplies both.
use crate::text::{decimal, decimal_text};
use vstd::arithmetic::power2::{
    lemma2_to64, lemma2_to64_rest, lemma_pow2_adds, lemma_pow2_pos, lemma_pow2_strictly_increases,
    lemma_pow2_unfold, pow2,
};
use vstd::prelude::*;
use vstd::std_specs::cmp::PartialEqSpecImpl;

verus! {

/// The sign bit of a double.
pub const SIGN_BIT: u64 = 0x8000_0000_0000_0000;

/// The bits of positive infinity: every larger magnitude is a NaN.
pub const INFINITY_BITS: u64 = 0x7FF0_0000_0000_0000;

/// A number: the bits of a double and its decimal text.
#[derive(Debug)]
pub struct Number {
    bits: u64,
    text: String,
}

/// What a [`Number`] stands for.
pub struct NumberView {
    pub bits: u64,
    pub text: Seq<char>,
}

/// The bits without the sign.
pub open spec fn magnitude(bits: u64) -> int {
    if bits >= SIGN_BIT {
        bits - SIGN_BIT
    } else {
        bits as int
    }
}

/// Whether the bits are those of a NaN.
pub open spec fn is_nan(bits: u64) -> bool {
    magnitude(bits) > INFINITY_BITS
}

/// An integer that orders the doubles that are no NaN as their values do:
/// the magnitude, negated under a sign bit. Both zeros get 0.
pub open spec fn order_key(bits: u64) -> int {
    if bits >= SIGN_BIT {
        -magnitude(bits)
    } else {
        magnitude(bits)
    }
}

/// Equality of two doubles: no NaN equals anything, and the two zeros are
/// equal.
pub open spec fn number_equal(a: u64, b: u64) -> bool {
    !is_nan(a) && !is_nan(b) && order_key(a) == order_key(b)
}

/// Strict order of two doubles: a NaN is in no order with anything.
pub open spec fn number_less(a: u64, b: u64) -> bool {
    !is_nan(a) && !is_nan(b) && order_key(a) < order_key(b)
}

/// What `n` stands for.
pub closed spec fn number_view(n: Number) -> NumberView {
    NumberView { bits: n.bits, text: n.text@ }
}

impl View for Number {
    type V = NumberView;

    open spec fn view(&self) -> NumberView {
        number_view(*self)
    }
}

fn bits_are_nan(bits: u64) -> (b: bool)
    ensures
        b == is_nan(bits),
{
    if bits >= SIGN_BIT {
        bits - SIGN_BIT > INFINITY_BITS
    } else {
        bits > INFINITY_BITS
    }
}

impl Number {
    /// A number from the bits of a double and the double's decimal text.
    pub fn new(bits: u64, text: String) -> (n: Number)
        ensures
            n@ == (NumberView { bits, text: text@ }),
    {
        Number { bits, text }
    }

    /// The bits of the double.
    pub fn bits(&self) -> (b: u64)
        ensures
            b == self@.bits,
    {
        self.bits
    }

    /// The decimal text.
    pub fn text(&self) -> (s: &str)
        ensures
            s@ == self@.text,
    {
        self.text.as_str()
    }

    /// A copy of the number.
    pub fn duplicate(&self) -> (n: Number)
        ensures
            n@ == self@,
    {
        Number { bits: self.bits, text: self.text.clone() }
    }

    /// Whether the two numbers are equal as doubles.
    pub fn equals(&self, other: &Number) -> (b: bool)
        ensures
            b == number_equal(self@.bits, other@.bits),
    {
        if bits_are_nan(self.bits) || bits_are_nan(other.bits) {
            return false;
        }
        let a_neg = self.bits >= SIGN_BIT;
        let b_neg = other.bits >= SIGN_BIT;
        if a_neg == b_neg {
            self.bits == other.bits
        } else if a_neg {
            self.bits == SIGN_BIT && other.bits == 0
        } else {
            self.bits == 0 && other.bits == SIGN_BIT
        }
    }

    /// Whether this number is less than `other` as doubles are ordered.
    pub fn less_than(&self, other: &Number) -> (b: bool)
        ensures
            b == number_less(self@.bits, other@.bits),
    {
        if bits_are_nan(self.bits) || bits_are_nan(other.bits) {
            return false;
        }
        let a_neg = self.bits >= SIGN_BIT;
        let b_neg = other.bits >= SIGN_BIT;
        if a_neg && b_neg {
            self.bits > other.bits
        } else if !a_neg && !b_neg {
            self.bits < other.bits
        } else if a_neg {
            !(self.bits == SIGN_BIT && other.bits == 0)
        } else {
            false
        }
    }
}

/// The position of the highest bit set in `n`: the `k` with
/// `2^k <= n < 2^(k+1)`, and 0 for 0.
pub open spec fn floor_log2(n: nat) -> nat
    decreases n,
{
    if n < 2 {
        0
    } else {
        1 + floor_log2(n / 2)
    }
}

/// The double nearest to the integer `n`, as its bits and its value. An
/// integer below `2^53` is a double. A larger one lies between two doubles
/// that are `2^(k-52)` apart, `k` being the position of its highest bit: the
/// nearer one is taken, and of two equally near the one with the even
/// mantissa.
pub open spec fn nearest_double(n: nat) -> (nat, nat) {
    if n == 0 {
        (0, 0)
    } else {
        let k = floor_log2(n);
        if k <= 52 {
            ((k + 1022) * pow2(52) + n * pow2((52 - k) as nat), n)
        } else {
            let p = pow2((k - 52) as nat);
            let q = n / p;
            let r = n % p;
            let m = if 2 * r > p || (2 * r == p && q % 2 == 1) {
                q + 1
            } else {
                q
            };
            ((k + 1022) * pow2(52) + m, m * p)
        }
    }
}

/// What the number of the integer `n` stands for: the double nearest to
/// `n`, with the decimal digits of that double's value as its text.
pub open spec fn number_of(n: u64) -> NumberView {
    NumberView {
        bits: nearest_double(n as nat).0 as u64,
        text: decimal(nearest_double(n as nat).1),
    }
}

proof fn lemma_floor_log2(n: nat)
    requires
        n >= 1,
    ensures
        pow2(floor_log2(n)) <= n < pow2(floor_log2(n) + 1),
    decreases n,
{
    lemma2_to64();
    if n >= 2 {
        lemma_floor_log2(n / 2);
        lemma_pow2_unfold(floor_log2(n));
        lemma_pow2_unfold(floor_log2(n) + 1);
    }
}

fn log2_of(n: u64) -> (k: u64)
    requires
        n >= 1,
    ensures
        k == floor_log2(n as nat),
        k <= 63,
{
    let mut k: u64 = 0;
    let mut t: u64 = n;
    proof {
        lemma2_to64();
    }
    while t >= 2
        invariant
            t >= 1,
            k <= 63,
            floor_log2(n as nat) == k + floor_log2(t as nat),
            pow2(k as nat) * t <= n,
        decreases t,
    {
        proof {
            lemma2_to64();
            lemma_pow2_unfold((k + 1) as nat);
            let a = pow2(k as nat);
            assert(pow2((k + 1) as nat) * (t / 2) <= a * t) by (nonlinear_arith)
                requires
                    pow2((k + 1) as nat) == 2 * a,
                    t >= 2,
            ;
            assert(pow2((k + 1) as nat) <= pow2((k + 1) as nat) * (t / 2)) by (nonlinear_arith)
                requires
                    t / 2 >= 1,
            ;
            if k + 1 >= 64 {
                if k + 1 > 64 {
                    lemma_pow2_strictly_increases(64, (k + 1) as nat);
                }
            }
        }
        t = t / 2;
        k = k + 1;
    }
    k
}

fn power_of_two(e: u64) -> (p: u128)
    requires
        e <= 63,
    ensures
        p == pow2(e as nat),
        p < 0x1_0000_0000_0000_0000,
{
    let mut p: u128 = 1;
    let mut i: u64 = 0;
    proof {
        lemma2_to64();
    }
    while i < e
        invariant
            i <= e <= 63,
            p == pow2(i as nat),
            p < 0x1_0000_0000_0000_0000,
        decreases e - i,
    {
        proof {
            lemma_pow2_unfold((i + 1) as nat);
            lemma2_to64();
            if i + 1 < 64 {
                lemma_pow2_strictly_increases((i + 1) as nat, 64);
            }
        }
        p = p * 2;
        i = i + 1;
    }
    p
}

impl Number {
    /// The number of the integer `n`: the double nearest to it.
    pub fn from_u64(n: u64) -> (r: Number)
        ensures
            r@ == number_of(n),
    {
        if n == 0 {
            proof {
                reveal_strlit("0");
                assert(decimal(0) =~= "0"@);
            }
            return Number { bits: 0, text: String::from_str("0") };
        }
        let k = log2_of(n);
        let two52: u128 = 0x10_0000_0000_0000;
        proof {
            lemma2_to64();
            lemma2_to64_rest();
            lemma_floor_log2(n as nat);
        }
        if k <= 52 {
            let s = power_of_two(52 - k);
            proof {
                lemma_pow2_adds((k + 1) as nat, (52 - k) as nat);
                lemma_pow2_pos((52 - k) as nat);
                assert(n * s < pow2((k + 1) as nat) * s) by (nonlinear_arith)
                    requires
                        n < pow2((k + 1) as nat),
                        s > 0,
                ;
            }
            let m: u128 = (n as u128) * s;
            let bits: u128 = (k as u128 + 1022) * two52 + m;
            Number { bits: bits as u64, text: decimal_text(n as u128) }
        } else {
            let p = power_of_two(k - 52);
            proof {
                lemma_pow2_adds(53, (k - 52) as nat);
                lemma_pow2_pos((k - 52) as nat);
                if k - 52 < 12 {
                    lemma_pow2_strictly_increases((k - 52) as nat, 12);
                }
                assert((n as nat) / (p as nat) < pow2(53)) by (nonlinear_arith)
                    requires
                        (n as nat) < pow2(53) * (p as nat),
                        p > 0,
                ;
            }
            let q: u128 = (n as u128) / p;
            let r: u128 = (n as u128) % p;
            let m: u128 = if 2 * r > p || (2 * r == p && q % 2 == 1) {
                q + 1
            } else {
                q
            };
            let bits: u128 = (k as u128 + 1022) * two52 + m;
            assert(m * p <= 0x20_0000_0000_0000 * 0x1000) by (nonlinear_arith)
                requires
                    m <= 0x20_0000_0000_0000,
                    p <= 0x1000,
            ;
            Number { bits: bits as u64, text: decimal_text(m * p) }
        }
    }
}

impl PartialEq for Number {
    fn eq(&self, other: &Number) -> (b: bool) {
        self.equals(other)
    }
}

impl PartialEqSpecImpl for Number {
    open spec fn obeys_eq_spec() -> bool {
        true
    }

    open spec fn eq_spec(&self, other: &Number) -> bool {
        number_equal(self@.bits, other@.bits)
    }
}

} // verus!
