//! Numbers as the record model holds them: 64-bit IEEE-754 values, each
//! stood for by its bit pattern, so that ordering them is integer work.

use core::cmp::Ordering;
use vstd::prelude::*;
use vstd::std_specs::cmp::{PartialEqSpecImpl, PartialOrdSpecImpl};
use vstd::arithmetic::power2::{
    lemma2_to64,
    lemma2_to64_rest,
    lemma_pow2_adds,
    lemma_pow2_pos,
    lemma_pow2_strictly_increases,
    lemma_pow2_unfold,
    pow2,
};
use crate::text::{int_order, Order};

verus! {

/// The bit that holds the sign.
pub const SIGN_BIT: u64 = 0x8000_0000_0000_0000;

/// The magnitude of an infinity; every larger magnitude is not a number.
pub const INFINITY: u64 = 0x7FF0_0000_0000_0000;

/// The weight of the lowest bit of the exponent.
pub const HIDDEN_BIT: u64 = 0x0010_0000_0000_0000;

/// A 64-bit floating-point number, held by its bit pattern: one sign bit,
/// eleven bits of exponent, fifty-two of fraction.
#[derive(Clone, Copy, Debug)]
pub struct Number {
    pub bits: u64,
}

/// How often `n` can be halved before it falls below 2: the position of its
/// highest set bit.
pub open spec fn floor_log2(n: nat) -> nat
    decreases n,
{
    if n < 2 {
        0
    } else {
        1 + floor_log2(n / 2)
    }
}

impl Number {
    /// The bits but for the sign.
    pub open spec fn magnitude(self) -> int {
        if self.bits >= SIGN_BIT {
            self.bits - SIGN_BIT
        } else {
            self.bits as int
        }
    }

    /// Whether the sign bit is set.
    pub open spec fn negative(self) -> bool {
        self.bits >= SIGN_BIT
    }

    /// Whether this is no number: all exponent bits set and a fraction other
    /// than zero.
    pub open spec fn is_nan(self) -> bool {
        self.magnitude() > INFINITY
    }

    /// An integer that orders the values that are numbers as the numbers
    /// themselves are ordered: the magnitude, taken negative under a set sign
    /// bit. The two zeros share the key 0.
    pub open spec fn key(self) -> int {
        if self.negative() {
            -self.magnitude()
        } else {
            self.magnitude()
        }
    }

    /// How `self` stands to `other`: by their keys, and in no order where
    /// either is not a number.
    pub open spec fn order(self, other: Number) -> Option<Order> {
        if self.is_nan() || other.is_nan() {
            None
        } else if self.key() < other.key() {
            Some(Order::Less)
        } else if self.key() == other.key() {
            Some(Order::Equal)
        } else {
            Some(Order::Greater)
        }
    }

    /// The number that stands for the unsigned integer `n` below 2^53: sign
    /// clear, exponent 1023 plus the position of the highest set bit of `n`,
    /// and in the fraction the bits of `n` below that one, moved up against
    /// the top. Zero is all bits clear.
    pub open spec fn of_nat(n: nat) -> Number {
        let e = floor_log2(n);
        if n == 0 {
            Number { bits: 0 }
        } else {
            Number {
                bits: ((1023 + e) * pow2(52) + (n - pow2(e)) * pow2((52 - e) as nat)) as u64,
            }
        }
    }

    /// The number with the bit pattern `bits`.
    pub fn from_bits(bits: u64) -> (r: Number)
        ensures
            r.bits == bits,
    {
        Number { bits }
    }

    /// The bit pattern of this number.
    pub fn to_bits(&self) -> (r: u64)
        ensures
            r == self.bits,
    {
        self.bits
    }

    /// The number that stands for `n`.
    pub fn from_u32(n: u32) -> (r: Number)
        ensures
            r == Number::of_nat(n as nat),
    {
        if n == 0 {
            return Number { bits: 0 };
        }
        let mut rest: u64 = n as u64;
        let mut power: u64 = 1;
        let mut scale: u64 = HIDDEN_BIT;
        let mut exponent: u64 = 0;
        proof {
            lemma2_to64();
            lemma2_to64_rest();
        }
        while rest >= 2
            invariant
                0 < n,
                rest > 0,
                exponent <= 31,
                power == pow2(exponent as nat),
                scale == pow2((52 - exponent) as nat),
                power * rest <= n < power * (rest + 1),
                floor_log2(n as nat) == exponent + floor_log2(rest as nat),
            decreases rest,
        {
            proof {
                lemma2_to64();
                lemma_pow2_unfold((exponent + 1) as nat);
                lemma_pow2_unfold((52 - exponent) as nat);
                let half = rest as int / 2;
                assert(power * 2 * half <= power * rest && power * (rest + 1) <= power * 2 * (half
                    + 1) && power * 2 <= power * rest) by (nonlinear_arith)
                    requires
                        power > 0,
                        rest >= 2,
                        2 * half <= rest <= 2 * half + 1,
                ;
                if exponent + 1 > 32 {
                    lemma_pow2_strictly_increases(32, (exponent + 1) as nat);
                }
            }
            rest = rest / 2;
            power = power * 2;
            scale = scale / 2;
            exponent = exponent + 1;
        }
        proof {
            lemma2_to64_rest();
            lemma_pow2_adds(exponent as nat, (52 - exponent) as nat);
            assert(power * rest == power && power * (rest + 1) == 2 * power) by (nonlinear_arith)
                requires
                    rest == 1,
            ;
            assert((n - power) * scale < power * scale) by (nonlinear_arith)
                requires
                    0 <= n - power < power,
                    scale > 0,
            ;
        }
        Number { bits: (1023 + exponent) * HIDDEN_BIT + (n as u64 - power) * scale }
    }

    /// How `self` stands to `other` (see [`Number::order`]).
    pub fn partial_order(&self, other: &Number) -> (r: Option<Order>)
        ensures
            r == self.order(*other),
    {
        let a: u64 = if self.bits >= SIGN_BIT {
            self.bits - SIGN_BIT
        } else {
            self.bits
        };
        let b: u64 = if other.bits >= SIGN_BIT {
            other.bits - SIGN_BIT
        } else {
            other.bits
        };
        if a > INFINITY || b > INFINITY {
            return None;
        }
        let x: i128 = if self.bits >= SIGN_BIT {
            -(a as i128)
        } else {
            a as i128
        };
        let y: i128 = if other.bits >= SIGN_BIT {
            -(b as i128)
        } else {
            b as i128
        };
        if x < y {
            Some(Order::Less)
        } else if x == y {
            Some(Order::Equal)
        } else {
            Some(Order::Greater)
        }
    }
}

impl PartialEq for Number {
    /// Two numbers are equal when they stand in the order `Equal`: a value
    /// that is not a number equals nothing, and the two zeros are equal.
    fn eq(&self, other: &Number) -> (r: bool) {
        match self.partial_order(other) {
            Some(Order::Equal) => true,
            _ => false,
        }
    }
}

impl PartialEqSpecImpl for Number {
    open spec fn obeys_eq_spec() -> bool {
        true
    }

    open spec fn eq_spec(&self, other: &Number) -> bool {
        self.order(*other) == Some(Order::Equal)
    }
}

impl PartialOrd for Number {
    fn partial_cmp(&self, other: &Number) -> (r: Option<Ordering>) {
        match self.partial_order(other) {
            Some(Order::Less) => Some(Ordering::Less),
            Some(Order::Equal) => Some(Ordering::Equal),
            Some(Order::Greater) => Some(Ordering::Greater),
            None => None,
        }
    }
}

impl PartialOrdSpecImpl for Number {
    open spec fn obeys_partial_cmp_spec() -> bool {
        true
    }

    open spec fn partial_cmp_spec(&self, other: &Number) -> Option<Ordering> {
        match self.order(*other) {
            Some(Order::Less) => Some(Ordering::Less),
            Some(Order::Equal) => Some(Ordering::Equal),
            Some(Order::Greater) => Some(Ordering::Greater),
            None => None,
        }
    }
}

/// A number other than zero lies between the power of two at the position
/// of its highest set bit and the next one.
pub proof fn lemma_floor_log2_bounds(n: nat)
    requires
        n > 0,
    ensures
        pow2(floor_log2(n)) <= n < pow2(floor_log2(n) + 1),
    decreases n,
{
    lemma2_to64();
    if n >= 2 {
        lemma_floor_log2_bounds(n / 2);
        lemma_pow2_unfold(floor_log2(n));
        lemma_pow2_unfold(floor_log2(n) + 1);
    }
}

/// The position of the highest set bit does not fall as a number grows.
pub proof fn lemma_floor_log2_grows(a: nat, b: nat)
    requires
        0 < a <= b,
    ensures
        floor_log2(a) <= floor_log2(b),
{
    lemma_floor_log2_bounds(a);
    lemma_floor_log2_bounds(b);
    if floor_log2(a) > floor_log2(b) + 1 {
        lemma_pow2_strictly_increases(floor_log2(b) + 1, floor_log2(a));
    }
}

/// What stands for an unsigned integer of 32 bits is a number, not negative,
/// with the exponent 1023 plus the position of the highest set bit.
pub proof fn lemma_of_nat_bits(n: nat)
    requires
        0 < n <= u32::MAX,
    ensures
        floor_log2(n) <= 31,
        (1023 + floor_log2(n)) * HIDDEN_BIT <= Number::of_nat(n).bits < (1024 + floor_log2(n))
            * HIDDEN_BIT,
        Number::of_nat(n).bits == (1023 + floor_log2(n)) * HIDDEN_BIT + (n - pow2(floor_log2(n)))
            * pow2((52 - floor_log2(n)) as nat),
        !Number::of_nat(n).negative(),
        !Number::of_nat(n).is_nan(),
{
    let e = floor_log2(n);
    lemma2_to64();
    lemma2_to64_rest();
    lemma_floor_log2_bounds(n);
    if e > 32 {
        lemma_pow2_strictly_increases(32, e);
    }
    let scale = pow2((52 - e) as nat);
    lemma_pow2_pos((52 - e) as nat);
    lemma_pow2_adds(e, (52 - e) as nat);
    lemma_pow2_unfold(e + 1);
    assert(0 <= (n - pow2(e)) * scale < pow2(e) * scale) by (nonlinear_arith)
        requires
            0 <= n - pow2(e) < pow2(e),
            scale > 0,
    ;
}

/// Unsigned integers of 32 bits stand to each other as the numbers that
/// stand for them.
pub proof fn lemma_of_nat_keeps_order(a: nat, b: nat)
    requires
        a <= u32::MAX,
        b <= u32::MAX,
    ensures
        Number::of_nat(a).order(Number::of_nat(b)) == Some(int_order(a as int, b as int)),
{
    lemma2_to64_rest();
    if a > 0 {
        lemma_of_nat_bits(a);
    }
    if b > 0 {
        lemma_of_nat_bits(b);
    }
    if 0 < a < b {
        lemma_of_nat_between(a, b);
    } else if 0 < b < a {
        lemma_of_nat_between(b, a);
    }
}

/// Of two unsigned integers of 32 bits, the smaller has the smaller bits.
proof fn lemma_of_nat_between(a: nat, b: nat)
    requires
        0 < a < b <= u32::MAX,
    ensures
        Number::of_nat(a).bits < Number::of_nat(b).bits,
{
    lemma_of_nat_bits(a);
    lemma_of_nat_bits(b);
    lemma_floor_log2_grows(a, b);
    let e = floor_log2(a);
    if e == floor_log2(b) {
        let scale = pow2((52 - e) as nat);
        lemma_pow2_pos((52 - e) as nat);
        assert((a - pow2(e)) * scale < (b - pow2(e)) * scale) by (nonlinear_arith)
            requires
                a - pow2(e) < b - pow2(e),
                scale > 0,
        ;
    } else {
        assert((1024 + e) * HIDDEN_BIT <= (1023 + floor_log2(b)) * HIDDEN_BIT) by (nonlinear_arith)
            requires
                e + 1 <= floor_log2(b),
                HIDDEN_BIT > 0,
        ;
    }
}

} // verus!
