//! Binary floating-point numbers, held as their encoding.
//!
//! Temperatures and intervals reach the library as IEEE 754 binary64 numbers.
//! The library orders them and turns them into whole numbers of a smaller unit,
//! exactly; it never rounds one to another.

use vstd::arithmetic::div_mod::{
    lemma_div_denominator, lemma_div_is_ordered, lemma_div_multiples_vanish, lemma_truncate_middle,
};
use vstd::arithmetic::mul::lemma_mul_is_commutative;
use vstd::arithmetic::power2::{
    lemma2_to64, lemma2_to64_rest, lemma_pow2_adds, lemma_pow2_pos, lemma_pow2_strictly_increases,
    lemma_pow2_unfold, pow2,
};
use vstd::prelude::*;

verus! {

/// Two to the power of 52: the first value above the fraction of an encoding.
const FRACTIONS: u64 = 0x10_0000_0000_0000;

/// Two to the power of 63: the weight of the sign of an encoding.
const SIGN: u64 = 0x8000_0000_0000_0000;

/// The largest number of micro-units that `Binary64::micros` gives.
pub const MAX_MICROS: i64 = 0x4000_0000_0000_0000;

/// A binary64 number, by its encoding: the sign, eleven bits of exponent and
/// 52 bits of fraction.
#[derive(Debug, Clone, Copy, PartialEq, Eq)]
pub struct Binary64 {
    pub bits: u64,
}

/// How the fraction of a number compares to one half.
#[derive(Debug, Clone, Copy)]
pub enum Half {
    Below,
    Equal,
    Above,
}

/// The number of units in one: a unit is the smallest positive number.
pub open spec fn one() -> nat {
    pow2(1074)
}

/// The whole number nearest to `n / d`, and the even one of two that are
/// equally near.
pub open spec fn nearest(n: nat, d: nat) -> nat {
    let whole = n / d;
    let rest = n % d;
    if 2 * rest < d || (2 * rest == d && whole % 2 == 0) {
        whole
    } else {
        whole + 1
    }
}

impl Binary64 {
    /// Whether the sign is set.
    pub open spec fn negative(self) -> bool {
        self.bits >= 0x8000_0000_0000_0000u64
    }

    /// The encoding without its sign.
    pub open spec fn unsigned_bits(self) -> int {
        self.bits as int % 0x8000_0000_0000_0000
    }

    /// The biased exponent.
    pub open spec fn exponent(self) -> int {
        self.unsigned_bits() / 0x10_0000_0000_0000
    }

    /// The fraction.
    pub open spec fn fraction(self) -> int {
        self.unsigned_bits() % 0x10_0000_0000_0000
    }

    /// Whether this is not a number.
    pub open spec fn is_nan(self) -> bool {
        self.exponent() == 2047 && self.fraction() != 0
    }

    /// Whether this is a number other than the infinities.
    pub open spec fn is_finite(self) -> bool {
        self.exponent() != 2047
    }

    /// The size of the number in units of the smallest positive number. An
    /// infinity is given a size above that of every finite number.
    pub open spec fn magnitude(self) -> nat {
        magnitude_of(self.unsigned_bits())
    }

    /// The number in units of the smallest positive number.
    pub open spec fn value(self) -> int {
        if self.negative() {
            -(self.magnitude() as int)
        } else {
            self.magnitude() as int
        }
    }

    /// Whether this number is less than `other`; nothing is less or greater
    /// than what is not a number.
    pub open spec fn less(self, other: Binary64) -> bool {
        !self.is_nan() && !other.is_nan() && self.value() < other.value()
    }

    /// Whether this number is at least `other`.
    pub open spec fn at_least(self, other: Binary64) -> bool {
        !self.is_nan() && !other.is_nan() && self.value() >= other.value()
    }

    /// The whole number of millionths in the number, toward zero and at most
    /// `MAX_MICROS` away from it.
    pub open spec fn whole_micros(self) -> int {
        let size = self.magnitude() * 1_000_000 / one();
        let capped = if size > MAX_MICROS {
            MAX_MICROS as int
        } else {
            size as int
        };
        if self.negative() {
            -capped
        } else {
            capped
        }
    }

    /// The number with the given encoding.
    pub fn from_bits(bits: u64) -> (r: Binary64)
        ensures
            r.bits == bits,
    {
        Binary64 { bits }
    }

    /// The encoding of the number.
    pub fn to_bits(self) -> (r: u64)
        ensures
            r == self.bits,
    {
        self.bits
    }

    /// A value that is not a number.
    pub fn nan() -> (r: Binary64)
        ensures
            r.is_nan(),
            !r.is_finite(),
            r.bits == 0x7ff8_0000_0000_0000u64,
    {
        Binary64 { bits: 0x7ff8_0000_0000_0000 }
    }

    /// Tests for what is not a number.
    pub fn nan_test(self) -> (r: bool)
        ensures
            r == self.is_nan(),
    {
        let unsigned: u64 = self.bits % SIGN;
        unsigned / FRACTIONS == 2047 && unsigned % FRACTIONS != 0
    }

    /// Tests for a finite number.
    pub fn finite_test(self) -> (r: bool)
        ensures
            r == self.is_finite(),
    {
        self.bits % SIGN / FRACTIONS != 2047
    }

    /// An integer that orders the numbers as they are ordered.
    fn order(self) -> (r: i64)
        ensures
            r == self.order_key(),
    {
        let unsigned: u64 = self.bits % SIGN;
        let size: i64 = unsigned as i64;
        if self.bits >= SIGN {
            -size
        } else {
            size
        }
    }

    /// The encoding without its sign, negated for a negative number.
    spec fn order_key(self) -> int {
        if self.negative() {
            -self.unsigned_bits()
        } else {
            self.unsigned_bits()
        }
    }

    /// Tests for an order strictly below `other`.
    pub fn lt(self, other: Binary64) -> (r: bool)
        ensures
            r == self.less(other),
    {
        proof {
            lemma_order(self, other);
            lemma_order(other, self);
        }
        !self.nan_test() && !other.nan_test() && self.order() < other.order()
    }

    /// Tests for an order at or above `other`.
    pub fn ge(self, other: Binary64) -> (r: bool)
        ensures
            r == self.at_least(other),
    {
        proof {
            lemma_order(self, other);
            lemma_order(other, self);
        }
        !self.nan_test() && !other.nan_test() && self.order() >= other.order()
    }
}

/// The size that an encoding without sign stands for.
pub open spec fn magnitude_of(unsigned_bits: int) -> nat {
    let exponent = unsigned_bits / 0x10_0000_0000_0000;
    let fraction = unsigned_bits % 0x10_0000_0000_0000;
    if exponent == 0 {
        fraction as nat
    } else {
        ((0x10_0000_0000_0000 + fraction) * pow2((exponent - 1) as nat)) as nat
    }
}

/// A larger encoding without sign stands for a larger size.
proof fn lemma_magnitude_increases(a: int, b: int)
    requires
        0 <= a < b,
    ensures
        magnitude_of(a) < magnitude_of(b),
{
    let ea = a / 0x10_0000_0000_0000;
    let eb = b / 0x10_0000_0000_0000;
    let fa = a % 0x10_0000_0000_0000;
    let fb = b % 0x10_0000_0000_0000;
    let base: int = 0x10_0000_0000_0000;
    assert(ea <= eb);
    if ea == eb {
        assert(fa < fb);
        if ea != 0 {
            let p = pow2((ea - 1) as nat) as int;
            lemma_pow2_pos((ea - 1) as nat);
            assert((base + fa) * p < (base + fb) * p) by (nonlinear_arith)
                requires
                    p > 0,
                    fa < fb,
            ;
        }
    } else {
        let q = pow2((eb - 1) as nat) as int;
        lemma_pow2_pos((eb - 1) as nat);
        assert((base + fb) * q >= base * q) by (nonlinear_arith)
            requires
                q > 0,
                fb >= 0,
        ;
        if ea == 0 {
            assert(base * q >= base) by (nonlinear_arith)
                requires
                    q >= 1,
                    base > 0,
            ;
        } else {
            let p = pow2((ea - 1) as nat) as int;
            lemma_pow2_pos((ea - 1) as nat);
            lemma_pow2_unfold(ea as nat);
            assert(pow2(ea as nat) == 2 * p);
            if ea < eb - 1 {
                lemma_pow2_strictly_increases(ea as nat, (eb - 1) as nat);
            }
            assert(2 * p <= q);
            assert((base + fa) * p < base * q) by (nonlinear_arith)
                requires
                    p > 0,
                    2 * p <= q,
                    fa < base,
                    base > 0,
            ;
        }
    }
}

/// The order key of a number orders it as its value does.
proof fn lemma_order(a: Binary64, b: Binary64)
    ensures
        a.value() < b.value() <==> a.order_key() < b.order_key(),
{
    let x = a.unsigned_bits();
    let y = b.unsigned_bits();
    if x < y {
        lemma_magnitude_increases(x, y);
    }
    if y < x {
        lemma_magnitude_increases(y, x);
    }
    if 0 < x {
        lemma_magnitude_increases(0, x);
    }
    if 0 < y {
        lemma_magnitude_increases(0, y);
    }
    assert(magnitude_of(0) == 0);
}

/// The number of millionths in a number rises with the number.
pub proof fn lemma_micros_ordered(a: Binary64, b: Binary64)
    requires
        a.value() <= b.value(),
    ensures
        a.whole_micros() <= b.whole_micros(),
{
    lemma_pow2_pos(1074);
    let x = a.magnitude() * 1_000_000;
    let y = b.magnitude() * 1_000_000;
    if a.magnitude() <= b.magnitude() {
        lemma_div_is_ordered(x as int, y as int, one() as int);
    } else {
        lemma_div_is_ordered(y as int, x as int, one() as int);
    }
    assert(0 <= x as int / one() as int) by {
        lemma_div_is_ordered(0, x as int, one() as int);
        assert(0int / (one() as int) == 0) by (nonlinear_arith)
            requires
                one() > 0,
        ;
    }
    assert(0 <= y as int / one() as int) by {
        lemma_div_is_ordered(0, y as int, one() as int);
        assert(0int / (one() as int) == 0) by (nonlinear_arith)
            requires
                one() > 0,
        ;
    }
}

/// Dividing out a common power of two.
proof fn lemma_common_power(p: nat, shift: nat, d: nat)
    requires
        d > 0,
    ensures
        pow2(shift) * d > 0,
        (p * pow2(shift)) / (pow2(shift) * d) == p / d,
        (p * pow2(shift)) % (pow2(shift) * d) == pow2(shift) * (p % d),
{
    let c = pow2(shift) as int;
    lemma_pow2_pos(shift);
    lemma_mul_is_commutative(p as int, c);
    lemma_truncate_middle(p as int, c, d as int);
    lemma_div_multiples_vanish(p as int, c);
    assert(c * p >= 0) by (nonlinear_arith)
        requires
            c > 0,
            p >= 0,
    ;
    lemma_div_denominator(c * p, c, d as int);
}

/// Two to a power of at most 100.
fn power_of_two(e: u32) -> (r: u128)
    requires
        e <= 100,
    ensures
        r == pow2(e as nat),
        1 <= r <= 0x10_0000_0000_0000_0000_0000_0000,
{
    proof {
        lemma2_to64();
        lemma_pow2_adds(32, 32);
        lemma_pow2_adds(64, 32);
        lemma_pow2_adds(96, 4);
        assert(pow2(100) == 0x10_0000_0000_0000_0000_0000_0000);
    }
    let mut p: u128 = 1;
    let mut i: u32 = 0;
    while i < e
        invariant
            i <= e <= 100,
            p == pow2(i as nat),
            pow2(100) == 0x10_0000_0000_0000_0000_0000_0000,
        decreases e - i,
    {
        proof {
            lemma_pow2_unfold((i + 1) as nat);
            lemma_pow2_strictly_increases(i as nat, 100);
        }
        p = 2 * p;
        i = i + 1;
    }
    proof {
        lemma_pow2_pos(e as nat);
        if e < 100 {
            lemma_pow2_strictly_increases(e as nat, 100);
        }
    }
    p
}

impl Binary64 {
    /// The product of the size of a number with a whole number: its whole part,
    /// and how the rest compares to one half.
    fn times(self, factor: u64) -> (r: (u128, Half))
        requires
            self.exponent() <= 1086,
            1 <= factor <= 1_000_000_000,
        ensures
            ({
                let product = self.magnitude() * factor as nat;
                let rest = product % one();
                &&& one() > 0
                &&& r.0 == product / one()
                &&& r.0 < 0x8000_0000_0000_0000_0000_0000_0000_0000
                &&& match r.1 {
                    Half::Below => 2 * rest < one(),
                    Half::Equal => 2 * rest == one(),
                    Half::Above => 2 * rest > one(),
                }
            }),
    {
        let unsigned: u64 = self.bits % SIGN;
        let exponent: u64 = unsigned / FRACTIONS;
        let fraction: u64 = unsigned % FRACTIONS;
        let significand: u64 = if exponent == 0 {
            fraction
        } else {
            FRACTIONS + fraction
        };
        let shift: u64 = if exponent == 0 {
            0
        } else {
            exponent - 1
        };
        assert(significand as u128 * factor as u128 <= 0x20_0000_0000_0000 * 1_000_000_000)
            by (nonlinear_arith)
            requires
                significand <= 0x20_0000_0000_0000,
                factor <= 1_000_000_000,
        ;
        let product: u128 = significand as u128 * factor as u128;
        let ghost total = self.magnitude() * factor as nat;
        proof {
            lemma_pow2_pos(1074);
            lemma2_to64();
            let p = pow2(shift as nat) as int;
            assert(self.magnitude() == significand as int * p) by (nonlinear_arith)
                requires
                    exponent == 0 ==> self.magnitude() == significand && p == 1,
                    exponent != 0 ==> self.magnitude() == significand as int * p,
            ;
            let f = factor as int;
            let s = significand as int;
            assert(s * p * f == (s * f) * p) by (nonlinear_arith);
            assert(total == product as nat * pow2(shift as nat));
        }
        if shift >= 1074 {
            let left: u32 = (shift - 1074) as u32;
            let weight: u128 = power_of_two(left);
            proof {
                lemma_pow2_adds(left as nat, 1074);
                if left < 11 {
                    lemma_pow2_strictly_increases(left as nat, 11);
                }
                assert(weight <= 2048);
                let a = product as int;
                let w = weight as int;
                let u = one() as int;
                assert(a * (w * u) == (a * w) * u) by (nonlinear_arith);
                assert(total == (a * w) * u);
                lemma_mul_is_commutative(a * w, u);
                lemma_div_multiples_vanish(a * w, u);
                vstd::arithmetic::div_mod::lemma_mod_multiples_basic(a * w, u);
                assert(0 <= a * w <= 0x20_0000_0000_0000 * 1_000_000_000 * 2048) by (nonlinear_arith)
                    requires
                        0 <= a <= 0x20_0000_0000_0000 * 1_000_000_000,
                        1 <= w <= 2048,
                ;
            }
            return (product * weight, Half::Below);
        }
        let right: u64 = 1074 - shift;
        proof {
            lemma_pow2_adds(shift as nat, right as nat);
            lemma_pow2_pos(right as nat);
            lemma_common_power(product as nat, shift as nat, pow2(right as nat));
            let c = pow2(shift as nat) as int;
            let x = product as int % pow2(right as nat) as int;
            let d = pow2(right as nat) as int;
            lemma_pow2_pos(shift as nat);
            assert(one() == c * d);
            assert(total % one() == c * x);
            assert((2 * (c * x) < c * d) == (2 * x < d)) by (nonlinear_arith)
                requires
                    c > 0,
            ;
            assert((2 * (c * x) == c * d) == (2 * x == d)) by (nonlinear_arith)
                requires
                    c > 0,
            ;
        }
        if right > 100 {
            proof {
                lemma_pow2_adds(32, 32);
                lemma_pow2_adds(64, 32);
                lemma_pow2_adds(96, 4);
                lemma_pow2_strictly_increases(100, right as nat);
                vstd::arithmetic::div_mod::lemma_basic_div(product as int, pow2(right as nat) as int);
                vstd::arithmetic::div_mod::lemma_small_mod(product as nat, pow2(right as nat));
            }
            return (0, Half::Below);
        }
        let divisor: u128 = power_of_two(right as u32);
        let whole: u128 = product / divisor;
        let rest: u128 = product % divisor;
        proof {
            lemma_div_is_ordered(0, product as int, divisor as int);
            vstd::arithmetic::div_mod::lemma_div_is_ordered_by_denominator(
                product as int,
                1,
                divisor as int,
            );
        }
        if 2 * rest < divisor {
            (whole, Half::Below)
        } else if 2 * rest == divisor {
            (whole, Half::Equal)
        } else {
            (whole, Half::Above)
        }
    }

    /// The whole number of millionths in a number, toward zero.
    pub fn micros(self) -> (r: i64)
        ensures
            r == self.whole_micros(),
            -MAX_MICROS <= r <= MAX_MICROS,
    {
        let exponent: u64 = self.bits % SIGN / FRACTIONS;
        let size: i64 = if exponent >= 1075 {
            proof {
                self.lemma_large();
            }
            MAX_MICROS
        } else {
            let (whole, _) = self.times(1_000_000);
            if whole > MAX_MICROS as u128 {
                MAX_MICROS
            } else {
                whole as i64
            }
        };
        if self.bits >= SIGN {
            -size
        } else {
            size
        }
    }

    /// A number from 2 to the power of 52 has more millionths than are counted.
    proof fn lemma_large(self)
        requires
            self.exponent() >= 1075,
        ensures
            self.magnitude() * 1_000_000 / one() > MAX_MICROS,
    {
        let e = self.exponent();
        let p = pow2((e - 1) as nat) as int;
        let u = one() as int;
        lemma_pow2_pos(1074);
        if e > 1075 {
            lemma_pow2_strictly_increases(1074, (e - 1) as nat);
        }
        let s = 0x10_0000_0000_0000 + self.fraction();
        assert(s * p * 1_000_000 >= 0x10_0000_0000_0000 * 1_000_000 * u) by (nonlinear_arith)
            requires
                s >= 0x10_0000_0000_0000,
                p >= u,
                u > 0,
        ;
        lemma_div_is_ordered(
            0x10_0000_0000_0000 * 1_000_000 * u,
            (self.magnitude() * 1_000_000) as int,
            u,
        );
        lemma_mul_is_commutative(0x10_0000_0000_0000int * 1_000_000int, u);
        lemma_div_multiples_vanish(0x10_0000_0000_0000int * 1_000_000int, u);
    }

    /// The number of seconds, in the nearest whole number of nanoseconds.
    pub open spec fn nanoseconds(self) -> nat {
        nearest(self.magnitude() * 1_000_000_000, one())
    }

    /// Whether the number is below 2 to the power of 64, the most seconds that a
    /// clock holds.
    pub open spec fn within_clock(self) -> bool {
        self.exponent() <= 1086
    }

    /// Tests whether the number is below 2 to the power of 64.
    pub fn clock_test(self) -> (r: bool)
        ensures
            r == self.within_clock(),
    {
        self.bits % SIGN / FRACTIONS <= 1086
    }

    /// A positive number of seconds in nanoseconds.
    pub fn nanos(self) -> (r: u128)
        requires
            self.within_clock(),
        ensures
            r == self.nanoseconds(),
    {
        let (whole, half) = self.times(1_000_000_000);
        match half {
            Half::Below => whole,
            Half::Equal => if whole % 2 == 0 {
                whole
            } else {
                whole + 1
            },
            Half::Above => whole + 1,
        }
    }
}

/// Finite numbers without a sign are ordered as their encodings are.
pub proof fn lemma_encodings_ordered(a: Binary64, b: Binary64)
    requires
        a.bits < b.bits < 0x7ff0_0000_0000_0000u64,
    ensures
        a.is_finite(),
        b.is_finite(),
        a.less(b),
{
    lemma_order(a, b);
}

impl Binary64 {
    /// Whether this is the number that an integer is; zero has no sign.
    pub open spec fn is_int(self, n: int) -> bool {
        self.is_finite() && self.value() == n * one() && (n == 0 ==> !self.negative())
    }

    /// The number that an integer is.
    pub open spec fn of_int(n: int) -> Binary64 {
        choose|r: Binary64| r.is_int(n)
    }

    /// The number that an integer is.
    pub fn from_int(n: i32) -> (r: Binary64)
        ensures
            r.is_int(n as int),
            r == Binary64::of_int(n as int),
    {
        let r = Binary64::encode_int(n);
        proof {
            lemma_pow2_pos(1074);
            lemma_one_encoding(r, Binary64::of_int(n as int), n as int);
        }
        r
    }

    fn encode_int(n: i32) -> (r: Binary64)
        ensures
            r.is_int(n as int),
    {
        if n == 0 {
            assert(0 * one() == 0);
            return Binary64 { bits: 0 };
        }
        let size: u64 = if n < 0 {
            (-(n as i64)) as u64
        } else {
            n as u64
        };
        let mut scaled: u64 = size;
        let mut exponent: u64 = 1075;
        proof {
            lemma2_to64();
            assert(size * 1 == size);
        }
        while scaled < FRACTIONS
            invariant
                1 <= size <= 0x8000_0000,
                size <= scaled < 2 * FRACTIONS,
                1023 <= exponent <= 1075,
                scaled == size * pow2((1075 - exponent) as nat),
            decreases exponent,
        {
            proof {
                lemma_scale_bound(size as nat, (1075 - exponent) as nat, scaled as nat);
                lemma_pow2_unfold((1075 - exponent + 1) as nat);
                let p = pow2((1075 - exponent) as nat);
                assert(size * (2 * p) == 2 * (size * p)) by (nonlinear_arith);
            }
            scaled = 2 * scaled;
            exponent = exponent - 1;
        }
        let unsigned: u64 = exponent * FRACTIONS + (scaled - FRACTIONS);
        proof {
            let low = (1075 - exponent) as nat;
            let high = (exponent - 1) as nat;
            lemma_pow2_adds(low, high);
            assert(size * pow2(low) * pow2(high) == size * (pow2(low) * pow2(high)))
                by (nonlinear_arith);
            assert(unsigned as int / 0x10_0000_0000_0000 == exponent);
            assert(unsigned as int % 0x10_0000_0000_0000 == scaled - FRACTIONS);
            assert(magnitude_of(unsigned as int) == size * one());
            assert((-(n as int)) * one() == -(n * one())) by (nonlinear_arith);
        }
        if n < 0 {
            let r = Binary64 { bits: SIGN + unsigned };
            assert(r.unsigned_bits() == unsigned);
            r
        } else {
            Binary64 { bits: unsigned }
        }
    }
}

/// An integer has one encoding.
proof fn lemma_one_encoding(a: Binary64, b: Binary64, n: int)
    requires
        a.is_int(n),
        b.is_int(n),
    ensures
        a == b,
{
    lemma_order(a, b);
    lemma_order(b, a);
    assert(a.order_key() == b.order_key());
    if n != 0 {
        let zero = Binary64 { bits: 0 };
        lemma_pow2_pos(1074);
        assert(n * one() != 0) by (nonlinear_arith)
            requires
                n != 0,
                one() > 0,
        ;
        lemma_order(a, zero);
        lemma_order(zero, a);
        assert(a.order_key() != 0);
    } else {
        assert(0 * one() == 0);
    }
    assert(a.bits == b.bits);
}

/// A number that was doubled and is still small was not doubled often.
proof fn lemma_scale_bound(size: nat, doublings: nat, scaled: nat)
    requires
        1 <= size,
        scaled == size * pow2(doublings),
        scaled < 0x10_0000_0000_0000,
    ensures
        doublings < 52,
{
    lemma2_to64_rest();
    if doublings >= 52 {
        if doublings > 52 {
            lemma_pow2_strictly_increases(52, doublings);
        }
        assert(size * pow2(doublings) >= pow2(doublings)) by (nonlinear_arith)
            requires
                size >= 1,
        ;
    }
}

impl Binary64 {
    /// The whole part of the size of the number, at most what 64 bits hold.
    pub open spec fn whole(self) -> nat {
        let size = self.magnitude() / one();
        if size > u64::MAX {
            u64::MAX as nat
        } else {
            size
        }
    }

    /// The whole part of the size of the number.
    pub fn trunc(self) -> (r: u64)
        ensures
            r == self.whole(),
    {
        let exponent: u64 = self.bits % SIGN / FRACTIONS;
        if exponent >= 1087 {
            proof {
                self.lemma_beyond();
            }
            u64::MAX
        } else {
            let (whole, _) = self.times(1);
            assert(self.magnitude() * 1 == self.magnitude());
            if whole > u64::MAX as u128 {
                u64::MAX
            } else {
                whole as u64
            }
        }
    }

    /// A number from 2 to the power of 64 does not fit 64 bits.
    proof fn lemma_beyond(self)
        requires
            self.exponent() >= 1087,
        ensures
            self.magnitude() / one() > u64::MAX,
    {
        let e = self.exponent();
        let p = pow2((e - 1) as nat) as int;
        let u = one() as int;
        lemma_pow2_pos(1074);
        lemma2_to64();
        lemma_pow2_adds(12, 1074);
        if e > 1087 {
            lemma_pow2_strictly_increases(1086, (e - 1) as nat);
        }
        let s = 0x10_0000_0000_0000 + self.fraction();
        assert(s * p >= 0x10_0000_0000_0000 * 4096 * u) by (nonlinear_arith)
            requires
                s >= 0x10_0000_0000_0000,
                p >= 4096 * u,
                u > 0,
        ;
        lemma_div_is_ordered(0x10_0000_0000_0000 * 4096 * u, self.magnitude() as int, u);
        lemma_mul_is_commutative(0x10_0000_0000_0000int * 4096int, u);
        lemma_div_multiples_vanish(0x10_0000_0000_0000int * 4096int, u);
    }
}

proof fn lemma_quotient(n: nat, d: nat)
    requires
        d > 0,
    ensures
        (n / d) * d <= n < (n / d + 1) * d,
        n == (n / d) * d + n % d,
        0 <= n % d < d,
{
    vstd::arithmetic::div_mod::lemma_fundamental_div_mod(n as int, d as int);
    vstd::arithmetic::div_mod::lemma_mod_bound(n as int, d as int);
    let q = (n / d) as int;
    assert(d as int * q == q * d as int) by (nonlinear_arith);
    assert((q + 1) * d as int == q * d as int + d as int) by (nonlinear_arith);
}

/// The number of millionths in a number is the number to within less than one
/// millionth, and never further from zero than it; the greatest number of
/// millionths stands for all numbers from there on.
pub proof fn micros_are_close(a: Binary64)
    ensures
        a.value() >= 0 ==> 0 <= a.whole_micros() * one() <= a.value() * 1_000_000,
        a.value() <= 0 ==> 0 >= a.whole_micros() * one() >= a.value() * 1_000_000,
        -MAX_MICROS <= a.whole_micros() <= MAX_MICROS,
        -MAX_MICROS < a.whole_micros() < MAX_MICROS ==> a.value() * 1_000_000 - one()
            < a.whole_micros() * one() < a.value() * 1_000_000 + one(),
{
    lemma_pow2_pos(1074);
    let n = (a.magnitude() * 1_000_000) as nat;
    lemma_quotient(n, one());
    let u = one() as int;
    let size = (n / one()) as int;
    let m = a.whole_micros();
    let capped = if size > MAX_MICROS {
        MAX_MICROS as int
    } else {
        size
    };
    assert(0 <= size) by {
        lemma_div_is_ordered(0, n as int, u);
        assert(0int / u == 0) by (nonlinear_arith)
            requires
                u > 0,
        ;
    }
    assert(0 <= capped * u <= size * u) by (nonlinear_arith)
        requires
            0 <= capped <= size,
            u > 0,
    ;
    assert((-capped) * u == -(capped * u)) by (nonlinear_arith);
    assert((size + 1) * u == size * u + u) by (nonlinear_arith);
    if a.negative() && a.value() == 0 {
        assert(size * u <= 0);
        assert(size == 0) by (nonlinear_arith)
            requires
                size * u <= 0,
                size >= 0,
                u > 0,
        ;
    }
}

/// The nanoseconds in a number of seconds are no further from it than half a
/// nanosecond.
pub proof fn nanoseconds_are_nearest(a: Binary64)
    ensures
        2 * a.nanoseconds() * one() <= 2 * (a.magnitude() * 1_000_000_000) + one(),
        2 * a.nanoseconds() * one() >= 2 * (a.magnitude() * 1_000_000_000) - one(),
{
    lemma_pow2_pos(1074);
    let n = (a.magnitude() * 1_000_000_000) as nat;
    lemma_quotient(n, one());
    let q = (n / one()) as int;
    let u = one() as int;
    assert((q + 1) * u == q * u + u) by (nonlinear_arith);
    assert(2 * q * u == 2 * (q * u)) by (nonlinear_arith);
    assert(2 * (q + 1) * u == 2 * ((q + 1) * u)) by (nonlinear_arith);
}

/// The whole part of a number is the greatest whole number that is not above its
/// size, as far as 64 bits hold it.
pub proof fn whole_part_is_below(a: Binary64)
    ensures
        a.whole() * one() <= a.magnitude(),
        a.whole() < u64::MAX ==> a.magnitude() < (a.whole() + 1) * one(),
        a.whole() <= u64::MAX,
{
    lemma_pow2_pos(1074);
    lemma_quotient(a.magnitude(), one());
    let q = (a.magnitude() / one()) as int;
    let u = one() as int;
    assert(a.whole() as int * u <= q * u) by (nonlinear_arith)
        requires
            a.whole() <= q,
            u > 0,
    ;
}

/// The sign turns a number into its opposite, and one more in the exponent
/// doubles it. The encoding of one is one.
pub proof fn encodings_follow_their_parts(a: Binary64, b: Binary64)
    ensures
        a.bits + 0x8000_0000_0000_0000 == b.bits ==> b.value() == -a.value(),
        0 < a.exponent() < 2046 && a.bits + 0x10_0000_0000_0000 == b.bits ==> b.value() == 2
            * a.value(),
        a.bits == 0x3ff0_0000_0000_0000 ==> a.value() == one(),
        a.bits == 0 ==> a.value() == 0,
{
    if 0 < a.exponent() < 2046 && a.bits + 0x10_0000_0000_0000 == b.bits {
        let e = a.exponent();
        assert(b.exponent() == e + 1);
        assert(b.fraction() == a.fraction());
        assert(b.negative() == a.negative());
        lemma_pow2_unfold(e as nat);
        let m = 0x10_0000_0000_0000 + a.fraction();
        let p = pow2((e - 1) as nat) as int;
        assert(m * (2 * p) == 2 * (m * p)) by (nonlinear_arith);
    }
    if a.bits == 0x3ff0_0000_0000_0000 {
        assert(a.exponent() == 1023);
        assert(a.fraction() == 0);
        lemma2_to64_rest();
        lemma_pow2_adds(52, 1022);
        assert(pow2(52) == 0x10_0000_0000_0000);
    }
}

/// Of two numbers each is less than the other or at least it, and what is not a
/// number is neither.
pub proof fn order_is_total(a: Binary64, b: Binary64)
    ensures
        !a.is_nan() && !b.is_nan() ==> a.less(b) != a.at_least(b),
        a.is_nan() || b.is_nan() ==> !a.less(b) && !a.at_least(b),
        a.less(b) ==> !b.less(a) && b.at_least(a),
        a.less(b) <==> !a.is_nan() && !b.is_nan() && a.value() < b.value(),
        a.is_nan() ==> !a.is_finite(),
{
}

/// A clock holds a number of seconds exactly where it is below 2 to the power of
/// 64.
pub proof fn clock_holds_what_is_below_its_limit(a: Binary64)
    ensures
        a.within_clock() <==> a.magnitude() < 0x1_0000_0000_0000_0000 * one(),
{
    let e = a.exponent();
    let u = one() as int;
    let f = a.fraction();
    lemma_pow2_pos(1074);
    lemma2_to64();
    if e >= 1087 {
        a.lemma_beyond();
        lemma_quotient(a.magnitude(), one());
        let q = (a.magnitude() / one()) as int;
        assert(q * u >= 0x1_0000_0000_0000_0000 * u) by (nonlinear_arith)
            requires
                q >= 0x1_0000_0000_0000_0000,
                u > 0,
        ;
    } else if e > 0 {
        let p = pow2((e - 1) as nat) as int;
        lemma_pow2_pos((e - 1) as nat);
        lemma_pow2_adds(11, 1074);
        if e < 1086 {
            lemma_pow2_strictly_increases((e - 1) as nat, 1085);
        }
        assert(p <= 2048 * u);
        assert((0x10_0000_0000_0000 + f) * p < 0x1_0000_0000_0000_0000 * u) by (nonlinear_arith)
            requires
                0 <= f < 0x10_0000_0000_0000,
                0 < p <= 2048 * u,
                u > 0,
        ;
    } else {
        assert(0x1_0000_0000_0000_0000 * u >= 0x1_0000_0000_0000_0000) by (nonlinear_arith)
            requires
                u >= 1,
        ;
    }
}

/// A number of a given exponent is its significand, in units that a power of two of
/// them make up one.
pub proof fn lemma_units(a: Binary64, shift: nat, significand: int, units: int)
    requires
        !a.negative(),
        shift <= 53,
        a.exponent() == 1075 - shift,
        significand == 0x10_0000_0000_0000 + a.fraction(),
        units == pow2(shift),
    ensures
        a.is_finite(),
        a.value() == significand * pow2((1074 - shift) as nat),
        one() == units * pow2((1074 - shift) as nat),
        pow2((1074 - shift) as nat) > 0,
{
    lemma_pow2_adds(shift, (1074 - shift) as nat);
    lemma_pow2_pos((1074 - shift) as nat);
}

} // verus!
