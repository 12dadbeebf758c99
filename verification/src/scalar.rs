//! Single-precision numbers as the renderer holds them.
//!
//! Every number that runs through a scene, a ray or a hit is an IEEE 754
//! binary32 value. This module keeps such a value as its 32-bit code and gives
//! the code a mathematical reading, so that the rules of the renderer
//! (which hit is nearer, whether a light reaches a point, which byte a colour
//! channel becomes) can be stated and proved over integers. Arithmetic on the
//! values is the host's business; comparing and converting them is done here.

use vstd::arithmetic::div_mod::*;
use vstd::arithmetic::power2::*;
use vstd::bits::*;
use vstd::prelude::*;

verus! {

/// Weight of the sign bit of a code; the low 31 bits below it are the magnitude.
pub const SIGN_BIT: u32 = 0x8000_0000;

/// Weight of the lowest exponent bit; the 23 bits below it are the fraction.
pub const HIDDEN_BIT: u32 = 0x0080_0000;

/// Magnitude of the code of infinity; every larger magnitude is a NaN.
pub const INFINITY_MAGNITUDE: u32 = 0x7F80_0000;

/// Code of the number one.
pub const ONE_BITS: u32 = 0x3F80_0000;

/// Number of binary places by which [`Scalar::scaled`] shifts a value, so that the
/// smallest subnormal becomes the integer one.
pub const SCALE_EXPONENT: u32 = 149;

/// The value, times two to the power [`SCALE_EXPONENT`], of the non-negative
/// code `m`.
///
/// Codes with a zero exponent field are subnormal and count their fraction
/// alone; all others add the hidden bit and double with each step of the
/// exponent. The code of infinity gets the value that the next exponent would
/// have, which is above every finite one.
pub open spec fn code_value(m: nat) -> nat {
    let exponent = m / (HIDDEN_BIT as nat);
    let fraction = m % (HIDDEN_BIT as nat);
    if exponent == 0 {
        fraction
    } else {
        (HIDDEN_BIT as nat + fraction) * pow2((exponent - 1) as nat)
    }
}

/// A larger code has a larger value: the encoding is monotone in the magnitude.
pub proof fn lemma_code_value_increasing(m1: nat, m2: nat)
    requires
        m1 < m2,
    ensures
        code_value(m1) < code_value(m2),
{
    let h = HIDDEN_BIT as nat;
    let e1 = m1 / h;
    let e2 = m2 / h;
    let f1 = m1 % h;
    let f2 = m2 % h;
    assert(m1 == h * e1 + f1 && m2 == h * e2 + f2 && e1 <= e2);
    if e1 == e2 {
        if e1 > 0 {
            let p = pow2((e1 - 1) as nat);
            lemma_pow2_pos((e1 - 1) as nat);
            assert((h + f1) * p < (h + f2) * p) by (nonlinear_arith)
                requires
                    f1 < f2,
                    p > 0,
            ;
        }
    } else {
        let upper = pow2((e2 - 1) as nat);
        lemma_pow2_pos((e2 - 1) as nat);
        assert((h + f2) * upper >= h) by (nonlinear_arith)
            requires
                upper >= 1,
        ;
        if e1 > 0 {
            let lower = pow2((e1 - 1) as nat);
            lemma_pow2_pos((e1 - 1) as nat);
            lemma_pow2_unfold(e1);
            if e1 < e2 - 1 {
                lemma_pow2_strictly_increases(e1, (e2 - 1) as nat);
            }
            assert(pow2(e1) <= upper);
            assert((h + f1) * lower < (h + f2) * upper) by (nonlinear_arith)
                requires
                    f1 < h,
                    2 * lower <= upper,
                    lower > 0,
            ;
        }
    }
}

/// A single-precision number, held as its IEEE 754 binary32 code.
#[derive(Clone, Copy, Debug)]
pub struct Scalar {
    pub bits: u32,
}

impl Scalar {
    /// The code without its sign bit.
    pub open spec fn magnitude(self) -> nat {
        (self.bits % SIGN_BIT) as nat
    }

    /// Whether the sign bit is set. It is set on negative zero too.
    pub open spec fn negative(self) -> bool {
        self.bits >= SIGN_BIT
    }

    /// Whether the code stands for no number at all.
    pub open spec fn nan(self) -> bool {
        self.magnitude() > INFINITY_MAGNITUDE
    }

    /// Whether the code is one of the two zeros.
    pub open spec fn is_zero(self) -> bool {
        self.magnitude() == 0
    }

    /// The number that the code stands for, times two to the power
    /// [`SCALE_EXPONENT`]: an integer for every finite value. Both zeros give 0.
    /// The infinities lie beyond every finite value; of a NaN nothing is to be
    /// read from it.
    pub open spec fn scaled(self) -> int {
        if self.negative() {
            -(code_value(self.magnitude()) as int)
        } else {
            code_value(self.magnitude()) as int
        }
    }

    /// The place of the code on the number line, read off the bits: the
    /// magnitude with the sign in front.
    pub open spec fn rank(self) -> int {
        if self.negative() {
            -(self.magnitude() as int)
        } else {
            self.magnitude() as int
        }
    }

    /// `self < other` as IEEE 754 orders numbers: false as soon as either is a NaN.
    pub open spec fn spec_lt(self, other: Scalar) -> bool {
        !self.nan() && !other.nan() && self.scaled() < other.scaled()
    }

    /// `self <= other` as IEEE 754 orders numbers.
    pub open spec fn spec_le(self, other: Scalar) -> bool {
        !self.nan() && !other.nan() && self.scaled() <= other.scaled()
    }

    /// `self > other` as IEEE 754 orders numbers.
    pub open spec fn spec_gt(self, other: Scalar) -> bool {
        other.spec_lt(self)
    }

    /// `self >= other` as IEEE 754 orders numbers.
    pub open spec fn spec_ge(self, other: Scalar) -> bool {
        other.spec_le(self)
    }

    /// `self == other` as IEEE 754 compares numbers: the two zeros are equal,
    /// and a NaN equals nothing, itself included.
    pub open spec fn spec_eq(self, other: Scalar) -> bool {
        !self.nan() && !other.nan() && self.scaled() == other.scaled()
    }

    /// The order of the codes is the order of the numbers.
    pub proof fn lemma_rank_orders(self, other: Scalar)
        ensures
            self.rank() < other.rank() <==> self.scaled() < other.scaled(),
            self.rank() == other.rank() <==> self.scaled() == other.scaled(),
    {
        let a = self.magnitude();
        let b = other.magnitude();
        if a < b {
            lemma_code_value_increasing(a, b);
        }
        if b < a {
            lemma_code_value_increasing(b, a);
        }
        if 0 < a {
            lemma_code_value_increasing(0, a);
        }
        if 0 < b {
            lemma_code_value_increasing(0, b);
        }
        assert(code_value(0) == 0);
    }

    /// Two numbers that compare equal and bear the same sign have the same code.
    pub proof fn lemma_value_fixes_code(self, other: Scalar)
        requires
            self.spec_eq(other),
            self.negative() == other.negative(),
        ensures
            self == other,
    {
        self.lemma_rank_orders(other);
    }

    /// The number with the given code.
    pub fn from_bits(bits: u32) -> (r: Scalar)
        ensures
            r.bits == bits,
    {
        Scalar { bits }
    }

    /// The code of the number.
    pub fn to_bits(self) -> (r: u32)
        ensures
            r == self.bits,
    {
        self.bits
    }

    /// Whether the code stands for no number.
    pub fn is_nan(self) -> (r: bool)
        ensures
            r == self.nan(),
    {
        self.bits % SIGN_BIT > INFINITY_MAGNITUDE
    }

    fn rank_of(self) -> (r: i64)
        ensures
            r == self.rank(),
    {
        let magnitude: u32 = self.bits % SIGN_BIT;
        if self.bits >= SIGN_BIT {
            -(magnitude as i64)
        } else {
            magnitude as i64
        }
    }

    /// `self < other`.
    pub fn lt(self, other: Scalar) -> (r: bool)
        ensures
            r == self.spec_lt(other),
    {
        proof {
            self.lemma_rank_orders(other);
        }
        !self.is_nan() && !other.is_nan() && self.rank_of() < other.rank_of()
    }

    /// `self <= other`.
    pub fn le(self, other: Scalar) -> (r: bool)
        ensures
            r == self.spec_le(other),
    {
        proof {
            self.lemma_rank_orders(other);
        }
        !self.is_nan() && !other.is_nan() && self.rank_of() <= other.rank_of()
    }

    /// `self > other`.
    pub fn gt(self, other: Scalar) -> (r: bool)
        ensures
            r == self.spec_gt(other),
    {
        other.lt(self)
    }

    /// `self >= other`.
    pub fn ge(self, other: Scalar) -> (r: bool)
        ensures
            r == self.spec_ge(other),
    {
        other.le(self)
    }

    /// `self == other`, as numbers.
    pub fn eq(self, other: Scalar) -> (r: bool)
        ensures
            r == self.spec_eq(other),
    {
        proof {
            self.lemma_rank_orders(other);
        }
        !self.is_nan() && !other.is_nan() && self.rank_of() == other.rank_of()
    }
}

/// The scaled value of the number one.
pub open spec fn unit() -> nat {
    pow2(SCALE_EXPONENT as nat)
}

/// A code with exponent field `e` above zero lies between two neighbouring
/// powers of two: `2^(e+22) <= code_value(m) < 2^(e+23)`.
pub proof fn lemma_code_value_bounds(m: nat)
    requires
        m / (HIDDEN_BIT as nat) > 0,
    ensures
        pow2((m / (HIDDEN_BIT as nat) + 22) as nat) <= code_value(m),
        code_value(m) < pow2((m / (HIDDEN_BIT as nat) + 23) as nat),
{
    let h = HIDDEN_BIT as nat;
    let e = m / h;
    let f = m % h;
    let p = pow2((e - 1) as nat);
    lemma2_to64();
    lemma_pow2_adds(23, (e - 1) as nat);
    lemma_pow2_adds(24, (e - 1) as nat);
    lemma_pow2_pos((e - 1) as nat);
    assert(h * p <= (h + f) * p < 0x100_0000 * p) by (nonlinear_arith)
        requires
            h == 0x80_0000,
            f < h,
            p > 0,
    ;
}

/// The whole part of a value whose exponent field `e` is at most 150 is its
/// significand without the low `150 - e` bits.
pub proof fn lemma_whole_part_drops_bits(m: nat)
    requires
        0 < m / (HIDDEN_BIT as nat) <= 150,
    ensures
        code_value(m) / unit() == (HIDDEN_BIT as nat + m % (HIDDEN_BIT as nat)) / pow2(
            (150 - m / (HIDDEN_BIT as nat)) as nat,
        ),
{
    let h = HIDDEN_BIT as nat;
    let e = m / h;
    let significand = h + m % h;
    let p = pow2((e - 1) as nat);
    let q = pow2((150 - e) as nat);
    lemma_pow2_adds((e - 1) as nat, (150 - e) as nat);
    lemma_pow2_pos((e - 1) as nat);
    lemma_pow2_pos((150 - e) as nat);
    lemma_div_multiples_vanish_quotient(p as int, significand as int, q as int);
    assert(significand * p == p * significand) by (nonlinear_arith);
}

/// The whole part of a value whose exponent field `e` is 150 or more is its
/// significand with `e - 150` zero bits behind it.
pub proof fn lemma_whole_part_adds_bits(m: nat)
    requires
        150 <= m / (HIDDEN_BIT as nat),
    ensures
        code_value(m) / unit() == (HIDDEN_BIT as nat + m % (HIDDEN_BIT as nat)) * pow2(
            (m / (HIDDEN_BIT as nat) - 150) as nat,
        ),
{
    let h = HIDDEN_BIT as nat;
    let e = m / h;
    let significand = h + m % h;
    let q = pow2((e - 150) as nat);
    let u = unit();
    lemma_pow2_adds(149, (e - 150) as nat);
    lemma_pow2_pos(149);
    assert(significand * (u * q) == (significand * q) * u) by (nonlinear_arith);
    lemma_div_by_multiple((significand * q) as int, u as int);
}

/// A code whose exponent field is below that of the number one stands for a
/// value below one, which has no whole part.
pub proof fn lemma_below_one_has_no_whole_part(m: nat)
    requires
        m / (HIDDEN_BIT as nat) < 127,
    ensures
        code_value(m) / unit() == 0,
{
    let e = m / (HIDDEN_BIT as nat);
    lemma2_to64();
    lemma_pow2_pos(149);
    if e == 0 {
        lemma_pow2_strictly_increases(23, 149);
    } else {
        lemma_code_value_bounds(m);
        if e < 126 {
            lemma_pow2_strictly_increases((e + 23) as nat, 149);
        }
    }
    lemma_basic_div(code_value(m) as int, unit() as int);
}

/// A code whose exponent field lies `k` or more above that of the number one
/// stands for a value whose whole part is at least two to the power `k`.
pub proof fn lemma_whole_part_reaches(m: nat, k: nat)
    requires
        m / (HIDDEN_BIT as nat) >= 127 + k,
    ensures
        code_value(m) / unit() >= pow2(k),
{
    let e = m / (HIDDEN_BIT as nat);
    lemma_code_value_bounds(m);
    if e > 127 + k {
        lemma_pow2_strictly_increases(149 + k, (e + 22) as nat);
    }
    lemma_pow2_adds(k, 149);
    lemma_pow2_pos(149);
    lemma_whole_at_least(code_value(m), pow2(k), unit());
}

impl Scalar {
    /// The whole part of the number's absolute value.
    pub open spec fn whole(self) -> nat {
        code_value(self.magnitude()) / unit()
    }

    /// The byte that a cast of the number gives: its whole part, held to the
    /// range of a byte; zero for a NaN and for everything below one.
    pub open spec fn spec_to_u8(self) -> u8 {
        if self.nan() || self.negative() {
            0u8
        } else if self.whole() >= 255 {
            255u8
        } else {
            self.whole() as u8
        }
    }

    /// The 32-bit integer that a cast of the number gives: the number without
    /// its fraction, held to the range of the type; zero for a NaN.
    pub open spec fn spec_to_i32(self) -> i32 {
        if self.nan() {
            0i32
        } else if self.negative() {
            if self.whole() >= 0x8000_0000 {
                i32::MIN
            } else {
                (-(self.whole() as int)) as i32
            }
        } else {
            if self.whole() >= 0x8000_0000 {
                i32::MAX
            } else {
                self.whole() as i32
            }
        }
    }

    /// The number zero.
    pub open spec fn spec_zero() -> Scalar {
        Scalar { bits: 0 }
    }

    /// The number one.
    pub open spec fn spec_one() -> Scalar {
        Scalar { bits: ONE_BITS }
    }

    /// Whether the number is above zero.
    pub open spec fn spec_positive(self) -> bool {
        !self.nan() && self.scaled() > 0
    }

    /// The number zero.
    pub fn zero() -> (r: Scalar)
        ensures
            r == Scalar::spec_zero(),
    {
        Scalar { bits: 0 }
    }

    /// The number one.
    pub fn one() -> (r: Scalar)
        ensures
            r == Scalar::spec_one(),
    {
        Scalar { bits: ONE_BITS }
    }

    /// Whether the number is above zero.
    pub fn is_positive(self) -> (r: bool)
        ensures
            r == self.spec_positive(),
    {
        proof {
            Scalar::lemma_zero_and_one();
        }
        self.gt(Scalar::zero())
    }

    /// The codes of zero and one stand for zero and one.
    pub proof fn lemma_zero_and_one()
        ensures
            !Scalar::spec_zero().nan(),
            Scalar::spec_zero().scaled() == 0,
            !Scalar::spec_one().nan(),
            Scalar::spec_one().scaled() == unit(),
    {
        lemma2_to64();
        lemma_pow2_adds(23, 126);
        assert(ONE_BITS as nat / (HIDDEN_BIT as nat) == 127);
        assert(ONE_BITS as nat % (HIDDEN_BIT as nat) == 0);
    }

    /// Casts the number to a byte, as `spec_to_u8` says.
    pub fn to_u8(self) -> (r: u8)
        ensures
            r == self.spec_to_u8(),
    {
        let magnitude: u32 = self.bits % SIGN_BIT;
        if magnitude > INFINITY_MAGNITUDE || self.bits >= SIGN_BIT {
            return 0;
        }
        let exponent: u32 = magnitude / HIDDEN_BIT;
        let fraction: u32 = magnitude % HIDDEN_BIT;
        proof {
            lemma2_to64();
            lemma_pow2_pos(149);
        }
        if exponent < 127 {
            proof {
                lemma_below_one_has_no_whole_part(magnitude as nat);
            }
            return 0;
        }
        if exponent >= 135 {
            proof {
                lemma_whole_part_reaches(magnitude as nat, 8);
            }
            return 255;
        }
        let significand: u32 = HIDDEN_BIT + fraction;
        let shift: u32 = 150 - exponent;
        let kept: u32 = significand >> shift;
        proof {
            lemma_whole_part_drops_bits(magnitude as nat);
            lemma_u32_shr_is_div(significand, shift);
            assert(significand >> shift < 256) by (bit_vector)
                requires
                    significand < 0x100_0000,
                    16 <= shift <= 23,
            ;
        }
        kept as u8
    }

    /// Casts the number to a 32-bit integer, as `spec_to_i32` says.
    pub fn to_i32(self) -> (r: i32)
        ensures
            r == self.spec_to_i32(),
    {
        let magnitude: u32 = self.bits % SIGN_BIT;
        if magnitude > INFINITY_MAGNITUDE {
            return 0;
        }
        let negative: bool = self.bits >= SIGN_BIT;
        let exponent: u32 = magnitude / HIDDEN_BIT;
        let fraction: u32 = magnitude % HIDDEN_BIT;
        proof {
            lemma2_to64();
            lemma_pow2_pos(149);
        }
        if exponent < 127 {
            proof {
                lemma_below_one_has_no_whole_part(magnitude as nat);
            }
            return 0;
        }
        if exponent >= 158 {
            proof {
                lemma_whole_part_reaches(magnitude as nat, 31);
            }
            return if negative {
                i32::MIN
            } else {
                i32::MAX
            };
        }
        let significand: u32 = HIDDEN_BIT + fraction;
        let kept: u32 = if exponent <= 150 {
            let shift: u32 = 150 - exponent;
            proof {
                lemma_whole_part_drops_bits(magnitude as nat);
                lemma_u32_shr_is_div(significand, shift);
                assert(significand >> shift < 0x100_0000) by (bit_vector)
                    requires
                        significand < 0x100_0000,
                        0 <= shift <= 23,
                ;
            }
            significand >> shift
        } else {
            let shift: u32 = exponent - 150;
            proof {
                lemma_whole_part_adds_bits(magnitude as nat);
                if shift < 7 {
                    lemma_pow2_strictly_increases(shift as nat, 7);
                }
                assert(significand * pow2(shift as nat) < 0x8000_0000) by (nonlinear_arith)
                    requires
                        significand < 0x100_0000,
                        pow2(shift as nat) <= 0x80,
                ;
                lemma_u32_shl_is_mul(significand, shift);
            }
            significand << shift
        };
        if negative {
            -(kept as i32)
        } else {
            kept as i32
        }
    }

    /// The number that a byte counts: the cast of `v` to single precision,
    /// which is exact.
    pub fn from_u8(v: u8) -> (r: Scalar)
        ensures
            !r.nan(),
            !r.negative(),
            r.scaled() == v * unit(),
    {
        if v == 0 {
            return Scalar { bits: 0 };
        }
        // `top` is the place of the highest bit of `v` that is set.
        let top: u32 = if v >= 128 {
            7
        } else if v >= 64 {
            6
        } else if v >= 32 {
            5
        } else if v >= 16 {
            4
        } else if v >= 8 {
            3
        } else if v >= 4 {
            2
        } else if v >= 2 {
            1
        } else {
            0
        };
        let shift: u32 = 23 - top;
        proof {
            lemma2_to64();
            assert(pow2(top as nat) <= v < 2 * pow2(top as nat));
            lemma_pow2_adds(top as nat, shift as nat);
            assert(HIDDEN_BIT <= v * pow2(shift as nat) < 2 * HIDDEN_BIT) by (nonlinear_arith)
                requires
                    pow2(top as nat) <= v < 2 * pow2(top as nat),
                    pow2(top as nat) * pow2(shift as nat) == HIDDEN_BIT,
            ;
            lemma_u32_shl_is_mul(v as u32, shift);
        }
        let significand: u32 = (v as u32) << shift;
        let exponent: u32 = 127 + top;
        let bits: u32 = exponent * HIDDEN_BIT + (significand - HIDDEN_BIT);
        proof {
            let m = bits as nat;
            assert(m / (HIDDEN_BIT as nat) == exponent);
            assert(m % (HIDDEN_BIT as nat) == significand - HIDDEN_BIT);
            lemma_pow2_adds(shift as nat, (exponent - 1) as nat);
            assert(significand * pow2((exponent - 1) as nat) == v * unit()) by (nonlinear_arith)
                requires
                    significand == v * pow2(shift as nat),
                    pow2(shift as nat) * pow2((exponent - 1) as nat) == unit(),
            ;
        }
        Scalar { bits }
    }

    /// A byte survives the way into single precision and back.
    pub proof fn lemma_byte_round_trip(self, v: u8)
        requires
            !self.nan(),
            !self.negative(),
            self.scaled() == v * unit(),
        ensures
            self.spec_to_u8() == v,
            self.spec_to_i32() == v,
    {
        lemma_pow2_pos(149);
        lemma_div_by_multiple(v as int, unit() as int);
        assert(v * unit() == unit() * v) by (nonlinear_arith);
    }
}

/// A value of at least `k` divisors has a whole part of at least `k`.
proof fn lemma_whole_at_least(x: nat, k: nat, d: nat)
    requires
        d > 0,
        x >= k * d,
    ensures
        x / d >= k,
{
    lemma_fundamental_div_mod(x as int, d as int);
    let q = x / d;
    let r = x % d;
    assert(q >= k) by (nonlinear_arith)
        requires
            x == d * q + r,
            0 <= r < d,
            x >= k * d,
            d > 0,
    ;
}

} // verus!
