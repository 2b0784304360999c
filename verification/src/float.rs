//! Single-precision numbers, carried as their IEEE 754 bit patterns.
//!
//! The boundary passes such numbers on. What it decides about them, namely
//! whether they are finite, whether two of them are equal and which pixels a
//! coordinate touches, it decides on the bits.

use vstd::arithmetic::power2::pow2;
use vstd::prelude::*;

verus! {

/// A single-precision number.
#[derive(Debug, Clone, Copy, PartialEq, Eq, Structural)]
pub struct Float32 {
    pub bits: u32,
}

impl Float32 {
    pub open spec fn negative(self) -> bool {
        self.bits >= 0x8000_0000
    }

    /// The bits without the sign.
    pub open spec fn magnitude(self) -> u32 {
        if self.bits >= 0x8000_0000 {
            (self.bits - 0x8000_0000) as u32
        } else {
            self.bits
        }
    }

    pub open spec fn exponent(self) -> int {
        self.magnitude() as int / 0x80_0000
    }

    /// The significand of a normal number, an integer of 24 bits.
    pub open spec fn significand(self) -> int {
        0x80_0000 + self.magnitude() as int % 0x80_0000
    }

    /// Neither an infinity nor not a number.
    pub open spec fn finite(self) -> bool {
        self.magnitude() < 0x7f80_0000
    }

    pub open spec fn not_a_number(self) -> bool {
        self.magnitude() > 0x7f80_0000
    }

    /// The greatest integer that is not above the number, for a number that is at
    /// least one; zero for a smaller one; at most the greatest 64-bit integer.
    pub open spec fn floor_or_zero(self) -> int {
        let e = self.exponent();
        if self.negative() || e < 127 {
            0
        } else if e <= 150 {
            self.significand() / pow2((150 - e) as nat) as int
        } else if e < 190 {
            self.significand() * pow2((e - 150) as nat)
        } else {
            i64::MAX as int
        }
    }

    /// The least integer that is not below the number, for a positive number; zero
    /// for another one; at most the greatest 64-bit integer.
    pub open spec fn ceil_or_zero(self) -> int {
        let e = self.exponent();
        if self.negative() || self.magnitude() == 0 {
            0
        } else if e < 127 {
            1
        } else if e <= 150 {
            (self.significand() + pow2((150 - e) as nat) - 1) / pow2((150 - e) as nat) as int
        } else if e < 190 {
            self.significand() * pow2((e - 150) as nat)
        } else {
            i64::MAX as int
        }
    }

    /// `size` with the sign of the number.
    pub open spec fn signed(self, size: int) -> int {
        if self.negative() {
            -size
        } else {
            size
        }
    }

    /// The value of the number, if it is an integer.
    pub open spec fn whole(self) -> Option<int> {
        let e = self.exponent();
        if !self.finite() {
            None
        } else if self.magnitude() == 0 {
            Some(0int)
        } else if e < 127 {
            None
        } else if e <= 150 {
            let unit = pow2((150 - e) as nat) as int;
            if self.significand() % unit == 0 {
                Some(self.signed(self.significand() / unit))
            } else {
                None
            }
        } else {
            Some(self.signed(self.significand() * pow2((e - 150) as nat)))
        }
    }

    fn magnitude_bits(self) -> (r: u32)
        ensures
            r == self.magnitude(),
    {
        if self.bits >= 0x8000_0000 {
            self.bits - 0x8000_0000
        } else {
            self.bits
        }
    }

    /// The value of the number, if it is an integer of 32 bits.
    pub fn to_i32(self) -> (r: Option<i32>)
        ensures
            match r {
                Some(v) => self.whole() == Some(v as int),
                None => match self.whole() {
                    Some(v) => v < i32::MIN || i32::MAX < v,
                    None => true,
                },
            },
    {
        let m: u32 = self.magnitude_bits();
        let e: u32 = m / 0x80_0000;
        let s: u64 = 0x80_0000 + (m % 0x80_0000) as u64;
        if m >= 0x7f80_0000 {
            return None;
        }
        if m == 0 {
            return Some(0);
        }
        if e < 127 {
            return None;
        }
        let size: i64 = if e <= 150 {
            let k: u64 = (150 - e) as u64;
            proof {
                vstd::arithmetic::power2::lemma_pow2_pos(k as nat);
                if k < 23 {
                    vstd::arithmetic::power2::lemma_pow2_strictly_increases(k as nat, 23);
                }
                vstd::arithmetic::power2::lemma2_to64();
                vstd::bits::lemma_u64_shl_is_mul(1, k);
                vstd::bits::lemma_u64_shr_is_div(s, k);
            }
            let unit: u64 = 1u64 << k;
            assert(unit == pow2(k as nat));
            if s % unit != 0 {
                return None;
            }
            proof {
                vstd::arithmetic::div_mod::lemma_div_is_ordered_by_denominator(
                    s as int,
                    1,
                    pow2(k as nat) as int,
                );
                vstd::arithmetic::div_mod::lemma_div_pos_is_pos(s as int, pow2(k as nat) as int);
            }
            (s >> k) as i64
        } else if e <= 158 {
            scaled(s, (e - 150) as u64)
        } else {
            proof {
                let unit = pow2((e - 150) as nat) as int;
                vstd::arithmetic::power2::lemma2_to64();
                if e > 159 {
                    vstd::arithmetic::power2::lemma_pow2_strictly_increases(9, (e - 150) as nat);
                }
                assert(s * unit >= 0x80_0000 * 512) by (nonlinear_arith)
                    requires
                        s >= 0x80_0000,
                        unit >= 512,
                ;
            }
            return None;
        };
        let value: i64 = if self.bits >= 0x8000_0000 {
            -size
        } else {
            size
        };
        if value < i32::MIN as i64 || value > i32::MAX as i64 {
            None
        } else {
            Some(value as i32)
        }
    }

    pub fn is_finite(self) -> (r: bool)
        ensures
            r == self.finite(),
    {
        self.magnitude_bits() < 0x7f80_0000
    }

    /// The pixel column or row that holds the number, counted from zero.
    pub fn floor_to_i64(self) -> (r: i64)
        requires
            self.finite(),
        ensures
            r == self.floor_or_zero(),
    {
        let m: u32 = self.magnitude_bits();
        let e: u32 = m / 0x80_0000;
        let s: u64 = 0x80_0000 + (m % 0x80_0000) as u64;
        if self.bits >= 0x8000_0000 || e < 127 {
            return 0;
        }
        if e <= 150 {
            let k: u64 = (150 - e) as u64;
            proof {
                vstd::bits::lemma_u64_shr_is_div(s, k);
                vstd::arithmetic::power2::lemma_pow2_pos(k as nat);
                vstd::arithmetic::div_mod::lemma_div_is_ordered_by_denominator(
                    s as int,
                    1,
                    pow2(k as nat) as int,
                );
                vstd::arithmetic::div_mod::lemma_div_pos_is_pos(s as int, pow2(k as nat) as int);
            }
            (s >> k) as i64
        } else if e < 190 {
            scaled(s, (e - 150) as u64)
        } else {
            i64::MAX
        }
    }

    /// The first pixel column or row that lies wholly behind the number.
    pub fn ceil_to_i64(self) -> (r: i64)
        requires
            self.finite(),
        ensures
            r == self.ceil_or_zero(),
    {
        let m: u32 = self.magnitude_bits();
        let e: u32 = m / 0x80_0000;
        let s: u64 = 0x80_0000 + (m % 0x80_0000) as u64;
        if self.bits >= 0x8000_0000 || m == 0 {
            return 0;
        }
        if e < 127 {
            return 1;
        }
        if e <= 150 {
            let k: u64 = (150 - e) as u64;
            proof {
                vstd::arithmetic::power2::lemma_pow2_pos(k as nat);
                if k < 23 {
                    vstd::arithmetic::power2::lemma_pow2_strictly_increases(k as nat, 23);
                }
                vstd::arithmetic::power2::lemma2_to64();
                vstd::bits::lemma_u64_shl_is_mul(1, k);
            }
            let unit: u64 = 1u64 << k;
            assert(unit == pow2(k as nat));
            let t: u64 = s + (unit - 1);
            proof {
                vstd::bits::lemma_u64_shr_is_div(t, k);
                vstd::arithmetic::div_mod::lemma_div_is_ordered_by_denominator(
                    t as int,
                    1,
                    unit as int,
                );
                vstd::arithmetic::div_mod::lemma_div_pos_is_pos(t as int, unit as int);
            }
            (t >> k) as i64
        } else if e < 190 {
            scaled(s, (e - 150) as u64)
        } else {
            i64::MAX
        }
    }
}

/// `s * 2^k` for a significand and a small exponent.
fn scaled(s: u64, k: u64) -> (r: i64)
    requires
        s < 0x100_0000,
        k < 40,
    ensures
        r == s * pow2(k as nat),
{
    proof {
        vstd::arithmetic::power2::lemma2_to64();
        vstd::arithmetic::power2::lemma_pow2_adds(32, 7);
        assert(pow2(39) == 0x80_0000_0000);
        if k < 39 {
            vstd::arithmetic::power2::lemma_pow2_strictly_increases(k as nat, 39);
        }
        assert(s * pow2(k as nat) <= 0xff_ffff * pow2(39)) by (nonlinear_arith)
            requires
                s <= 0xff_ffff,
                pow2(k as nat) <= pow2(39),
        ;
        vstd::bits::lemma_u64_shl_is_mul(s, k);
    }
    (s << k) as i64
}

/// Equality of numbers: equal bits or two zeros, and never not a number.
pub open spec fn equal_numbers(a: Float32, b: Float32) -> bool {
    &&& !a.not_a_number()
    &&& !b.not_a_number()
    &&& (a.bits == b.bits || a.magnitude() == 0 && b.magnitude() == 0)
}

pub fn same_number(a: Float32, b: Float32) -> (r: bool)
    ensures
        r == equal_numbers(a, b),
{
    let x: u32 = a.magnitude_bits();
    let y: u32 = b.magnitude_bits();
    x <= 0x7f80_0000 && y <= 0x7f80_0000 && (a.bits == b.bits || (x == 0 && y == 0))
}

/// The first of `unit`, its double, its double again and so on that 24 bits of it
/// reach beyond `x`.
pub open spec fn spacing_from(x: int, unit: int) -> int
    decreases x - unit,
{
    if unit <= 0 || x < 0x100_0000 * unit {
        unit
    } else {
        spacing_from(x, 2 * unit)
    }
}

/// The spacing of single-precision integers of the size of `x`.
pub open spec fn spacing(x: int) -> int {
    spacing_from(x, 1)
}

fn find_spacing(x: i64) -> (r: i64)
    requires
        0 <= x < 0x100_0000_0000,
    ensures
        r == spacing(x as int),
        1 <= r <= 0x2_0000,
        r > 1 ==> 0x80_0000 * r <= x,
{
    let mut unit: i64 = 1;
    while x >= 0x100_0000 * unit
        invariant
            0 <= x < 0x100_0000_0000,
            1 <= unit <= 0x2_0000,
            unit > 1 ==> 0x80_0000 * unit <= x,
            spacing(x as int) == spacing_from(x as int, unit as int),
        decreases x - unit,
    {
        unit = 2 * unit;
    }
    unit
}

/// The multiple of `unit` nearest to `x`; a tie goes to the even multiple.
pub open spec fn nearest(x: int, unit: int) -> int {
    let q = x / unit;
    let r = x % unit;
    if 2 * r > unit || (2 * r == unit && q % 2 == 1) {
        (q + 1) * unit
    } else {
        q * unit
    }
}

/// A 32-bit integer as a single-precision number; zero for a negative one.
pub open spec fn rounded_or_zero(x: i32) -> int {
    if x < 0 {
        0
    } else {
        nearest(x as int, spacing(x as int))
    }
}

/// The single-precision number nearest to a non-negative integer.
fn round_size(v: i64) -> (r: i64)
    requires
        0 <= v < 0x100_0000_0000,
    ensures
        r == nearest(v as int, spacing(v as int)),
        0 <= r,
        r <= v + v / 0x80_0000,
        v < 0x100_0000 ==> r == v,
{
    let unit: i64 = find_spacing(v);
    let q: i64 = v / unit;
    let r: i64 = v % unit;
    proof {
        vstd::arithmetic::div_mod::lemma_fundamental_div_mod(v as int, unit as int);
        assert(q * unit == unit * q) by (nonlinear_arith);
        assert((q + 1) * unit == q * unit + unit) by (nonlinear_arith);
        assert(0 <= q * unit) by (nonlinear_arith)
            requires
                0 <= q,
                0 <= unit,
        ;
    }
    if 2 * r > unit || (2 * r == unit && q % 2 == 1) {
        (q + 1) * unit
    } else {
        q * unit
    }
}

/// A 32-bit integer as a single-precision number; zero for a negative one.
pub fn round_to_float(x: i32) -> (r: i64)
    ensures
        r == rounded_or_zero(x),
        0 <= r <= 0x1_0000_0000,
{
    if x < 0 {
        return 0;
    }
    round_size(x as i64)
}

/// The single-precision number nearest to `n`, of which the unit may be any power of
/// two that the number is far from the smallest of.
pub open spec fn single(n: int) -> int {
    if n < 0 {
        -nearest(-n, spacing(-n))
    } else {
        nearest(n, spacing(n))
    }
}

pub fn to_single(n: i64) -> (r: i64)
    requires
        -0x100_0000_0000 < n < 0x100_0000_0000,
    ensures
        r == single(n as int),
        n >= 0 ==> 0 <= r <= n + n / 0x80_0000,
        n < 0 ==> n - (-n) as int / 0x80_0000 <= r <= 0,
{
    if n < 0 {
        -round_size(-n)
    } else {
        round_size(n)
    }
}

// ----------------------------------------------------------------------- laws

/// The value of a finite number, counted in the least steps that single precision has:
/// `2^149` of them make one.
pub open spec fn steps(number: Float32) -> int {
    let scale = number.bits / 0x80_0000 % 0x100;
    let fraction = number.bits % 0x80_0000;
    let size = if scale == 0 {
        fraction as int
    } else {
        (0x80_0000 + fraction) * pow2((scale - 1) as nat)
    };
    if number.bits / 0x8000_0000 == 0 {
        size
    } else {
        -size
    }
}

/// The steps that make `n`.
pub open spec fn steps_of(n: int) -> int {
    n * pow2(149)
}

proof fn lemma_fields(number: Float32)
    ensures
        number.exponent() == number.bits / 0x80_0000 % 0x100,
        number.magnitude() % 0x80_0000 == number.bits % 0x80_0000,
        number.negative() == (number.bits / 0x8000_0000 != 0),
        0 <= number.exponent() < 256,
        number.magnitude() == 0x80_0000 * number.exponent() + number.bits % 0x80_0000,
{
    let b = number.bits;
    assert(b >= 0x8000_0000 ==> (b - 0x8000_0000) / 0x80_0000 == b / 0x80_0000 % 0x100 && (b
        - 0x8000_0000) % 0x80_0000 == b % 0x80_0000) by (bit_vector);
    assert(b < 0x8000_0000 ==> b / 0x80_0000 == b / 0x80_0000 % 0x100) by (bit_vector);
}

/// A number of the exponent `e` in steps: its significand at that place.
proof fn lemma_steps(number: Float32)
    ensures
        number.exponent() >= 1 ==> steps(number) == number.signed(
            number.significand() * pow2((number.exponent() - 1) as nat),
        ),
        number.exponent() == 0 ==> steps(number) == number.signed(number.magnitude() as int),
        number.negative() ==> steps(number) <= 0,
        !number.negative() ==> steps(number) >= 0,
        number.magnitude() > 0 ==> steps(number) != 0,
        0x80_0000 <= number.significand() < 0x100_0000,
{
    lemma_fields(number);
    if number.exponent() >= 1 {
        let unit = pow2((number.exponent() - 1) as nat);
        vstd::arithmetic::power2::lemma_pow2_pos((number.exponent() - 1) as nat);
        let size = number.significand();
        assert(size * unit > 0) by (nonlinear_arith)
            requires
                size > 0,
                unit > 0,
        ;
    }
}

/// The whole part of a number is the greatest whole number that is not above it; a
/// negative number counts as zero, and one that no 64-bit number reaches as the
/// greatest of those.
pub proof fn law_floor_is_the_floor(number: Float32)
    requires
        number.finite(),
    ensures
        steps(number) < 0 ==> number.floor_or_zero() == 0,
        0 <= steps(number) < steps_of(0x8000_0000_0000_0000) ==> {
            &&& steps_of(number.floor_or_zero()) <= steps(number)
            &&& steps(number) < steps_of(number.floor_or_zero() + 1)
        },
        steps(number) >= steps_of(0x8000_0000_0000_0000) ==> number.floor_or_zero() == i64::MAX,
{
    lemma_fields(number);
    lemma_steps(number);
    lemma_place(number);
    let e = number.exponent();
    let s = number.significand();
    lemma_steps_of(number.floor_or_zero());
    if !number.negative() && 127 <= e <= 150 {
        let low = pow2((150 - e) as nat) as int;
        let unit = pow2((e - 1) as nat) as int;
        vstd::arithmetic::power2::lemma_pow2_pos((150 - e) as nat);
        vstd::arithmetic::power2::lemma_pow2_pos((e - 1) as nat);
        vstd::arithmetic::power2::lemma_pow2_adds((150 - e) as nat, (e - 1) as nat);
        vstd::arithmetic::div_mod::lemma_fundamental_div_mod(s, low);
        vstd::arithmetic::div_mod::lemma_mod_bound(s, low);
        let q = s / low;
        assert(q * (low * unit) <= s * unit && s * unit < (q + 1) * (low * unit)) by (nonlinear_arith)
            requires
                s == low * q + s % low,
                0 <= s % low < low,
                unit > 0,
        ;
    }
}

/// The least whole number that is not below a number; a number that is not positive
/// counts as zero, and one that no 64-bit number reaches as the greatest of those.
pub proof fn law_ceiling_is_the_ceiling(number: Float32)
    requires
        number.finite(),
    ensures
        steps(number) <= 0 ==> number.ceil_or_zero() == 0,
        0 < steps(number) < steps_of(0x8000_0000_0000_0000) ==> {
            &&& steps_of(number.ceil_or_zero() - 1) < steps(number)
            &&& steps(number) <= steps_of(number.ceil_or_zero())
        },
        steps(number) >= steps_of(0x8000_0000_0000_0000) ==> number.ceil_or_zero() == i64::MAX,
{
    lemma_fields(number);
    lemma_steps(number);
    lemma_place(number);
    let e = number.exponent();
    let s = number.significand();
    lemma_steps_of(number.ceil_or_zero() - 1);
    if !number.negative() && 127 <= e <= 150 {
        let low = pow2((150 - e) as nat) as int;
        let unit = pow2((e - 1) as nat) as int;
        vstd::arithmetic::power2::lemma_pow2_pos((150 - e) as nat);
        vstd::arithmetic::power2::lemma_pow2_pos((e - 1) as nat);
        vstd::arithmetic::power2::lemma_pow2_adds((150 - e) as nat, (e - 1) as nat);
        let t = s + low - 1;
        vstd::arithmetic::div_mod::lemma_fundamental_div_mod(t, low);
        vstd::arithmetic::div_mod::lemma_mod_bound(t, low);
        let q = t / low;
        assert((q - 1) * (low * unit) < s * unit && s * unit <= q * (low * unit)) by (nonlinear_arith)
            requires
                s + low - 1 == low * q + t % low,
                0 <= t % low < low,
                unit > 0,
        ;
    }
}

/// One more makes as many steps more as there are in one.
proof fn lemma_steps_of(n: int)
    ensures
        steps_of(n + 1) == steps_of(n) + pow2(149),
        pow2(149) > 0,
{
    vstd::arithmetic::power2::lemma_pow2_pos(149);
    assert((n + 1) * pow2(149) == n * pow2(149) + pow2(149)) by (nonlinear_arith);
}

/// More wholes make more steps.
pub proof fn lemma_steps_ordered(a: int, b: int)
    ensures
        a < b <==> steps_of(a) < steps_of(b),
        a <= b <==> steps_of(a) <= steps_of(b),
{
    vstd::arithmetic::power2::lemma_pow2_pos(149);
    let unit = pow2(149) as int;
    assert((a < b <==> a * unit < b * unit) && (a <= b <==> a * unit <= b * unit))
        by (nonlinear_arith)
        requires
            unit > 0,
    ;
}

/// The pixels that a coordinate reaches: it lies before the end of the pixel `n` if and
/// only if its whole part is not behind `n`, and behind the start of the pixel `n` if and
/// only if its ceiling is.
pub proof fn lemma_pixel_of(number: Float32, n: int)
    requires
        number.finite(),
        0 <= n < 0x1_0000_0000,
    ensures
        number.floor_or_zero() <= n <==> steps(number) < steps_of(n + 1),
        n < number.ceil_or_zero() <==> steps_of(n) < steps(number),
{
    law_floor_is_the_floor(number);
    law_ceiling_is_the_ceiling(number);
    let f = number.floor_or_zero();
    let c = number.ceil_or_zero();
    lemma_steps_ordered(f, n + 1);
    lemma_steps_ordered(n + 1, f);
    lemma_steps_ordered(n + 1, f + 1);
    lemma_steps_ordered(f + 1, n + 1);
    lemma_steps_ordered(c - 1, n);
    lemma_steps_ordered(n, c - 1);
    lemma_steps_ordered(n, c);
    lemma_steps_ordered(c, n);
    lemma_steps_ordered(0, n);
    lemma_steps_ordered(0, n + 1);
    lemma_steps_ordered(n + 1, 0x8000_0000_0000_0000);
    lemma_steps_ordered(n, 0x8000_0000_0000_0000);
    assert(steps_of(0) == 0) by (nonlinear_arith);
}

/// Where the steps of a number that is not negative lie by its exponent.
proof fn lemma_place(number: Float32)
    requires
        number.finite(),
    ensures
        !number.negative() && number.exponent() < 127 ==> 0 <= steps(number) < steps_of(1),
        !number.negative() && 127 <= number.exponent() <= 150 ==> {
            &&& steps(number) == number.significand() * pow2((number.exponent() - 1) as nat)
            &&& steps(number) < steps_of(0x8000_0000_0000_0000)
            &&& steps(number) > 0
        },
        !number.negative() && 150 < number.exponent() < 190 ==> {
            &&& steps(number) == steps_of(
                number.significand() * pow2((number.exponent() - 150) as nat),
            )
            &&& 0 < steps(number) < steps_of(0x8000_0000_0000_0000)
        },
        !number.negative() && number.exponent() >= 190 ==> steps(number) >= steps_of(
            0x8000_0000_0000_0000,
        ),
        pow2(149) > 0,
        steps_of(0) == 0,
        steps_of(1) == pow2(149),
        steps_of(1) < steps_of(0x8000_0000_0000_0000),
{
    lemma_fields(number);
    lemma_steps(number);
    let e = number.exponent();
    let s = number.significand();
    vstd::arithmetic::power2::lemma2_to64();
    vstd::arithmetic::power2::lemma2_to64_rest();
    vstd::arithmetic::power2::lemma_pow2_pos(149);
    vstd::arithmetic::power2::lemma_pow2_adds(63, 149);
    assert(pow2(63) == 0x8000_0000_0000_0000);
    assert(pow2(212) == 0x8000_0000_0000_0000 * pow2(149));
    assert(steps_of(1) == pow2(149)) by (nonlinear_arith);
    assert(steps_of(0) == 0) by (nonlinear_arith);
    if !number.negative() {
        if e == 0 {
            vstd::arithmetic::power2::lemma_pow2_strictly_increases(23, 149);
        } else {
            let unit = pow2((e - 1) as nat) as int;
            vstd::arithmetic::power2::lemma_pow2_pos((e - 1) as nat);
            vstd::arithmetic::power2::lemma_pow2_adds(24, (e - 1) as nat);
            vstd::arithmetic::power2::lemma_pow2_adds(23, (e - 1) as nat);
            assert(0 < s * unit && s * unit < 0x100_0000 * unit && 0x80_0000 * unit <= s * unit)
                by (nonlinear_arith)
                requires
                    0x80_0000 <= s < 0x100_0000,
                    unit > 0,
            ;
            if e < 126 {
                vstd::arithmetic::power2::lemma_pow2_strictly_increases((23 + e) as nat, 149);
            }
            if 127 <= e < 189 {
                vstd::arithmetic::power2::lemma_pow2_strictly_increases((23 + e) as nat, 212);
            }
            if e > 190 {
                vstd::arithmetic::power2::lemma_pow2_strictly_increases(212, (22 + e) as nat);
            }
            if 150 < e < 190 {
                let high = pow2((e - 150) as nat) as int;
                vstd::arithmetic::power2::lemma_pow2_adds((e - 150) as nat, 149);
                assert(s * (high * pow2(149)) == (s * high) * pow2(149)) by (nonlinear_arith);
            }
        }
    }
}

/// A number is finite unless the field of its exponent is full. Then it is an infinity
/// if its fraction is zero, and not a number otherwise.
pub proof fn law_kinds_of_numbers(number: Float32)
    ensures
        number.finite() <==> number.bits / 0x80_0000 % 0x100 != 0xff,
        number.not_a_number() <==> number.bits / 0x80_0000 % 0x100 == 0xff && number.bits % 0x80_0000
            != 0,
{
    lemma_fields(number);
}

/// A finite number with more bits lies farther from zero.
proof fn lemma_magnitudes_ordered(a: Float32, b: Float32)
    requires
        a.finite(),
        b.finite(),
        a.magnitude() < b.magnitude(),
        !a.negative(),
        !b.negative(),
    ensures
        steps(a) < steps(b),
{
    lemma_fields(a);
    lemma_fields(b);
    lemma_steps(a);
    lemma_steps(b);
    vstd::arithmetic::power2::lemma2_to64();
    let ea = a.exponent();
    let eb = b.exponent();
    let sa = a.significand();
    let sb = b.significand();
    assert(ea <= eb);
    if eb >= 1 {
        let ub = pow2((eb - 1) as nat) as int;
        vstd::arithmetic::power2::lemma_pow2_pos((eb - 1) as nat);
        assert(0x80_0000 * ub <= sb * ub) by (nonlinear_arith)
            requires
                0x80_0000 <= sb,
                ub > 0,
        ;
        if ea == 0 {
        } else if ea == eb {
            assert(sa * ub < sb * ub) by (nonlinear_arith)
                requires
                    sa < sb,
                    ub > 0,
            ;
        } else {
            let ua = pow2((ea - 1) as nat) as int;
            vstd::arithmetic::power2::lemma_pow2_pos((ea - 1) as nat);
            vstd::arithmetic::power2::lemma_pow2_adds(1, (ea - 1) as nat);
            if ea < eb - 1 {
                vstd::arithmetic::power2::lemma_pow2_strictly_increases(ea as nat, (eb - 1) as nat);
            }
            assert(sa * ua < 0x80_0000 * ub) by (nonlinear_arith)
                requires
                    sa < 0x100_0000,
                    ua > 0,
                    2 * ua <= ub,
            ;
        }
    }
}

/// Two finite numbers are equal if and only if they have the same value; an infinity is
/// equal to itself only, and what is not a number is equal to nothing.
pub proof fn law_equal_numbers_have_equal_values(a: Float32, b: Float32)
    ensures
        a.finite() && b.finite() ==> (equal_numbers(a, b) <==> steps(a) == steps(b)),
        !a.finite() || !b.finite() ==> (equal_numbers(a, b) <==> a.bits == b.bits
            && !a.not_a_number()),
        equal_numbers(a, b) == equal_numbers(b, a),
{
    lemma_fields(a);
    lemma_fields(b);
    lemma_steps(a);
    lemma_steps(b);
    let pa = Float32 { bits: a.magnitude() };
    let pb = Float32 { bits: b.magnitude() };
    lemma_fields(pa);
    lemma_fields(pb);
    lemma_steps(pa);
    lemma_steps(pb);
    if a.finite() && b.finite() {
        if a.magnitude() < b.magnitude() {
            lemma_magnitudes_ordered(pa, pb);
        }
        if b.magnitude() < a.magnitude() {
            lemma_magnitudes_ordered(pb, pa);
        }
        assert(steps(a) == a.signed(steps(pa)));
        assert(steps(b) == b.signed(steps(pb)));
    }
}

/// The spacing is a power of two. The number lies below 24 bits of it, and not below 23
/// bits unless the spacing is one.
proof fn lemma_spacing(x: int, unit: int, power: nat)
    requires
        0 <= x,
        unit == pow2(power),
        unit > 1 ==> 0x80_0000 * unit <= x,
    ensures
        exists|k: nat| power <= k && spacing_from(x, unit) == #[trigger] pow2(k),
        x < 0x100_0000 * spacing_from(x, unit),
        spacing_from(x, unit) > 1 ==> 0x80_0000 * spacing_from(x, unit) <= x,
        spacing_from(x, unit) >= 1,
    decreases x - unit,
{
    vstd::arithmetic::power2::lemma_pow2_pos(power);
    if x >= 0x100_0000 * unit {
        vstd::arithmetic::power2::lemma_pow2_adds(1, power);
        vstd::arithmetic::power2::lemma2_to64();
        assert(pow2((power + 1) as nat) == 2 * unit);
        lemma_spacing(x, 2 * unit, (power + 1) as nat);
        let k = choose|k: nat| power + 1 <= k && spacing_from(x, 2 * unit) == #[trigger] pow2(k);
        assert(spacing_from(x, unit) == pow2(k));
    } else {
        assert(spacing_from(x, unit) == pow2(power));
    }
}

/// No multiple of `unit` is nearer than the nearest one.
proof fn lemma_nearest(x: int, unit: int, other: int)
    requires
        0 <= x,
        unit > 0,
    ensures
        apart(nearest(x, unit), x) <= apart(other * unit, x),
        2 * apart(nearest(x, unit), x) <= unit,
        nearest(x, unit) % unit == 0,
        nearest(x, unit) == x / unit * unit || nearest(x, unit) == (x / unit + 1) * unit,
        x / unit * unit <= x < (x / unit + 1) * unit,
        0 <= x / unit,
{
    let q = x / unit;
    vstd::arithmetic::div_mod::lemma_fundamental_div_mod(x, unit);
    vstd::arithmetic::div_mod::lemma_mod_bound(x, unit);
    vstd::arithmetic::div_mod::lemma_div_pos_is_pos(x, unit);
    assert(q * unit == unit * q && (q + 1) * unit == q * unit + unit) by (nonlinear_arith);
    vstd::arithmetic::div_mod::lemma_mod_multiples_basic(q, unit);
    vstd::arithmetic::div_mod::lemma_mod_multiples_basic(q + 1, unit);
    if other <= q {
        assert(other * unit <= q * unit) by (nonlinear_arith)
            requires
                other <= q,
                unit > 0,
        ;
    } else {
        assert((q + 1) * unit <= other * unit) by (nonlinear_arith)
            requires
                q + 1 <= other,
                unit > 0,
        ;
    }
}

/// How far two numbers lie apart.
pub open spec fn apart(a: int, b: int) -> int {
    if a < b {
        b - a
    } else {
        a - b
    }
}

/// Whether a whole number has at most 24 bits before its trailing zeros.
pub open spec fn has_24_bits(n: int) -> bool {
    exists|m: int, k: nat| -0x100_0000 <= m <= 0x100_0000 && n == #[trigger] (m * pow2(k))
}

proof fn lemma_rounded(n: int, m: int, k: nat)
    requires
        0 <= n,
        -0x100_0000 <= m <= 0x100_0000,
    ensures
        has_24_bits(nearest(n, spacing(n))),
        apart(nearest(n, spacing(n)), n) <= apart(m * pow2(k), n),
        2 * apart(nearest(n, spacing(n)), n) <= spacing(n),
        n < 0x100_0000 ==> nearest(n, spacing(n)) == n,
        spacing(n) == 1 || 0x80_0000 * spacing(n) <= n,
        spacing(n) >= 1,
        0 <= nearest(n, spacing(n)),
{
    let u = spacing(n);
    vstd::arithmetic::power2::lemma2_to64();
    lemma_spacing(n, 1, 0);
    let j = choose|j: nat| 0 <= j && u == #[trigger] pow2(j);
    vstd::arithmetic::power2::lemma_pow2_pos(k);
    let y = m * pow2(k);
    let q = n / u;
    lemma_nearest(n, u, 0);
    assert(q <= 0xff_ffff) by (nonlinear_arith)
        requires
            q * u <= n,
            n < 0x100_0000 * u,
            u >= 1,
    ;
    assert(0 <= q * u && 0 <= (q + 1) * u) by (nonlinear_arith)
        requires
            0 <= q,
            u >= 1,
    ;
    assert(has_24_bits(nearest(n, u))) by {
        assert(nearest(n, u) == q * pow2(j) || nearest(n, u) == (q + 1) * pow2(j));
    }
    if n < 0x100_0000 {
        assert(u == 1);
    }
    if k >= j {
        let f = pow2((k - j) as nat) as int;
        vstd::arithmetic::power2::lemma_pow2_adds((k - j) as nat, j);
        assert(m * (f * u) == (m * f) * u) by (nonlinear_arith);
        lemma_nearest(n, u, m * f);
    } else {
        // Such a number lies below the one from which on the spacing is `u`.
        vstd::arithmetic::power2::lemma_pow2_adds(1, (j - 1) as nat);
        if k < j - 1 {
            vstd::arithmetic::power2::lemma_pow2_strictly_increases(k, (j - 1) as nat);
        }
        let p = pow2(k) as int;
        let h = pow2((j - 1) as nat) as int;
        assert(u == 2 * h);
        assert(m * p <= 0x80_0000 * u) by (nonlinear_arith)
            requires
                m <= 0x100_0000,
                0 < p <= h,
                u == 2 * h,
        ;
        vstd::arithmetic::power2::lemma_pow2_pos((j - 1) as nat);
        assert(u > 1);
        lemma_nearest(n, u, 0x80_0000);
    }
}

/// A whole number in single precision is one that single precision has, and none that
/// it has is nearer. Whole numbers of up to 24 bits stay as they are.
pub proof fn law_single_is_the_nearest(n: int, m: int, k: nat)
    requires
        -0x100_0000 <= m <= 0x100_0000,
    ensures
        has_24_bits(single(n)),
        apart(single(n), n) <= apart(m * pow2(k), n),
        -0x100_0000 < n < 0x100_0000 ==> single(n) == n,
        single(-n) == -single(n),
{
    let size = if n < 0 {
        -n
    } else {
        n
    };
    let m2 = if n < 0 {
        -m
    } else {
        m
    };
    lemma_rounded(size, m2, k);
    assert((-m) * pow2(k) == -(m * pow2(k))) by (nonlinear_arith);
    if n == 0 {
        lemma_rounded(0, 0, 0);
    }
    if n < 0 {
        let (a, b) = choose|a: int, b: nat|
            -0x100_0000 <= a <= 0x100_0000 && nearest(size, spacing(size)) == #[trigger] (a * pow2(
                b,
            ));
        assert((-a) * pow2(b) == -(a * pow2(b))) by (nonlinear_arith);
        assert(single(n) == (-a) * pow2(b));
    }
}

/// Half a number between two that single precision has goes to the even one.
pub proof fn law_ties_go_to_the_even_one(q: int, unit: int)
    requires
        0 <= q,
        unit > 0,
    ensures
        nearest(2 * q * unit + unit, 2 * unit) == if q % 2 == 0 {
            2 * q * unit
        } else {
            2 * (q + 1) * unit
        },
{
    let x = 2 * q * unit + unit;
    assert(x == q * (2 * unit) + unit && q * (2 * unit) == 2 * q * unit && (q + 1) * (2 * unit) == 2 * (
    q + 1) * unit) by (nonlinear_arith)
        requires
            x == 2 * q * unit + unit,
    ;
    vstd::arithmetic::div_mod::lemma_fundamental_div_mod_converse(x, 2 * unit, q, unit);
}

/// A number is the whole number `n` if and only if it is finite and as far from zero as
/// `n` is, on the same side.
pub proof fn law_whole_is_the_value(number: Float32, n: int)
    ensures
        number.whole() == Some(n) <==> number.finite() && steps(number) == steps_of(n),
{
    if number.finite() {
        let size = Float32 { bits: number.magnitude() };
        lemma_fields(number);
        lemma_fields(size);
        lemma_steps(number);
        lemma_steps(size);
        lemma_place(size);
        assert(steps(number) == number.signed(steps(size)));
        let e = number.exponent();
        let s = number.significand();
        let m = number.signed(n);
        assert(steps_of(-n) == -steps_of(n)) by (nonlinear_arith);
        lemma_steps_ordered(0, m);
        lemma_steps_ordered(m, 0);
        lemma_steps_ordered(m, 1);
        assert(steps(number) == steps_of(n) <==> steps(size) == steps_of(m));
        if number.magnitude() == 0 {
            assert(steps(size) == 0);
        } else if e < 127 {
            assert(0 < steps(size) < steps_of(1));
        } else if e <= 150 {
            let low = pow2((150 - e) as nat) as int;
            let unit = pow2((e - 1) as nat) as int;
            vstd::arithmetic::power2::lemma_pow2_pos((150 - e) as nat);
            vstd::arithmetic::power2::lemma_pow2_pos((e - 1) as nat);
            vstd::arithmetic::power2::lemma_pow2_adds((150 - e) as nat, (e - 1) as nat);
            vstd::arithmetic::div_mod::lemma_fundamental_div_mod(s, low);
            vstd::arithmetic::div_mod::lemma_mod_bound(s, low);
            assert(s * unit == m * (low * unit) <==> s == m * low) by (nonlinear_arith)
                requires
                    unit > 0,
            ;
            if s == m * low {
                vstd::arithmetic::div_mod::lemma_fundamental_div_mod_converse(s, low, m, 0);
            }
            if s % low == 0 && s / low == m {
                assert(s == m * low) by (nonlinear_arith)
                    requires
                        s == low * (s / low) + 0,
                        s / low == m,
                ;
            }
        } else {
            let high = pow2((e - 150) as nat) as int;
            vstd::arithmetic::power2::lemma_pow2_adds((e - 150) as nat, 149);
            assert(s * (high * pow2(149)) == (s * high) * pow2(149)) by (nonlinear_arith);
            assert(steps(size) == steps_of(s * high));
            lemma_steps_ordered(s * high, m);
            lemma_steps_ordered(m, s * high);
        }
    }
}

/// The number one and the number zero.
pub proof fn lemma_one()
    ensures
        steps(Float32 { bits: 0x3f80_0000 }) == steps_of(1),
        steps(Float32 { bits: 0 }) == 0,
{
    vstd::arithmetic::power2::lemma2_to64();
    vstd::arithmetic::power2::lemma_pow2_adds(23, 126);
    assert(steps_of(1) == pow2(149)) by (nonlinear_arith);
}

}
