//! Double-precision numbers, held as bit patterns.
//!
//! The numbers of a JSON document are IEEE 754 binary64 values. This module
//! reads them without floating-point arithmetic: a finite number is
//! `± significand × 2^scale`, and its whole part follows by integer division.

use vstd::arithmetic::power2::*;
use vstd::prelude::*;

verus! {

/// An IEEE 754 binary64 number, held as its 64-bit pattern: one sign bit,
/// eleven exponent bits, fifty-two fraction bits.
#[derive(Clone, Copy, Debug, PartialEq, Eq)]
pub struct Double {
    pub bits: u64,
}

impl Double {
    /// Whether the sign bit is set.
    pub open spec fn negative(self) -> bool {
        self.bits >= 0x8000_0000_0000_0000
    }

    /// The biased exponent field, `0..=2047`.
    pub open spec fn exponent(self) -> int {
        (self.bits as int / 0x10_0000_0000_0000) % 2048
    }

    /// The fraction field, below `2^52`.
    pub open spec fn fraction(self) -> int {
        self.bits as int % 0x10_0000_0000_0000
    }

    /// Neither an infinity nor a NaN.
    pub open spec fn finite(self) -> bool {
        self.exponent() != 2047
    }

    /// The integer `m` of `± m × 2^scale`: the fraction, with the implicit
    /// leading bit for a normal number.
    pub open spec fn significand(self) -> int {
        if self.exponent() == 0 {
            self.fraction()
        } else {
            0x10_0000_0000_0000 + self.fraction()
        }
    }

    /// The power of two by which the significand is scaled.
    pub open spec fn scale(self) -> int {
        if self.exponent() == 0 {
            -1074
        } else {
            self.exponent() - 1075
        }
    }

    /// The whole part of the absolute value of a finite number.
    pub open spec fn magnitude_floor(self) -> int {
        if self.scale() >= 0 {
            self.significand() * pow2(self.scale() as nat)
        } else {
            self.significand() / (pow2((-self.scale()) as nat) as int)
        }
    }

    /// The number is finite and has no fractional part.
    pub open spec fn integral(self) -> bool {
        self.finite() && (self.scale() >= 0 || self.significand() % (pow2(
            (-self.scale()) as nat,
        ) as int) == 0)
    }

    /// The greatest integer not above a finite number.
    pub open spec fn floor(self) -> int {
        if !self.negative() {
            self.magnitude_floor()
        } else if self.integral() {
            -self.magnitude_floor()
        } else {
            -self.magnitude_floor() - 1
        }
    }

    /// The number with the given bit pattern.
    pub fn from_bits(bits: u64) -> (r: Double)
        ensures
            r.bits == bits,
    {
        Double { bits }
    }

    /// The bit pattern of the number.
    pub fn to_bits(&self) -> (r: u64)
        ensures
            r == self.bits,
    {
        self.bits
    }

    /// Whether the number is neither an infinity nor a NaN.
    pub fn is_finite(&self) -> (r: bool)
        ensures
            r == self.finite(),
    {
        (self.bits / 0x10_0000_0000_0000) % 2048 != 2047
    }

    /// The whole part of the absolute value and whether it is all of it, for
    /// a finite number whose whole part is at most `2^63`.
    fn whole(&self) -> (r: Option<(u64, bool)>)
        ensures
            match r {
                Some((magnitude, exact)) => {
                    &&& self.finite()
                    &&& magnitude == self.magnitude_floor()
                    &&& magnitude <= 0x8000_0000_0000_0000
                    &&& exact == self.integral()
                },
                None => !self.finite() || self.magnitude_floor() > 0x8000_0000_0000_0000,
            },
    {
        let exponent: u64 = (self.bits / 0x10_0000_0000_0000) % 2048;
        let fraction: u64 = self.bits % 0x10_0000_0000_0000;
        if exponent == 2047 {
            return None;
        }
        let significand: u64 = if exponent == 0 {
            fraction
        } else {
            0x10_0000_0000_0000 + fraction
        };
        proof {
            lemma2_to64();
            lemma2_to64_rest();
        }
        if exponent >= 1075 {
            let up: u64 = exponent - 1075;
            if up > 11 {
                proof {
                    lemma_pow2_strictly_increases(11, up as nat);
                    assert(self.significand() * pow2(up as nat) > 0x8000_0000_0000_0000)
                        by (nonlinear_arith)
                        requires
                            self.significand() >= 0x10_0000_0000_0000,
                            pow2(up as nat) > 2048,
                    ;
                }
                return None;
            }
            let factor: u64 = power_of_two(up);
            assert(significand * factor < 0x1_0000_0000_0000_0000) by (nonlinear_arith)
                requires
                    significand < 0x20_0000_0000_0000,
                    factor <= 2048,
            ;
            let magnitude: u64 = significand * factor;
            if magnitude > 0x8000_0000_0000_0000 {
                None
            } else {
                Some((magnitude, true))
            }
        } else {
            let down: u64 = if exponent == 0 {
                1074
            } else {
                1075 - exponent
            };
            if down > 52 {
                proof {
                    if down > 53 {
                        lemma_pow2_strictly_increases(53, down as nat);
                    }
                    let divisor = pow2(down as nat) as int;
                    vstd::arithmetic::div_mod::lemma_small_mod(significand as nat, divisor as nat);
                    vstd::arithmetic::div_mod::lemma_basic_div(significand as int, divisor);
                }
                Some((0, significand == 0))
            } else {
                let divisor: u64 = power_of_two(down);
                Some((significand / divisor, significand % divisor == 0))
            }
        }
    }

    /// The greatest integer not above the number, where the number is finite
    /// and that integer fits in 64 bits.
    pub fn floor_i64(&self) -> (r: Option<i64>)
        ensures
            r == if self.finite() && i64::MIN <= self.floor() <= i64::MAX {
                Some(self.floor() as i64)
            } else {
                None::<i64>
            },
    {
        let negative = self.bits >= 0x8000_0000_0000_0000;
        match self.whole() {
            None => None,
            Some((magnitude, exact)) => {
                if !negative {
                    if magnitude <= 0x7fff_ffff_ffff_ffff {
                        Some(magnitude as i64)
                    } else {
                        None
                    }
                } else if magnitude == 0x8000_0000_0000_0000 {
                    if exact {
                        Some(i64::MIN)
                    } else {
                        None
                    }
                } else if exact {
                    Some(-(magnitude as i64))
                } else {
                    Some(-(magnitude as i64) - 1)
                }
            },
        }
    }

    /// The number as an integer, where it is one and fits in 64 bits.
    pub fn to_i64(&self) -> (r: Option<i64>)
        ensures
            r == if self.integral() && i64::MIN <= self.floor() <= i64::MAX {
                Some(self.floor() as i64)
            } else {
                None::<i64>
            },
    {
        match self.whole() {
            Some((_, true)) => self.floor_i64(),
            _ => None,
        }
    }
}

/// `2^exponent`, for an exponent that keeps it inside 64 bits.
fn power_of_two(exponent: u64) -> (r: u64)
    requires
        exponent <= 63,
    ensures
        r == pow2(exponent as nat),
{
    let mut power: u64 = 1;
    let mut done: u64 = 0;
    proof {
        lemma2_to64();
    }
    while done < exponent
        invariant
            done <= exponent <= 63,
            power == pow2(done as nat),
        decreases exponent - done,
    {
        proof {
            lemma_pow2_unfold((done + 1) as nat);
            lemma_pow2_strictly_increases((done + 1) as nat, 64);
            lemma2_to64();
        }
        power = power * 2;
        done = done + 1;
    }
    power
}

} // verus!
