//! Exact fixed-point lengths and coordinates.
//!
//! Board files write lengths as decimal millimeters. This module holds such
//! a value exactly as a signed count of millionths of a millimeter, so that
//! all geometry in this crate is plain integer arithmetic.

use vstd::prelude::*;

verus! {

use crate::UNITS_PER_MM;

/// A length or coordinate, as a signed count of millionths of a millimeter.
#[derive(Clone, Copy, Debug, PartialEq, Eq, Structural)]
pub struct Scalar {
    pub units: i64,
}

/// Clamps an unbounded integer into the `i64` range.
pub open spec fn sat_i64(x: int) -> int {
    if x < i64::MIN {
        i64::MIN as int
    } else if x > i64::MAX {
        i64::MAX as int
    } else {
        x
    }
}

/// Division of a unit count by `UNITS_PER_MM`, truncated toward zero.
pub open spec fn trunc_mm(units: int) -> int {
    if units >= 0 {
        units / (UNITS_PER_MM as int)
    } else {
        -((-units) / (UNITS_PER_MM as int))
    }
}

/// Clamps an unbounded integer into the `u32` range.
pub open spec fn clamp_u32(x: int) -> int {
    if x < 0 {
        0
    } else if x > u32::MAX {
        u32::MAX as int
    } else {
        x
    }
}

/// Clamps an unbounded integer into the `u8` range.
pub open spec fn clamp_u8(x: int) -> int {
    if x < 0 {
        0
    } else if x > u8::MAX {
        u8::MAX as int
    } else {
        x
    }
}

/// Clamps an unbounded integer into the `u64` range.
pub open spec fn clamp_u64(x: int) -> int {
    if x < 0 {
        0
    } else if x > u64::MAX {
        u64::MAX as int
    } else {
        x
    }
}

/// Clamps an unbounded integer into the `i32` range.
pub open spec fn clamp_i32(x: int) -> int {
    if x < i32::MIN {
        i32::MIN as int
    } else if x > i32::MAX {
        i32::MAX as int
    } else {
        x
    }
}

impl Scalar {
    /// The value as an unbounded integer count of units.
    pub open spec fn as_int(self) -> int {
        self.units as int
    }

    /// A scalar from a raw count of millionths of a millimeter.
    pub fn from_units(units: i64) -> (r: Scalar)
        ensures
            r.units == units,
    {
        Scalar { units }
    }

    /// A scalar from a whole number of millimeters.
    pub fn from_mm(mm: i32) -> (r: Scalar)
        ensures
            r.as_int() == mm * (UNITS_PER_MM as int),
    {
        Scalar { units: (mm as i64) * UNITS_PER_MM }
    }

    /// The zero length.
    pub fn zero() -> (r: Scalar)
        ensures
            r.units == 0,
    {
        Scalar { units: 0 }
    }

    /// The smaller of two scalars.
    pub fn min(self, other: Scalar) -> (r: Scalar)
        ensures
            r.units == if self.units <= other.units {
                self.units
            } else {
                other.units
            },
    {
        if self.units <= other.units {
            self
        } else {
            other
        }
    }

    /// The larger of two scalars.
    pub fn max(self, other: Scalar) -> (r: Scalar)
        ensures
            r.units == if self.units >= other.units {
                self.units
            } else {
                other.units
            },
    {
        if self.units >= other.units {
            self
        } else {
            other
        }
    }

    /// Saturating addition: the exact sum, clamped into the `i64` range.
    pub fn add_sat(self, other: Scalar) -> (r: Scalar)
        ensures
            r.as_int() == sat_i64(self.as_int() + other.as_int()),
    {
        let s: i128 = self.units as i128 + other.units as i128;
        if s < i64::MIN as i128 {
            Scalar { units: i64::MIN }
        } else if s > i64::MAX as i128 {
            Scalar { units: i64::MAX }
        } else {
            Scalar { units: s as i64 }
        }
    }

    /// Saturating subtraction: the exact difference, clamped into the `i64` range.
    pub fn sub_sat(self, other: Scalar) -> (r: Scalar)
        ensures
            r.as_int() == sat_i64(self.as_int() - other.as_int()),
    {
        let s: i128 = self.units as i128 - other.units as i128;
        if s < i64::MIN as i128 {
            Scalar { units: i64::MIN }
        } else if s > i64::MAX as i128 {
            Scalar { units: i64::MAX }
        } else {
            Scalar { units: s as i64 }
        }
    }

    /// The magnitude of the unit count, as an unsigned number.
    fn magnitude(self) -> (r: u64)
        ensures
            r as int == if self.as_int() >= 0 {
                self.as_int()
            } else {
                -self.as_int()
            },
    {
        if self.units >= 0 {
            self.units as u64
        } else {
            ((-(self.units as i128)) as u128) as u64
        }
    }

    /// The whole number of millimeters, truncated toward zero and clamped
    /// into the `u32` range.
    pub fn to_u32(self) -> (r: u32)
        ensures
            r as int == clamp_u32(trunc_mm(self.as_int())),
    {
        if self.units < 0 {
            0
        } else {
            let q: u64 = self.magnitude() / (UNITS_PER_MM as u64);
            if q > u32::MAX as u64 {
                u32::MAX
            } else {
                q as u32
            }
        }
    }

    /// The whole number of millimeters, truncated toward zero and clamped
    /// into the `u8` range.
    pub fn to_u8(self) -> (r: u8)
        ensures
            r as int == clamp_u8(trunc_mm(self.as_int())),
    {
        if self.units < 0 {
            0
        } else {
            let q: u64 = self.magnitude() / (UNITS_PER_MM as u64);
            if q > u8::MAX as u64 {
                u8::MAX
            } else {
                q as u8
            }
        }
    }

    /// The whole number of millimeters, truncated toward zero and clamped
    /// into the `u64` range.
    pub fn to_u64(self) -> (r: u64)
        ensures
            r as int == clamp_u64(trunc_mm(self.as_int())),
    {
        if self.units < 0 {
            0
        } else {
            self.magnitude() / (UNITS_PER_MM as u64)
        }
    }

    /// The whole number of millimeters, truncated toward zero and clamped
    /// into the `i32` range.
    pub fn to_i32(self) -> (r: i32)
        ensures
            r as int == clamp_i32(trunc_mm(self.as_int())),
    {
        let q: u64 = self.magnitude() / (UNITS_PER_MM as u64);
        if self.units >= 0 {
            if q > i32::MAX as u64 {
                i32::MAX
            } else {
                q as i32
            }
        } else {
            if q > 0x8000_0000u64 {
                i32::MIN
            } else {
                (-(q as i64)) as i32
            }
        }
    }
}

/// The integer square root: the largest `r` with `r * r <= n`.
pub open spec fn spec_isqrt(n: nat) -> nat
    decreases n,
{
    if n == 0 {
        0
    } else {
        let r = spec_isqrt((n - 1) as nat);
        if (r + 1) * (r + 1) <= n {
            r + 1
        } else {
            r
        }
    }
}

/// `spec_isqrt` is bracketed by the two adjacent squares.
pub proof fn lemma_isqrt_bounds(n: nat)
    ensures
        (spec_isqrt(n) as int) * (spec_isqrt(n) as int) <= n as int,
        (n as int) < ((spec_isqrt(n) as int) + 1) * ((spec_isqrt(n) as int) + 1),
    decreases n,
{
    if n > 0 {
        lemma_isqrt_bounds((n - 1) as nat);
        let r0 = spec_isqrt((n - 1) as nat) as int;
        if (r0 + 1) * (r0 + 1) <= n as int {
            assert(spec_isqrt(n) as int == r0 + 1);
            assert((n as int) - 1 < (r0 + 1) * (r0 + 1));
            assert(n as int == (r0 + 1) * (r0 + 1));
            assert(((r0 + 1) + 1) * ((r0 + 1) + 1) > n as int) by (nonlinear_arith)
                requires
                    n as int == (r0 + 1) * (r0 + 1),
                    r0 >= 0,
            ;
        } else {
            assert(spec_isqrt(n) as int == r0);
            assert(r0 * r0 <= (n as int) - 1);
            assert((n as int) < (r0 + 1) * (r0 + 1));
        }
    } else {
        assert(n == 0);
        assert(spec_isqrt(n) == 0);
    }
}

/// Any `r` bracketed by adjacent squares around `n` is `spec_isqrt(n)`.
pub proof fn lemma_isqrt_unique(n: nat, r: nat)
    requires
        (r as int) * (r as int) <= n as int,
        (n as int) < ((r as int) + 1) * ((r as int) + 1),
    ensures
        r == spec_isqrt(n),
{
    lemma_isqrt_bounds(n);
    let s = spec_isqrt(n) as int;
    let ri = r as int;
    if ri < s {
        assert((ri + 1) * (ri + 1) <= s * s) by (nonlinear_arith)
            requires
                0 <= ri + 1 <= s,
        ;
    } else if ri > s {
        assert((s + 1) * (s + 1) <= ri * ri) by (nonlinear_arith)
            requires
                0 <= s + 1 <= ri,
        ;
    }
}

/// The integer square root of a 128-bit value, by bisection.
pub fn isqrt_u128(n: u128) -> (r: u64)
    ensures
        r as nat == spec_isqrt(n as nat),
{
    let mut lo: u64 = 0;
    let mut hi: u64 = u64::MAX;
    proof {
        assert((n as int) < ((u64::MAX as int) + 1) * ((u64::MAX as int) + 1)) by (nonlinear_arith)
            requires
                n <= u128::MAX,
        ;
    }
    while lo < hi
        invariant
            lo <= hi,
            (lo as int) * (lo as int) <= n as int,
            (n as int) < ((hi as int) + 1) * ((hi as int) + 1),
        decreases hi - lo,
    {
        let mid = hi - (hi - lo) / 2;
        proof {
            assert((mid as int) * (mid as int) <= (u64::MAX as int) * (u64::MAX as int))
                by (nonlinear_arith)
                requires
                    0 <= mid <= u64::MAX,
            ;
        }
        let sq: u128 = (mid as u128) * (mid as u128);
        if sq <= n {
            lo = mid;
        } else {
            hi = mid - 1;
        }
    }
    proof {
        lemma_isqrt_unique(n as nat, lo as nat);
    }
    lo
}

} // verus!
