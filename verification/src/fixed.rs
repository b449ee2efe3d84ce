//! Q16.16 fixed-point helpers: integer square root, hypotenuse, and
//! round-half-away-from-zero conversion back to whole pixels.

use vstd::arithmetic::mul::*;
use vstd::prelude::*;

verus! {

/// One in Q16.16 fixed point.
pub const Q16_ONE: u64 = 65536;

/// Half of `Q16_ONE`, the bias used when rounding to the nearest integer.
pub const Q16_HALF: u64 = 32768;

/// Floor of the real square root of `n`, defined constructively.
pub open spec fn sqrt_floor(n: nat) -> nat
    decreases n,
{
    if n == 0 {
        0
    } else {
        let s = sqrt_floor((n - 1) as nat);
        if (s + 1) * (s + 1) <= n {
            s + 1
        } else {
            s
        }
    }
}

/// `sqrt_floor(n)` really is the floor of the square root:
/// its square is at most `n` and the next square is beyond `n`.
pub proof fn lemma_sqrt_floor_bounds(n: nat)
    ensures
        sqrt_floor(n) * sqrt_floor(n) <= n,
        n < (sqrt_floor(n) + 1) * (sqrt_floor(n) + 1),
    decreases n,
{
    if n == 0 {
        assert(sqrt_floor(n) == 0) by {
            reveal_with_fuel(sqrt_floor, 1);
        }
        assert(sqrt_floor(n) * sqrt_floor(n) <= n);
        assert(n < (sqrt_floor(n) + 1) * (sqrt_floor(n) + 1)) by (nonlinear_arith)
            requires
                n == 0,
                sqrt_floor(n) == 0,
        ;
    } else {
        lemma_sqrt_floor_bounds((n - 1) as nat);
        let s = sqrt_floor((n - 1) as nat);
        if (s + 1) * (s + 1) <= n {
            assert(sqrt_floor(n) == s + 1);
            assert(n <= (s + 1) * (s + 1));
            assert(n < (s + 2) * (s + 2)) by (nonlinear_arith)
                requires
                    n <= (s + 1) * (s + 1),
                    s >= 0,
            ;
            assert(sqrt_floor(n) * sqrt_floor(n) <= n);
            assert(n < (sqrt_floor(n) + 1) * (sqrt_floor(n) + 1));
        } else {
            assert(sqrt_floor(n) == s);
            assert(sqrt_floor(n) * sqrt_floor(n) <= n);
            assert(n < (sqrt_floor(n) + 1) * (sqrt_floor(n) + 1));
        }
    }
}

/// Any `r` with `r^2 <= n < (r+1)^2` equals `sqrt_floor(n)`.
pub proof fn lemma_sqrt_floor_unique(n: nat, r: nat)
    requires
        r * r <= n,
        n < (r + 1) * (r + 1),
    ensures
        r == sqrt_floor(n),
{
    let s = sqrt_floor(n);
    lemma_sqrt_floor_bounds(n);
    if r < s {
        assert((r + 1) * (r + 1) <= s * s) by (nonlinear_arith)
            requires r + 1 <= s;
    }
    if s < r {
        assert((s + 1) * (s + 1) <= r * r) by (nonlinear_arith)
            requires s + 1 <= r;
    }
}

/// Integer square root by bisection.
pub fn isqrt_u64(n: u64) -> (r: u64)
    ensures
        r == sqrt_floor(n as nat),
{
    let mut lo: u64 = 0;
    let mut hi: u64 = 0x1_0000_0000;
    proof {
        assert(0x1_0000_0001int * 0x1_0000_0001int > u64::MAX as int) by (nonlinear_arith);
    }
    while lo < hi
        invariant
            lo <= hi <= 0x1_0000_0000,
            lo * lo <= n,
            n < (hi + 1) * (hi + 1),
        decreases hi - lo,
    {
        let mid: u64 = lo + (hi - lo + 1) / 2;
        proof {
            lemma_mul_upper_bound(mid as int, 0x1_0000_0000int, mid as int, 0x1_0000_0000int);
        }
        let sq: u128 = (mid as u128) * (mid as u128);
        if sq <= n as u128 {
            lo = mid;
        } else {
            hi = mid - 1;
        }
    }
    proof {
        lemma_sqrt_floor_unique(n as nat, lo as nat);
    }
    lo
}

/// Floor of the hypotenuse `sqrt(a^2 + b^2)`, in the units of `a` and `b`.
pub open spec fn hypot_floor(a: nat, b: nat) -> nat {
    sqrt_floor(a * a + b * b)
}

/// Hypotenuse of two side lengths, rounded down.
pub fn hypot_u32(a: u32, b: u32) -> (r: u64)
    requires
        a <= 0x7fff_ffff,
        b <= 0x7fff_ffff,
    ensures
        r == hypot_floor(a as nat, b as nat),
{
    proof {
        lemma_mul_upper_bound(a as int, 0x7fff_ffffint, a as int, 0x7fff_ffffint);
        lemma_mul_upper_bound(b as int, 0x7fff_ffffint, b as int, 0x7fff_ffffint);
    }
    let sum: u64 = (a as u64) * (a as u64) + (b as u64) * (b as u64);
    isqrt_u64(sum)
}

/// Round a Q16.16 quantity half away from zero, then clamp into the pixel
/// index range `0 ..= usize::MAX`.
pub open spec fn round_q16_clamped(v: int) -> int {
    if v >= 0 {
        let r = (v + Q16_HALF) / (Q16_ONE as int);
        if r > usize::MAX {
            usize::MAX as int
        } else {
            r
        }
    } else {
        // a negative position rounds half away from zero to a value <= 0,
        // which the clamp then lifts to pixel 0
        0
    }
}

/// Round a Q16.16 position half away from zero and clamp it into the pixel
/// range `0 .. dim` of a frame dimension, so the result is always a valid
/// sample center of a nonempty frame.
pub open spec fn round_q16_in_frame(v: int, dim: int) -> int {
    let r = round_q16_clamped(v);
    if dim >= 1 && r > dim - 1 {
        dim - 1
    } else {
        r
    }
}

/// A rounded position lies inside any nonempty frame dimension.
pub proof fn lemma_round_q16_in_frame(v: int, dim: int)
    requires
        1 <= dim,
    ensures
        0 <= round_q16_in_frame(v, dim) < dim,
{
    if v >= 0 {
        vstd::arithmetic::div_mod::lemma_div_pos_is_pos(v + Q16_HALF, Q16_ONE as int);
    }
}

/// Round a Q16.16 position to a whole pixel index, half away from zero,
/// clamped into the frame dimension `dim`.
pub fn round_q16_to_px(v: i128, dim: usize) -> (r: usize)
    requires
        v + Q16_HALF <= i128::MAX,
    ensures
        r == round_q16_in_frame(v as int, dim as int),
{
    let rounded: usize = if v < 0 {
        0
    } else {
        let rounded: i128 = (v + Q16_HALF as i128) / Q16_ONE as i128;
        if rounded > usize::MAX as i128 {
            usize::MAX
        } else {
            rounded as usize
        }
    };
    if dim >= 1 && rounded > dim - 1 {
        dim - 1
    } else {
        rounded
    }
}

} // verus!
