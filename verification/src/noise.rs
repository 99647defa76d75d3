//! Deterministic coherent noise: lattice values mixed from the seed and the
//! lattice coordinates, interpolated bilinearly between the four corners of
//! the enclosing lattice square.
//!
//! A sample lies in `[0, 2000]` (thousandths, centred on 1000); callers
//! subtract the centre where a signed field is wanted.

use vstd::prelude::*;
use crate::rng::{lattice, spec_lattice};

verus! {

/// Largest accepted sample coordinate; keeps every product far from overflow.
pub const NOISE_MAX_COORD: u64 = 100_000;

/// Largest accepted lattice period.
pub const NOISE_MAX_PERIOD: u64 = 1000;

/// The interpolated sample at `(x, y)` for lattice period `f`.
#[verifier::opaque]
pub open spec fn spec_sample(seed: u64, salt: u64, x: u64, y: u64, f: u64) -> int {
    let x0 = x / f;
    let y0 = y / f;
    let fx = (x % f) as int;
    let fy = (y % f) as int;
    let gx = f - fx;
    let gy = f - fy;
    let c00 = spec_lattice(seed, salt, x0, y0) as int;
    let c10 = spec_lattice(seed, salt, (x0 + 1) as u64, y0) as int;
    let c01 = spec_lattice(seed, salt, x0, (y0 + 1) as u64) as int;
    let c11 = spec_lattice(seed, salt, (x0 + 1) as u64, (y0 + 1) as u64) as int;
    (c00 * gx * gy + c10 * fx * gy + c01 * gx * fy + c11 * fx * fy) / (f * f)
}

/// Exec twin of [`spec_sample`]; the result stays within the corner range.
pub fn sample(seed: u64, salt: u64, x: u64, y: u64, f: u64) -> (r: i64)
    requires
        1 <= f <= NOISE_MAX_PERIOD,
        x <= NOISE_MAX_COORD,
        y <= NOISE_MAX_COORD,
    ensures
        r == spec_sample(seed, salt, x, y, f),
        0 <= r <= 2000,
{
    proof {
        reveal(spec_sample);
    }
    let x0 = x / f;
    let y0 = y / f;
    let fx = x % f;
    let fy = y % f;
    let gx = f - fx;
    let gy = f - fy;
    let c00 = lattice(seed, salt, x0, y0) as u64;
    let c10 = lattice(seed, salt, x0 + 1, y0) as u64;
    let c01 = lattice(seed, salt, x0, y0 + 1) as u64;
    let c11 = lattice(seed, salt, x0 + 1, y0 + 1) as u64;
    proof {
        assert(c00 * gx <= 2_000_000 && c10 * fx <= 2_000_000 && c01 * gx <= 2_000_000 && c11 * fx
            <= 2_000_000 && c00 * gx * gy <= 2_000_000_000 && c10 * fx * gy <= 2_000_000_000 && c01
            * gx * fy <= 2_000_000_000 && c11 * fx * fy <= 2_000_000_000)
            by (nonlinear_arith)
            requires
                c00 <= 2000,
                c10 <= 2000,
                c01 <= 2000,
                c11 <= 2000,
                gx <= 1000,
                gy <= 1000,
                fx <= 1000,
                fy <= 1000,
        ;
    }
    let num = c00 * gx * gy + c10 * fx * gy + c01 * gx * fy + c11 * fx * fy;
    proof {
        assert(1 <= f * f <= 1_000_000)
            by (nonlinear_arith)
            requires
                1 <= f <= 1000,
        ;
        lemma_blend_bounds(
            c00 as int,
            c10 as int,
            c01 as int,
            c11 as int,
            fx as int,
            fy as int,
            f as int,
        );
    }
    let ff = f * f;
    let q = num / ff;
    q as i64
}

/// A sample always lies in the corner range.
pub proof fn lemma_sample_bounds(seed: u64, salt: u64, x: u64, y: u64, f: u64)
    requires
        1 <= f,
    ensures
        0 <= spec_sample(seed, salt, x, y, f) <= 2000,
{
    reveal(spec_sample);
    let x0 = x / f;
    let y0 = y / f;
    let fx = (x % f) as int;
    let fy = (y % f) as int;
    let c00 = spec_lattice(seed, salt, x0, y0) as int;
    let c10 = spec_lattice(seed, salt, (x0 + 1) as u64, y0) as int;
    let c01 = spec_lattice(seed, salt, x0, (y0 + 1) as u64) as int;
    let c11 = spec_lattice(seed, salt, (x0 + 1) as u64, (y0 + 1) as u64) as int;
    lemma_blend_bounds(c00, c10, c01, c11, fx, fy, f as int);
}

/// The bilinear blend of four corner weights in `[0, 2000]` stays in
/// `[0, 2000]`, since the interpolation weights sum to the full square.
proof fn lemma_blend_bounds(c00: int, c10: int, c01: int, c11: int, fx: int, fy: int, f: int)
    requires
        1 <= f,
        0 <= fx < f,
        0 <= fy < f,
        0 <= c00 <= 2000,
        0 <= c10 <= 2000,
        0 <= c01 <= 2000,
        0 <= c11 <= 2000,
    ensures
        0 <= c00 * (f - fx) * (f - fy) + c10 * fx * (f - fy) + c01 * (f - fx) * fy + c11 * fx * fy,
        0 <= (c00 * (f - fx) * (f - fy) + c10 * fx * (f - fy) + c01 * (f - fx) * fy + c11 * fx
            * fy) / (f * f) <= 2000,
{
    let a = (f - fx) * (f - fy);
    let b = fx * (f - fy);
    let c = (f - fx) * fy;
    let d = fx * fy;
    let num = c00 * (f - fx) * (f - fy) + c10 * fx * (f - fy) + c01 * (f - fx) * fy + c11 * fx * fy;
    assert(a >= 0 && b >= 0 && c >= 0 && d >= 0 && a + b + c + d == f * f)
        by (nonlinear_arith)
        requires
            1 <= f,
            0 <= fx < f,
            0 <= fy < f,
            a == (f - fx) * (f - fy),
            b == fx * (f - fy),
            c == (f - fx) * fy,
            d == fx * fy,
    ;
    assert(0 <= c00 * (f - fx) * (f - fy) <= 2000 * a)
        by (nonlinear_arith)
        requires
            0 <= c00 <= 2000,
            0 <= fx < f,
            0 <= fy < f,
            a == (f - fx) * (f - fy),
    ;
    assert(0 <= c10 * fx * (f - fy) <= 2000 * b)
        by (nonlinear_arith)
        requires
            0 <= c10 <= 2000,
            0 <= fx < f,
            0 <= fy < f,
            b == fx * (f - fy),
    ;
    assert(0 <= c01 * (f - fx) * fy <= 2000 * c)
        by (nonlinear_arith)
        requires
            0 <= c01 <= 2000,
            0 <= fx < f,
            0 <= fy < f,
            c == (f - fx) * fy,
    ;
    assert(0 <= c11 * fx * fy <= 2000 * d)
        by (nonlinear_arith)
        requires
            0 <= c11 <= 2000,
            0 <= fx < f,
            0 <= fy < f,
            d == fx * fy,
    ;
    assert(num <= 2000 * a + 2000 * b + 2000 * c + 2000 * d);
    assert(2000 * a + 2000 * b + 2000 * c + 2000 * d == 2000 * (f * f));
    assert(f * f >= 1)
        by (nonlinear_arith)
        requires
            f >= 1,
    ;
    assert(0 <= num / (f * f) <= 2000)
        by (nonlinear_arith)
        requires
            0 <= num <= 2000 * (f * f),
            f * f >= 1,
    ;
}

} // verus!
