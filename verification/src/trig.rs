//! An integer sine magnitude for the generator's vertical bob.
//!
//! The generator needs a periodic vertical offset ("bob") without any
//! floating point. This module provides the magnitude of the sine of a
//! whole number of degrees, scaled by 1000, through the classical
//! rational approximation 4000 * d * (180 - d) / (40500 - d * (180 - d))
//! on a half period. The approximation is exact at 0, 30, 90, 150 and
//! 180 degrees and stays within the unit range everywhere.

use vstd::arithmetic::div_mod::lemma_div_is_ordered;
use vstd::arithmetic::div_mod::lemma_div_multiples_vanish;
use vstd::prelude::*;

verus! {

/// Sine magnitude scaled by 1000 on a half period, for `d` in [0, 180].
pub open spec fn half_sine_milli(d: int) -> int {
    (4000 * d * (180 - d)) / (40500 - d * (180 - d))
}

/// |sin| of `deg` degrees, scaled by 1000, for `deg` in [0, 360).
pub open spec fn sine_milli_abs(deg: int) -> int {
    if deg < 180 {
        half_sine_milli(deg)
    } else {
        half_sine_milli(deg - 180)
    }
}

/// The half-period product `d * (180 - d)` peaks at 8100.
proof fn lemma_half_sine_product_bounds(d: int)
    by (nonlinear_arith)
    requires
        0 <= d <= 180,
    ensures
        0 <= d * (180 - d) <= 8100,
{
}

/// The sine magnitude of `deg` degrees, scaled by 1000.
pub fn sine_magnitude_milli(deg: u32) -> (r: u32)
    requires
        deg < 360,
    ensures
        r == sine_milli_abs(deg as int),
        r <= 1000,
{
    let d: u32 = if deg < 180 {
        deg
    } else {
        deg - 180
    };
    proof {
        lemma_half_sine_product_bounds(d as int);
    }
    let p: u32 = d * (180 - d);
    let num: u32 = 4000 * p;
    let den: u32 = 40500 - p;
    let r: u32 = num / den;
    proof {
        assert(num as int == 4000 * (d as int) * (180 - d as int)) by (nonlinear_arith)
            requires
                num as int == 4000 * ((d as int) * (180 - d as int)),
        ;
        lemma_div_is_ordered(num as int, 1000 * (den as int), den as int);
        lemma_div_multiples_vanish(1000, den as int);
    }
    r
}

} // verus!
