//! Destination size computation for the transform pipeline.
//!
//! A request may give a width, a height, both, or neither; a missing dimension
//! is inferred from the source aspect ratio, rounding half away from zero, and
//! both dimensions are then multiplied by the device pixel ratio.

use vstd::prelude::*;

verus! {

/// `round(num / den)` for non-negative `num` and positive `den`, rounding
/// half away from zero (which, for non-negative operands, is half up).
pub open spec fn round_ratio(num: int, den: int) -> int
    recommends
        num >= 0,
        den > 0,
{
    (2 * num + den) / (2 * den)
}

/// The destination size before any overflow concern: the mathematical pair
/// of dimensions for source size `(src_w, src_h)`, requested size
/// `(req_w, req_h)` and device pixel ratio `dpr`.
pub open spec fn output_size(
    src_w: int,
    src_h: int,
    req_w: Option<u32>,
    req_h: Option<u32>,
    dpr: int,
) -> (int, int)
    recommends
        src_w > 0,
        src_h > 0,
{
    match (req_w, req_h) {
        (Some(w), Some(h)) => (w * dpr, h * dpr),
        (Some(w), None) => (w * dpr, round_ratio(w * src_h, src_w) * dpr),
        (None, Some(h)) => (round_ratio(h * src_w, src_h) * dpr, h * dpr),
        (None, None) => (src_w * dpr, src_h * dpr),
    }
}

/// `round((w / (src_w / src_h)))` as an exec computation: the missing
/// dimension inferred from the aspect ratio.
fn round_scaled(n: u32, mul: u32, div: u32) -> (r: u64)
    requires
        div > 0,
    ensures
        r == round_ratio(n * mul, div as int),
        r <= n * mul + 1,
{
    proof {
        assert((n as int) * (mul as int) <= 0xffff_ffff * 0xffff_ffff) by (nonlinear_arith)
            requires
                n <= 0xffff_ffffu32,
                mul <= 0xffff_ffffu32,
        ;
    }
    let num: u128 = (n as u128) * (mul as u128);
    let den: u128 = div as u128;
    let q: u128 = (2 * num + den) / (2 * den);
    proof {
        vstd::arithmetic::div_mod::lemma_fundamental_div_mod(2 * num + den, 2 * den);
        let rr = (2 * num + den) % (2 * den);
        assert(q <= num + 1) by (nonlinear_arith)
            requires
                2 * num + den == 2 * den * q + rr,
                0 <= rr,
                den >= 1,
                num >= 0,
        ;
    }
    q as u64
}

/// Computes the destination dimensions, or `None` where a dimension would not
/// fit in `u32`. Success is owed exactly on the inputs whose mathematical
/// result fits.
pub fn checked_output_size(
    src: (u32, u32),
    dst: (Option<u32>, Option<u32>),
    dpr: u32,
) -> (r: Option<(u32, u32)>)
    requires
        src.0 > 0,
        src.1 > 0,
        dpr >= 1,
    ensures
        ({
            let (w, h) = output_size(src.0 as int, src.1 as int, dst.0, dst.1, dpr as int);
            &&& (w <= u32::MAX && h <= u32::MAX) <==> r is Some
            &&& r matches Some(p) ==> p.0 == w && p.1 == h
        }),
{
    let (src_w, src_h) = src;
    let (w128, h128): (u128, u128) = match (dst.0, dst.1) {
        (Some(w), Some(h)) => (w as u128, h as u128),
        (Some(w), None) => (w as u128, round_scaled(w, src_h, src_w) as u128),
        (None, Some(h)) => (round_scaled(h, src_w, src_h) as u128, h as u128),
        (None, None) => (src_w as u128, src_h as u128),
    };
    proof {
        assert((w128 as int) * (dpr as int) <= u64::MAX * u32::MAX && (h128 as int) * (
        dpr as int) <= u64::MAX * u32::MAX) by (nonlinear_arith)
            requires
                0 <= w128 <= u64::MAX,
                0 <= h128 <= u64::MAX,
                dpr <= u32::MAX,
        ;
    }
    let w_scaled: u128 = w128 * (dpr as u128);
    let h_scaled: u128 = h128 * (dpr as u128);
    if w_scaled <= u32::MAX as u128 && h_scaled <= u32::MAX as u128 {
        Some((w_scaled as u32, h_scaled as u32))
    } else {
        None
    }
}

/// The destination dimensions for inputs on which they fit in `u32`: both
/// requested dimensions multiplied by `dpr`, a missing one first inferred
/// from the source aspect ratio with rounding half away from zero.
pub fn get_output_size(src: (u32, u32), dst: (Option<u32>, Option<u32>), dpr: u32) -> (r: (
    u32,
    u32,
))
    requires
        src.0 > 0,
        src.1 > 0,
        dpr >= 1,
        output_size(src.0 as int, src.1 as int, dst.0, dst.1, dpr as int).0 <= u32::MAX,
        output_size(src.0 as int, src.1 as int, dst.0, dst.1, dpr as int).1 <= u32::MAX,
    ensures
        (r.0 as int, r.1 as int) == output_size(src.0 as int, src.1 as int, dst.0, dst.1,
            dpr as int),
{
    checked_output_size(src, dst, dpr).unwrap()
}

} // verus!
