//! Whole number decisions of the signal path: transform sizes, rates and the
//! width of the waterfall history.

use vstd::prelude::*;

verus! {

/// Whether a number is a power of two.
pub open spec fn is_pow2(n: nat) -> bool
    decreases n,
{
    if n == 1 {
        true
    } else if n < 2 || n % 2 == 1 {
        false
    } else {
        is_pow2(n / 2)
    }
}

/// The transform size the path uses for a configured size inside
/// `256..=65536`: the size itself when it is a power of two, else the next
/// power of two above it.
pub fn transform_size(fft: u32) -> (r: u32)
    requires
        256 <= fft <= 65536,
    ensures
        is_pow2(r as nat),
        fft <= r <= 65536,
        is_pow2(fft as nat) ==> r == fft,
        !is_pow2(fft as nat) ==> r < 2 * fft,
{
    let mut p: u32 = 256;
    assert(is_pow2(256)) by {
        reveal_with_fuel(is_pow2, 10);
    }
    while p < fft
        invariant
            256 <= p <= 65536,
            is_pow2(p as nat),
            p <= 2 * fft || p == 256,
            p < fft ==> p < 65536,
            forall|q: nat| 256 <= q < p && is_pow2(q) ==> q < fft,
            fft <= 65536,
        decreases 65536 - p,
    {
        proof {
            lemma_pow2_double(p as nat);
            lemma_no_pow2_between(p as nat);
            assert(is_pow2(65536)) by {
                reveal_with_fuel(is_pow2, 18);
            }
            assert(2 * p <= 65536);
        }
        p = p * 2;
    }
    proof {
        if is_pow2(fft as nat) && p != fft {
            assert(fft < p);
        }
        if !is_pow2(fft as nat) {
            if p == 256 {
                assert(is_pow2(256)) by {
                    reveal_with_fuel(is_pow2, 10);
                }
            } else if p == 2 * fft {
                lemma_pow2_even(p as nat);
                assert((p / 2) as nat == fft);
            }
        }
    }
    p
}

proof fn lemma_pow2_double(n: nat)
    requires
        is_pow2(n),
    ensures
        is_pow2(2 * n),
{
    assert((2 * n) % 2 == 0);
    assert((2 * n) / 2 == n);
}

/// Between a power of two and its double there is no other.
proof fn lemma_no_pow2_between(p: nat)
    requires
        is_pow2(p),
    ensures
        forall|q: nat| p < q < 2 * p ==> !is_pow2(q),
    decreases p,
{
    assert forall|q: nat| p < q < 2 * p implies !is_pow2(q) by {
        if is_pow2(q) {
            if p == 1 {
            } else {
                lemma_pow2_even(p);
                lemma_pow2_even(q);
                lemma_no_pow2_between(p / 2);
                assert(p / 2 < q / 2 < p);
            }
        }
    }
}

proof fn lemma_pow2_even(n: nat)
    requires
        is_pow2(n),
        n > 1,
    ensures
        n % 2 == 0,
        is_pow2(n / 2),
{
}

/// Rate the processing path settles on, after the reduction.
///
/// The reduction composes with the stated rate rather than replacing it,
/// which is what makes it worth having: halving is a step of a small integer
/// and retyping a rate is not.
pub fn effective_rate(dsp_sample_rate: u32, decimation: u32) -> (r: u32)
    ensures
        ({
            let d = if decimation < 1 { 1 } else { decimation };
            let q = dsp_sample_rate / d;
            r == if q < 1000 { 1000 } else { q }
        }),
{
    let d = if decimation < 1 { 1 } else { decimation };
    let q = dsp_sample_rate / d;
    if q < 1000 { 1000 } else { q }
}

/// Columns the waterfall history holds: the stated count inside
/// `256..=16384`, or, when none is stated, the transform size, doubled when
/// the magnification widens the transform, inside `1024..=16384`.
pub fn waterfall_columns(stated: u32, zoom_resolution: bool, fft_size: u32) -> (r: u32)
    requires
        fft_size as nat * 2 <= u32::MAX,
    ensures
        stated > 0 ==> r == (if stated < 256 { 256 } else if stated > 16384 { 16384 } else { stated }),
        stated == 0 ==> ({
            let w = fft_size as nat * if zoom_resolution { 2nat } else { 1nat };
            r == (if w < 1024 { 1024 } else if w > 16384 { 16384 } else { w })
        }),
{
    if stated > 0 {
        return if stated < 256 { 256 } else if stated > 16384 { 16384 } else { stated };
    }
    let boost: u32 = if zoom_resolution { 2 } else { 1 };
    let w = fft_size * boost;
    if w < 1024 { 1024 } else if w > 16384 { 16384 } else { w }
}

} // verus!
