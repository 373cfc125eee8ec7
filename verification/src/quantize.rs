//! Quantization of wide samples to the 16-bit signed output range, and the
//! little-endian byte layout used by the raw frame writer.
//!
//! The floating-point half of the frame writer (rounding a real-valued sample
//! to an integer) happens outside the core; the core receives the rounded
//! value as a wide integer and owns the clamping and serialization.

use vstd::prelude::*;

verus! {

/// The value of `x` clamped to the representable signed 16-bit sample range.
pub open spec fn clamped16(x: int) -> int {
    if x < -32768 {
        -32768
    } else if x > 32767 {
        32767
    } else {
        x
    }
}

/// Low byte of the little-endian two's-complement layout of a 16-bit sample.
pub open spec fn le_low_byte(s: int) -> int
    recommends
        -32768 <= s <= 32767,
{
    (if s < 0 {
        s + 65536
    } else {
        s
    }) % 256
}

/// High byte of the little-endian two's-complement layout of a 16-bit sample.
pub open spec fn le_high_byte(s: int) -> int
    recommends
        -32768 <= s <= 32767,
{
    (if s < 0 {
        s + 65536
    } else {
        s
    }) / 256
}

/// Clamp a wide rounded sample to the 16-bit output range. A value exceeding
/// the representable range is written as the boundary value, never wrapped.
pub fn clamp_to_i16(x: i64) -> (r: i16)
    ensures
        r as int == clamped16(x as int),
{
    if x < -32768 {
        -32768
    } else if x > 32767 {
        32767
    } else {
        x as i16
    }
}

/// The little-endian byte pair of one 16-bit sample.
pub fn sample_le_bytes(s: i16) -> (r: (u8, u8))
    ensures
        r.0 as int == le_low_byte(s as int),
        r.1 as int == le_high_byte(s as int),
{
    let wide: i32 = s as i32;
    let unsigned: i32 = if wide < 0 {
        wide + 65536
    } else {
        wide
    };
    ((unsigned % 256) as u8, (unsigned / 256) as u8)
}

/// Quantize a frame of wide rounded samples into interleaved little-endian
/// 16-bit PCM bytes, clamping each sample to the representable range.
pub fn encode_frame_le(samples: &Vec<i64>) -> (r: Vec<u8>)
    ensures
        r@.len() == 2 * samples@.len(),
        forall|i: int|
            0 <= i < samples@.len() ==> r@[2 * i] as int == le_low_byte(
                clamped16(samples@[i] as int),
            ),
        forall|i: int|
            0 <= i < samples@.len() ==> r@[2 * i + 1] as int == le_high_byte(
                clamped16(samples@[i] as int),
            ),
{
    let mut out: Vec<u8> = Vec::new();
    let mut i: usize = 0;
    while i < samples.len()
        invariant
            i <= samples@.len(),
            out@.len() == 2 * i,
            forall|k: int|
                0 <= k < i ==> out@[2 * k] as int == le_low_byte(clamped16(samples@[k] as int)),
            forall|k: int|
                0 <= k < i ==> out@[2 * k + 1] as int == le_high_byte(
                    clamped16(samples@[k] as int),
                ),
        decreases samples@.len() - i,
    {
        let clamped = clamp_to_i16(samples[i]);
        let (lo, hi) = sample_le_bytes(clamped);
        out.push(lo);
        out.push(hi);
        i = i + 1;
    }
    out
}

} // verus!
