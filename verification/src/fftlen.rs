//! Transform sizing for FFT-based linear convolution.
//!
//! Linear convolution of a signal of length `n` with a kernel of length `m`
//! produces `n + m - 1` samples. Performing it through a circular transform
//! is exact on that range only when the transform is at least that long; the
//! engine zero-pads both operands to the smallest power of two that is.

use vstd::prelude::*;

verus! {

/// Whether `n` is a power of two.
pub open spec fn is_pow2(n: nat) -> bool
    decreases n,
{
    if n == 0 {
        false
    } else if n == 1 {
        true
    } else {
        n % 2 == 0 && is_pow2(n / 2)
    }
}

proof fn lemma_pow2_positive(n: nat)
    requires
        is_pow2(n),
    ensures
        n >= 1,
{
}

/// Of two powers of two, the larger is at least double the smaller.
proof fn lemma_pow2_gap(small: nat, large: nat)
    requires
        is_pow2(small),
        is_pow2(large),
        large > small,
    ensures
        large >= 2 * small,
    decreases small,
{
    if small == 1 {
        assert(large % 2 == 0);
    } else {
        lemma_pow2_gap(small / 2, large / 2);
    }
}

/// The length of the linear convolution of a signal of `signal_len` samples
/// with a kernel of `kernel_len` taps.
pub fn conv_output_len(signal_len: usize, kernel_len: usize) -> (r: usize)
    requires
        kernel_len >= 1,
        signal_len <= usize::MAX - kernel_len + 1,
    ensures
        r == signal_len + kernel_len - 1,
{
    signal_len + (kernel_len - 1)
}

/// The smallest power of two that is at least `n`.
pub fn next_pow2_at_least(n: usize) -> (r: usize)
    requires
        n <= usize::MAX / 2 + 1,
    ensures
        is_pow2(r as nat),
        r >= n,
        forall|m: nat| is_pow2(m) && m >= n ==> m >= r,
{
    let mut r: usize = 1;
    while r < n
        invariant
            n <= usize::MAX / 2 + 1,
            1 <= r,
            is_pow2(r as nat),
            r < n ==> r <= usize::MAX / 2,
            forall|m: nat| is_pow2(m) && m >= n ==> m >= r,
        decreases 2 * n - r,
    {
        assert forall|m: nat| is_pow2(m) && m >= n implies m >= 2 * r by {
            lemma_pow2_gap(r as nat, m);
        }
        r = r * 2;
    }
    r
}

/// The transform length for convolving `signal_len` samples with
/// `kernel_len` taps: the smallest power of two holding the whole linear
/// convolution, so that the circular wraparound tail is guaranteed absent.
pub fn fft_len_for(signal_len: usize, kernel_len: usize) -> (r: usize)
    requires
        kernel_len >= 1,
        signal_len <= usize::MAX - kernel_len + 1,
        signal_len + kernel_len - 1 <= usize::MAX / 2 + 1,
    ensures
        is_pow2(r as nat),
        r >= signal_len + kernel_len - 1,
        forall|m: nat| is_pow2(m) && m >= signal_len + kernel_len - 1 ==> m >= r,
{
    let out_len = conv_output_len(signal_len, kernel_len);
    next_pow2_at_least(out_len)
}

} // verus!
