//! Reshaping interleaved multi-channel PCM into per-channel planar buffers
//! and back.
//!
//! An interleaved stream is channel-major within each frame: sample `k`
//! belongs to frame `k / channels` and channel `k % channels`. A stream
//! whose length is not a multiple of the channel count is malformed and is
//! rejected, never silently truncated.

use vstd::prelude::*;

use vstd::arithmetic::div_mod::lemma_fundamental_div_mod;
use vstd::arithmetic::div_mod::lemma_fundamental_div_mod_converse;

use crate::errors::AudioError;

verus! {

/// The planar (per-channel) reshaping of the interleaved stream `s` over
/// `ch` channels: channel `j` holds `s[0 * ch + j], s[1 * ch + j], ...`.
pub open spec fn deinterleaved<T>(s: Seq<T>, ch: int) -> Seq<Seq<T>>
    recommends
        ch > 0,
        s.len() % (ch as nat) == 0,
{
    Seq::new(ch as nat, |j: int| Seq::new(s.len() / (ch as nat), |i: int| s[i * ch + j]))
}

/// The interleaved stream of the planar buffers `p`, channel-major within
/// each frame: output sample `k` is `p[k % ch][k / ch]`.
pub open spec fn interleaved<T>(p: Seq<Seq<T>>) -> Seq<T>
    recommends
        p.len() > 0,
        forall|j: int| 0 <= j < p.len() ==> (#[trigger] p[j]).len() == p[0].len(),
{
    let ch = p.len() as int;
    let frames = if p.len() == 0 {
        0
    } else {
        p[0].len()
    };
    Seq::new((ch * frames) as nat, |k: int| p[k % ch][k / ch])
}

/// Reshape an interleaved stream into per-channel planar buffers.
/// Fails with `MalformedInput`, and only then, when the stream's length is
/// not a multiple of the channel count (or the channel count is zero).
pub fn deinterleave<T: Copy>(samples: &Vec<T>, channels: usize) -> (r: Result<
    Vec<Vec<T>>,
    AudioError,
>)
    ensures
        match r {
            Ok(planar) => {
                &&& channels > 0
                &&& samples@.len() % (channels as nat) == 0
                &&& planar@.len() == channels
                &&& forall|j: int|
                    0 <= j < channels ==> (#[trigger] planar@[j])@ == deinterleaved(
                        samples@,
                        channels as int,
                    )[j]
            },
            Err(e) => {
                &&& e == AudioError::MalformedInput
                &&& (channels == 0 || samples@.len() % (channels as nat) != 0)
            },
        },
{
    if channels == 0 || samples.len() % channels != 0 {
        return Err(AudioError::MalformedInput);
    }
    let total_len = samples.len();
    let frames = samples.len() / channels;
    proof {
        lemma_fundamental_div_mod(samples@.len() as int, channels as int);
    }
    let mut planar: Vec<Vec<T>> = Vec::new();
    let mut j: usize = 0;
    while j < channels
        invariant
            channels > 0,
            total_len == samples@.len(),
            frames == samples@.len() / (channels as nat),
            samples@.len() == (channels as int) * (frames as int),
            j <= channels,
            planar@.len() == j,
            forall|jj: int|
                0 <= jj < j ==> (#[trigger] planar@[jj])@ == deinterleaved(
                    samples@,
                    channels as int,
                )[jj],
        decreases channels - j,
    {
        let mut column: Vec<T> = Vec::new();
        let mut i: usize = 0;
        while i < frames
            invariant
                channels > 0,
                j < channels,
                total_len == samples@.len(),
                frames == samples@.len() / (channels as nat),
                samples@.len() == (channels as int) * (frames as int),
                i <= frames,
                column@.len() == i,
                forall|ii: int| 0 <= ii < i ==> column@[ii] == samples@[ii * channels + j],
            decreases frames - i,
        {
            proof {
                assert((i as int) * (channels as int) + (j as int) < (channels as int) * (
                frames as int)) by (nonlinear_arith)
                    requires
                        0 <= i < frames as int,
                        0 <= j < channels as int,
                ;
                assert((i as int) * (channels as int) + (j as int) < total_len as int);
            }
            column.push(samples[i * channels + j]);
            i = i + 1;
        }
        proof {
            assert(column@ =~= deinterleaved(samples@, channels as int)[j as int]);
        }
        planar.push(column);
        j = j + 1;
    }
    Ok(planar)
}

/// Interleave per-channel planar buffers of equal length back into one
/// channel-major stream.
pub fn interleave<T: Copy>(planar: &Vec<Vec<T>>) -> (r: Vec<T>)
    requires
        planar@.len() > 0,
        forall|j: int|
            0 <= j < planar@.len() ==> (#[trigger] planar@[j])@.len() == planar@[0]@.len(),
        planar@.len() * planar@[0]@.len() <= usize::MAX,
    ensures
        r@ == interleaved(planar@.map_values(|v: Vec<T>| v@)),
        r@.len() == planar@.len() * planar@[0]@.len(),
        forall|i: int, j: int|
            0 <= i < planar@[0]@.len() && 0 <= j < planar@.len() ==> r@[i * planar@.len() + j]
                == (#[trigger] planar@[j]@[i]),
{
    let channels = planar.len();
    let frames = planar[0].len();
    proof {
        assert((channels as int) * (frames as int) <= usize::MAX);
    }
    let total = channels * frames;
    let ghost p = planar@.map_values(|v: Vec<T>| v@);
    let mut out: Vec<T> = Vec::new();
    let mut k: usize = 0;
    while k < total
        invariant
            channels == planar@.len(),
            channels > 0,
            frames == planar@[0]@.len(),
            forall|j: int| 0 <= j < channels ==> (#[trigger] planar@[j])@.len() == frames,
            total == (channels as int) * (frames as int),
            p == planar@.map_values(|v: Vec<T>| v@),
            k <= total,
            out@.len() == k,
            forall|kk: int|
                0 <= kk < k ==> out@[kk] == (#[trigger] p[kk % (channels as int)])[kk / (
                channels as int)],
        decreases total - k,
    {
        proof {
            assert((k as int) / (channels as int) < frames as int) by (nonlinear_arith)
                requires
                    0 <= k < (channels as int) * (frames as int),
                    channels as int > 0,
            ;
        }
        out.push(planar[k % channels][k / channels]);
        k = k + 1;
    }
    proof {
        assert(out@ =~= interleaved(p));
        assert forall|i: int, j: int|
            0 <= i < frames as int && 0 <= j < channels as int implies out@[i * channels + j] == (
        planar@[j]@[i]) by {
            lemma_fundamental_div_mod_converse(i * channels + j, channels as int, i, j);
            assert(0 <= i * channels + j < (channels as int) * (frames as int))
                by (nonlinear_arith)
                requires
                    0 <= i < frames as int,
                    0 <= j < channels as int,
            ;
        }
    }
    out
}

/// Deinterleaving an interleaved stream and interleaving the result
/// reproduces the original stream exactly.
pub proof fn lemma_interleave_deinterleave<T>(s: Seq<T>, ch: int)
    requires
        ch > 0,
        s.len() % (ch as nat) == 0,
    ensures
        interleaved(deinterleaved(s, ch)) == s,
{
    let p = deinterleaved(s, ch);
    let frames = s.len() / (ch as nat);
    lemma_fundamental_div_mod(s.len() as int, ch);
    assert forall|k: int| 0 <= k < s.len() implies p[k % ch][k / ch] == s[k] by {
        let i = k / ch;
        let j = k % ch;
        lemma_fundamental_div_mod(k, ch);
        assert(i < frames as int) by (nonlinear_arith)
            requires
                k == ch * i + j,
                0 <= j < ch,
                k < ch * (frames as int),
                ch > 0,
                i >= 0,
        ;
        assert(p[j][i] == s[i * ch + j]);
    }
    assert(interleaved(p) =~= s);
}

} // verus!
