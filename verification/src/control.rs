//! Caller-facing decisions of the pipeline: the denoise-method selector,
//! the source-format dispatch, and the normalization of integer samples of
//! an arbitrary bit depth to the 16-bit working scale of the denoise path.

use vstd::prelude::*;

use vstd::arithmetic::div_mod::lemma_fundamental_div_mod;
use vstd::arithmetic::div_mod::lemma_mod_bound;
use vstd::arithmetic::power2::lemma2_to64;
use vstd::arithmetic::power2::lemma_pow2_strictly_increases;
use vstd::arithmetic::power2::lemma_pow2_unfold;
use vstd::arithmetic::power2::pow2;

use vstd::string::StrSliceExecFns;

use crate::errors::AudioError;

verus! {

/// The fixed processing rate of the denoise path, in Hz. Whatever the
/// source rate, the denoise path resamples to this rate and its output is
/// written at it.
pub const DENOISE_TARGET_RATE: u32 = 48000;

/// The frame size of the external block-denoise model, in samples per
/// channel.
pub const DENOISE_FRAME_SIZE: usize = 480;

/// The two noise-suppression strategies a caller may select.
#[derive(Clone, Copy, Debug, PartialEq, Eq, Structural)]
pub enum DenoiseMethod {
    /// Band-pass finite-impulse-response filtering via FFT convolution.
    Fir,
    /// The external per-frame noise-suppression model.
    Rnn,
}

/// Source container kinds the pipeline accepts.
#[derive(Clone, Copy, Debug, PartialEq, Eq, Structural)]
pub enum SourceFormat {
    Wav,
    Ogg,
    Mp4,
}

/// Parse the caller's denoise-method selector. Exactly `"fir"` and `"rnn"`
/// are recognized; anything else is rejected before any processing begins.
pub fn parse_method(selector: &str) -> (r: Result<DenoiseMethod, AudioError>)
    ensures
        r == Ok::<DenoiseMethod, AudioError>(DenoiseMethod::Fir) <==> selector@ == "fir"@,
        r == Ok::<DenoiseMethod, AudioError>(DenoiseMethod::Rnn) <==> selector@ == "rnn"@,
        r is Err <==> (selector@ != "fir"@ && selector@ != "rnn"@),
        r is Err ==> r == Err::<DenoiseMethod, AudioError>(AudioError::InvalidParameter),
{
    proof {
        reveal_strlit("fir");
        reveal_strlit("rnn");
    }
    let n = selector.unicode_len();
    if n == 3 {
        let c0 = selector.get_char(0);
        let c1 = selector.get_char(1);
        let c2 = selector.get_char(2);
        if c0 == 'f' && c1 == 'i' && c2 == 'r' {
            proof {
                assert(selector@ =~= "fir"@);
            }
            return Ok(DenoiseMethod::Fir);
        }
        if c0 == 'r' && c1 == 'n' && c2 == 'n' {
            proof {
                assert(selector@ =~= "rnn"@);
            }
            return Ok(DenoiseMethod::Rnn);
        }
    }
    proof {
        assert(selector@ != "fir"@) by {
            if selector@ == "fir"@ {
                assert(selector@[0] == 'f' && selector@[1] == 'i' && selector@[2] == 'r');
            }
        }
        assert(selector@ != "rnn"@) by {
            if selector@ == "rnn"@ {
                assert(selector@[0] == 'r' && selector@[1] == 'n' && selector@[2] == 'n');
            }
        }
    }
    Err(AudioError::InvalidParameter)
}

/// Whether `s` ends in the suffix `suf`.
pub open spec fn has_suffix(s: Seq<char>, suf: Seq<char>) -> bool {
    s.len() >= suf.len() && s.subrange(s.len() - suf.len(), s.len() as int) == suf
}

/// Dispatch a source path on its extension. Exactly the `.wav`, `.ogg` and
/// `.mp4` suffixes are recognized; any other path is rejected before any
/// processing begins.
pub fn detect_format(path: &str) -> (r: Result<SourceFormat, AudioError>)
    ensures
        r == Ok::<SourceFormat, AudioError>(SourceFormat::Wav) <==> has_suffix(path@, ".wav"@),
        r == Ok::<SourceFormat, AudioError>(SourceFormat::Ogg) <==> has_suffix(path@, ".ogg"@),
        r == Ok::<SourceFormat, AudioError>(SourceFormat::Mp4) <==> has_suffix(path@, ".mp4"@),
        r is Err <==> (!has_suffix(path@, ".wav"@) && !has_suffix(path@, ".ogg"@) && !has_suffix(
            path@,
            ".mp4"@,
        )),
        r is Err ==> r == Err::<SourceFormat, AudioError>(AudioError::InvalidParameter),
{
    proof {
        reveal_strlit(".wav");
        reveal_strlit(".ogg");
        reveal_strlit(".mp4");
    }
    let n = path.unicode_len();
    if n >= 4 {
        let c0 = path.get_char(n - 4);
        let c1 = path.get_char(n - 3);
        let c2 = path.get_char(n - 2);
        let c3 = path.get_char(n - 1);
        let ghost tail = path@.subrange(path@.len() - 4, path@.len() as int);
        proof {
            assert(tail[0] == c0 && tail[1] == c1 && tail[2] == c2 && tail[3] == c3);
        }
        if c0 == '.' && c1 == 'o' && c2 == 'g' && c3 == 'g' {
            proof {
                assert(tail =~= ".ogg"@);
            }
            return Ok(SourceFormat::Ogg);
        }
        if c0 == '.' && c1 == 'm' && c2 == 'p' && c3 == '4' {
            proof {
                assert(tail =~= ".mp4"@);
            }
            return Ok(SourceFormat::Mp4);
        }
        if c0 == '.' && c1 == 'w' && c2 == 'a' && c3 == 'v' {
            proof {
                assert(tail =~= ".wav"@);
            }
            return Ok(SourceFormat::Wav);
        }
        proof {
            assert(!has_suffix(path@, ".ogg"@) && !has_suffix(path@, ".mp4"@) && !has_suffix(
                path@,
                ".wav"@,
            )) by {
                if has_suffix(path@, ".ogg"@) {
                    assert(tail == ".ogg"@);
                    assert(tail[0] == '.' && tail[1] == 'o' && tail[2] == 'g' && tail[3] == 'g');
                }
                if has_suffix(path@, ".mp4"@) {
                    assert(tail == ".mp4"@);
                    assert(tail[0] == '.' && tail[1] == 'm' && tail[2] == 'p' && tail[3] == '4');
                }
                if has_suffix(path@, ".wav"@) {
                    assert(tail == ".wav"@);
                    assert(tail[0] == '.' && tail[1] == 'w' && tail[2] == 'a' && tail[3] == 'v');
                }
            }
        }
        return Err(AudioError::InvalidParameter);
    }
    Err(AudioError::InvalidParameter)
}

/// The 16-bit working-scale value of an integer sample of depth `bits`:
/// shallow samples are widened by a power of two, deep samples are narrowed
/// by flooring division (an arithmetic shift), and 16-bit samples pass
/// through unchanged.
pub open spec fn scaled_to_16(s: int, bits: int) -> int
    recommends
        1 <= bits <= 32,
{
    if bits < 16 {
        s * pow2((16 - bits) as nat)
    } else {
        s / (pow2((bits - 16) as nat) as int)
    }
}

fn pow2_u32(k: u32) -> (r: u32)
    requires
        k <= 16,
    ensures
        r == pow2(k as nat),
{
    proof {
        lemma2_to64();
    }
    let mut r: u32 = 1;
    let mut i: u32 = 0;
    while i < k
        invariant
            i <= k,
            k <= 16,
            r == pow2(i as nat),
        decreases k - i,
    {
        proof {
            lemma_pow2_unfold((i + 1) as nat);
            lemma_pow2_strictly_increases(i as nat, 16);
            lemma2_to64();
        }
        r = r * 2;
        i = i + 1;
    }
    r
}

/// Normalize one integer sample of depth `bits` to the 16-bit working
/// scale of the denoise path. A depth over 32 bits exceeds the engine's
/// precision and is rejected.
pub fn scale_int_sample(s: i32, bits: u16) -> (r: Result<i32, AudioError>)
    requires
        bits >= 1,
        bits <= 32 ==> -(pow2((bits - 1) as nat) as int) <= s as int && (s as int) < (pow2(
            (bits - 1) as nat,
        ) as int),
    ensures
        bits > 32 ==> r == Err::<i32, AudioError>(AudioError::UnsupportedBitDepth),
        bits <= 32 ==> r is Ok && r.unwrap() as int == scaled_to_16(s as int, bits as int),
{
    if bits > 32 {
        return Err(AudioError::UnsupportedBitDepth);
    }
    if bits < 16 {
        let k = 16 - bits;
        let factor = pow2_u32(k as u32) as i32;
        proof {
            lemma_pow2_strictly_increases((16 - bits) as nat, 16);
            lemma2_to64();
            assert(-((pow2((bits - 1) as nat) as int) * (pow2((16 - bits) as nat) as int)) <= (
            s as int) * (pow2((16 - bits) as nat) as int) <= (pow2((bits - 1) as nat) as int) * (
            pow2((16 - bits) as nat) as int)) by (nonlinear_arith)
                requires
                    -(pow2((bits - 1) as nat) as int) <= s as int <= pow2((bits - 1) as nat) as int,
                    pow2((16 - bits) as nat) as int > 0,
            ;
            vstd::arithmetic::power2::lemma_pow2_adds((bits - 1) as nat, (16 - bits) as nat);
        }
        Ok(s * factor)
    } else {
        let k = bits - 16;
        let d: u32 = pow2_u32(k as u32);
        proof {
            vstd::arithmetic::power2::lemma_pow2_pos((bits - 16) as nat);
        }
        if s >= 0 {
            let q = (s as u32) / d;
            Ok(q as i32)
        } else {
            let m: u32 = (-(s as i64)) as u32;
            let qm = m / d;
            let rm = m % d;
            let q: u32 = if rm == 0 {
                qm
            } else {
                qm + 1
            };
            proof {
                lemma2_to64();
                lemma_fundamental_div_mod(m as int, d as int);
                lemma_mod_bound(m as int, d as int);
                assert((qm as int) <= (m as int)) by (nonlinear_arith)
                    requires
                        (m as int) == (d as int) * (qm as int) + (rm as int),
                        d as int >= 1,
                        rm as int >= 0,
                        qm as int >= 0,
                ;
                if rm != 0 {
                    assert((qm as int) + 1 <= (m as int)) by (nonlinear_arith)
                        requires
                            (m as int) == (d as int) * (qm as int) + (rm as int),
                            d as int >= 1,
                            rm as int >= 1,
                            qm as int >= 0,
                    ;
                }
                if rm == 0 {
                    assert((s as int) == (d as int) * (-(qm as int)) + 0) by (nonlinear_arith)
                        requires
                            (m as int) == (d as int) * (qm as int) + 0,
                            (s as int) == -(m as int),
                    ;
                    lemma_div_converse_pair(s as int, d as int, -(qm as int), 0);
                } else {
                    assert((s as int) == (d as int) * (-(qm as int) - 1) + ((d as int) - (
                    rm as int))) by (nonlinear_arith)
                        requires
                            (m as int) == (d as int) * (qm as int) + (rm as int),
                            (s as int) == -(m as int),
                    ;
                    lemma_div_converse_pair(
                        s as int,
                        d as int,
                        -(qm as int) - 1,
                        (d as int) - (rm as int),
                    );
                }
            }
            let neg: i64 = -(q as i64);
            Ok(neg as i32)
        }
    }
}

proof fn lemma_div_converse_pair(x: int, d: int, q: int, r: int)
    requires
        d > 0,
        0 <= r < d,
        x == d * q + r,
    ensures
        x / d == q,
        x % d == r,
{
    assert(d * q == q * d) by (nonlinear_arith);
    vstd::arithmetic::div_mod::lemma_fundamental_div_mod_converse(x, d, q, r);
}

} // verus!
