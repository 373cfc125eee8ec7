//! Verified core of an audio noise-injection / noise-suppression pipeline.
//!
//! The library holds the structural logic of the pipeline: channel
//! deinterleaving and interleaving, FFT sizing for linear convolution,
//! sample quantization and clamping, the rational phase accumulator of the
//! sample-rate converter, and the frame bookkeeping of the block denoiser.
//! Floating-point signal arithmetic and container I/O live outside, in the
//! surrounding application, which hands this crate plain values.

mod channels;
mod control;
mod errors;
mod fftlen;
mod frames;
mod quantize;
mod resample;

pub use channels::deinterleave;
pub use channels::deinterleaved;
pub use channels::interleave;
pub use channels::interleaved;
pub use channels::lemma_interleave_deinterleave;
pub use control::detect_format;
pub use control::has_suffix;
pub use control::parse_method;
pub use control::scale_int_sample;
pub use control::scaled_to_16;
pub use control::DenoiseMethod;
pub use control::SourceFormat;
pub use control::DENOISE_FRAME_SIZE;
pub use control::DENOISE_TARGET_RATE;
pub use errors::AudioError;
pub use fftlen::conv_output_len;
pub use fftlen::fft_len_for;
pub use fftlen::is_pow2;
pub use fftlen::next_pow2_at_least;
pub use frames::full_frame_count;
pub use frames::lemma_pipeline_warmup_delay;
pub use frames::lemma_tail_dropped;
pub use frames::partial_frame_check;
pub use frames::pipeline_outputs;
pub use frames::FramePipeline;
pub use quantize::clamp_to_i16;
pub use quantize::clamped16;
pub use quantize::encode_frame_le;
pub use quantize::le_high_byte;
pub use quantize::le_low_byte;
pub use quantize::sample_le_bytes;
pub use resample::lemma_advance_run;
pub use resample::lemma_identity_ratio;
pub use resample::phase_after;
pub use resample::pulls_after;
pub use resample::Phase;
