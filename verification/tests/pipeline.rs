use audiopipe::AudioError;
use audiopipe::DenoiseMethod;
use audiopipe::FramePipeline;
use audiopipe::Phase;
use audiopipe::SourceFormat;

#[test]
fn round_trip_two_channels() {
    let interleaved: Vec<f32> = vec![0.1, -0.2, 0.3, -0.4, 0.5, -0.6];
    let planar = audiopipe::deinterleave(&interleaved, 2).unwrap();
    assert_eq!(planar.len(), 2);
    assert_eq!(planar[0], vec![0.1, 0.3, 0.5]);
    assert_eq!(planar[1], vec![-0.2, -0.4, -0.6]);
    let back = audiopipe::interleave(&planar);
    assert_eq!(back, interleaved);
}

#[test]
fn round_trip_single_channel() {
    let interleaved: Vec<i64> = vec![7, 8, 9];
    let planar = audiopipe::deinterleave(&interleaved, 1).unwrap();
    let back = audiopipe::interleave(&planar);
    assert_eq!(back, interleaved);
}

#[test]
fn malformed_stream_rejected() {
    let interleaved: Vec<f32> = vec![0.0, 1.0, 2.0, 3.0, 4.0];
    let r = audiopipe::deinterleave(&interleaved, 2);
    assert_eq!(r, Err(AudioError::MalformedInput));
}

#[test]
fn zero_channels_rejected() {
    let interleaved: Vec<f32> = vec![];
    let r = audiopipe::deinterleave(&interleaved, 0);
    assert_eq!(r, Err(AudioError::MalformedInput));
}

#[test]
fn clamping_saturates_never_wraps() {
    assert_eq!(audiopipe::clamp_to_i16(40000), 32767);
    assert_eq!(audiopipe::clamp_to_i16(-40000), -32768);
    assert_eq!(audiopipe::clamp_to_i16(32767), 32767);
    assert_eq!(audiopipe::clamp_to_i16(-32768), -32768);
    assert_eq!(audiopipe::clamp_to_i16(123), 123);
    assert_eq!(audiopipe::clamp_to_i16(-123), -123);
}

#[test]
fn sample_bytes_little_endian() {
    assert_eq!(audiopipe::sample_le_bytes(0x1234), (0x34, 0x12));
    assert_eq!(audiopipe::sample_le_bytes(-2), (0xfe, 0xff));
    assert_eq!(audiopipe::sample_le_bytes(0), (0, 0));
}

#[test]
fn frame_encoding_clamps_and_serializes() {
    let samples: Vec<i64> = vec![0, 1, -1, 32767, -32768, 100000, -100000];
    let bytes = audiopipe::encode_frame_le(&samples);
    let expected: Vec<u8> = vec![
        0x00, 0x00, 0x01, 0x00, 0xff, 0xff, 0xff, 0x7f, 0x00, 0x80, 0xff, 0x7f, 0x00, 0x80,
    ];
    assert_eq!(bytes, expected);
}

#[test]
fn convolution_sizing() {
    assert_eq!(audiopipe::conv_output_len(3, 3), 5);
    assert_eq!(audiopipe::next_pow2_at_least(5), 8);
    assert_eq!(audiopipe::next_pow2_at_least(1), 1);
    assert_eq!(audiopipe::next_pow2_at_least(0), 1);
    assert_eq!(audiopipe::next_pow2_at_least(8), 8);
    assert_eq!(audiopipe::fft_len_for(3, 3), 8);
    assert_eq!(audiopipe::fft_len_for(1000, 1025), 2048);
}

#[test]
fn resampler_identity_ratio_is_pass_through() {
    let mut phase = Phase::new(48000, 48000);
    for _ in 0..100 {
        assert_eq!(phase.advance(), 1);
        assert_eq!(phase.numerator(), 0);
    }
}

#[test]
fn resampler_consumes_at_rational_rate() {
    let mut phase = Phase::new(44100, 48000);
    let mut consumed: u64 = 0;
    for n in 1..=480u64 {
        consumed += phase.advance();
        assert_eq!(consumed, n * 44100 / 48000);
        assert_eq!(phase.numerator(), n * 44100 % 48000);
    }
    assert_eq!(consumed, 441);
}

#[test]
fn frame_pipeline_one_frame_is_warmup_only() {
    let mut pipe: FramePipeline<f32> = FramePipeline::new(2, 4);
    let mut completed = Vec::new();
    for i in 0..4 {
        let sample = vec![i as f32, -(i as f32)];
        if let Some(frame) = pipe.push(&sample) {
            completed.push(frame);
        }
    }
    assert_eq!(completed.len(), 1);
    let denoised = completed.pop().unwrap();
    let out = pipe.accept_denoised(denoised);
    assert_eq!(out, None);
}

#[test]
fn frame_pipeline_two_frames_emit_first() {
    let mut pipe: FramePipeline<f32> = FramePipeline::new(2, 4);
    let mut written: Vec<Vec<f32>> = Vec::new();
    for i in 0..8 {
        let sample = vec![i as f32, 100.0 + i as f32];
        if let Some(frame) = pipe.push(&sample) {
            if let Some(out) = pipe.accept_denoised(frame) {
                written.push(out);
            }
        }
    }
    assert_eq!(written.len(), 1);
    let expected: Vec<f32> = vec![0.0, 100.0, 1.0, 101.0, 2.0, 102.0, 3.0, 103.0];
    assert_eq!(written[0], expected);
}

#[test]
fn frame_pipeline_drops_undersized_tail() {
    let mut pipe: FramePipeline<i64> = FramePipeline::new(1, 4);
    let mut frames = 0;
    for i in 0..11 {
        if pipe.push(&vec![i]).is_some() {
            frames += 1;
        }
    }
    assert_eq!(frames, 2);
}

#[test]
fn partial_frame_decisions() {
    assert_eq!(audiopipe::partial_frame_check(2, 2), Ok(true));
    assert_eq!(audiopipe::partial_frame_check(0, 2), Ok(false));
    assert_eq!(
        audiopipe::partial_frame_check(1, 2),
        Err(AudioError::MalformedInput)
    );
}

#[test]
fn method_selector() {
    assert_eq!(audiopipe::parse_method("fir"), Ok(DenoiseMethod::Fir));
    assert_eq!(audiopipe::parse_method("rnn"), Ok(DenoiseMethod::Rnn));
    assert_eq!(
        audiopipe::parse_method("gate"),
        Err(AudioError::InvalidParameter)
    );
    assert_eq!(
        audiopipe::parse_method(""),
        Err(AudioError::InvalidParameter)
    );
}

#[test]
fn format_dispatch() {
    assert_eq!(audiopipe::detect_format("take.wav"), Ok(SourceFormat::Wav));
    assert_eq!(audiopipe::detect_format("take.ogg"), Ok(SourceFormat::Ogg));
    assert_eq!(audiopipe::detect_format("take.mp4"), Ok(SourceFormat::Mp4));
    assert_eq!(
        audiopipe::detect_format("take.txt"),
        Err(AudioError::InvalidParameter)
    );
    assert_eq!(
        audiopipe::detect_format("wav"),
        Err(AudioError::InvalidParameter)
    );
}

#[test]
fn bit_depth_normalization() {
    assert_eq!(audiopipe::scale_int_sample(100, 16), Ok(100));
    assert_eq!(audiopipe::scale_int_sample(-100, 16), Ok(-100));
    assert_eq!(audiopipe::scale_int_sample(1, 8), Ok(256));
    assert_eq!(audiopipe::scale_int_sample(-1, 8), Ok(-256));
    assert_eq!(audiopipe::scale_int_sample(300, 24), Ok(1));
    assert_eq!(audiopipe::scale_int_sample(-300, 24), Ok(-2));
    assert_eq!(audiopipe::scale_int_sample(-256, 24), Ok(-1));
    assert_eq!(
        audiopipe::scale_int_sample(5, 33),
        Err(AudioError::UnsupportedBitDepth)
    );
}

#[test]
fn denoise_constants() {
    assert_eq!(audiopipe::DENOISE_TARGET_RATE, 48000);
    assert_eq!(audiopipe::DENOISE_FRAME_SIZE, 480);
    assert_eq!(
        audiopipe::DENOISE_FRAME_SIZE,
        nnnoiseless::DenoiseState::FRAME_SIZE
    );
}

#[test]
fn error_descriptions() {
    assert_eq!(
        AudioError::MalformedInput.describe(),
        "malformed input stream"
    );
    assert_eq!(
        AudioError::UnsupportedBitDepth.describe(),
        "unsupported bit depth"
    );
    assert_eq!(AudioError::IoFailure.describe(), "i/o failure");
    assert_eq!(
        AudioError::InvalidParameter.describe(),
        "invalid parameter"
    );
}

#[test]
fn resampler_upsampling_pull_pattern() {
    let mut phase = Phase::new(16000, 48000);
    let pulls: Vec<u64> = (0..6).map(|_| phase.advance()).collect();
    assert_eq!(pulls, vec![0, 0, 1, 0, 0, 1]);
}

#[test]
fn empty_stream_round_trip() {
    let empty: Vec<f32> = vec![];
    let planar = audiopipe::deinterleave(&empty, 2).unwrap();
    assert_eq!(planar, vec![Vec::<f32>::new(), Vec::<f32>::new()]);
    assert_eq!(audiopipe::interleave(&planar), empty);
    assert_eq!(audiopipe::encode_frame_le(&vec![]), Vec::<u8>::new());
}
