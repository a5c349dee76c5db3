use audio_tap::sample::{
    has_signal, peak_amplitude, quantize_sample, wav_spec_from_config, write_input_data,
    CaptureConfig, CaptureSession, DEFAULT_GAIN, DEFAULT_SILENCE_THRESHOLD, MINUS_ONE_BITS,
    ONE_BITS, PCM_MAX, PCM_MIN,
};
use audio_tap::error::AudioError;
use std::io::Cursor;

fn bits(samples: &[f32]) -> Vec<u32> {
    samples.iter().map(|s| s.to_bits()).collect()
}

#[test]
fn full_scale_positive_maps_to_max() {
    assert_eq!(ONE_BITS, 1.0f32.to_bits());
    for gain in [1u16, 2, 10, 65535] {
        assert_eq!(quantize_sample(ONE_BITS, gain), PCM_MAX);
    }
}

#[test]
fn full_scale_negative_maps_to_min() {
    assert_eq!(MINUS_ONE_BITS, (-1.0f32).to_bits());
    for gain in [1u16, 2, 10, 65535] {
        assert_eq!(quantize_sample(MINUS_ONE_BITS, gain), PCM_MIN);
    }
    assert_eq!(quantize_sample((-0.1f32).to_bits(), 10), PCM_MIN);
    assert_eq!(quantize_sample((-1.5f32).to_bits(), 1), PCM_MIN);
}

#[test]
fn quantization_truncates_toward_zero() {
    assert_eq!(quantize_sample(0.5f32.to_bits(), 1), 16384);
    assert_eq!(quantize_sample((-0.5f32).to_bits(), 1), -16384);
    assert_eq!(quantize_sample(0.25f32.to_bits(), 3), 24576);
    assert_eq!(quantize_sample(0.01f32.to_bits(), 10), 3276);
    assert_eq!(quantize_sample(0.0f32.to_bits(), 10), 0);
    assert_eq!(quantize_sample((-0.0f32).to_bits(), 10), 0);
}

#[test]
fn out_of_range_values_clamp() {
    assert_eq!(quantize_sample(3.0f32.to_bits(), 1), PCM_MAX);
    assert_eq!(quantize_sample((-3.0f32).to_bits(), 1), PCM_MIN);
    assert_eq!(quantize_sample(1.0e30f32.to_bits(), 1), PCM_MAX);
    assert_eq!(quantize_sample(f32::INFINITY.to_bits(), 1), PCM_MAX);
    assert_eq!(quantize_sample(f32::NEG_INFINITY.to_bits(), 1), PCM_MIN);
    assert_eq!(quantize_sample(f32::NAN.to_bits(), 10), 0);
    assert_eq!(quantize_sample(f32::INFINITY.to_bits(), 0), 0);
}

#[test]
fn tiny_values_quantize_to_zero() {
    assert_eq!(quantize_sample(1.0e-20f32.to_bits(), 10), 0);
    assert_eq!(quantize_sample(f32::from_bits(1).to_bits(), 65535), 0);
}

#[test]
fn peak_ignores_sign_and_nan() {
    let input = bits(&[0.1, -0.7, f32::NAN, 0.3]);
    assert_eq!(peak_amplitude(&input), 0.7f32.to_bits());
    assert_eq!(peak_amplitude(&[]), 0);
    assert_eq!(peak_amplitude(&bits(&[f32::NAN])), 0);
}

#[test]
fn gate_compares_peak_with_threshold() {
    assert_eq!(DEFAULT_SILENCE_THRESHOLD, 1.0e-5f32.to_bits());
    assert!(!has_signal(&bits(&[1.0e-6, -2.0e-6, 0.0]), DEFAULT_SILENCE_THRESHOLD));
    assert!(has_signal(&bits(&[1.0e-6, -2.0e-5, 0.0]), DEFAULT_SILENCE_THRESHOLD));
    assert!(!has_signal(&bits(&[1.0e-5]), DEFAULT_SILENCE_THRESHOLD));
    assert!(!has_signal(&bits(&[f32::NAN]), DEFAULT_SILENCE_THRESHOLD));
}

#[test]
fn write_input_data_appends_quantized_samples() {
    let mut out = vec![7i16];
    write_input_data(&bits(&[0.5, -0.25, 2.0]), 1, &mut out);
    assert_eq!(out, vec![7, 16384, -8192, 32767]);
}

#[test]
fn near_silent_buffer_writes_nothing() {
    let config = CaptureConfig { sample_rate: 48000, channels: 2 };
    let mut session = CaptureSession::open(config, DEFAULT_GAIN, DEFAULT_SILENCE_THRESHOLD);
    let quiet: Vec<f32> = (0..480).map(|i| if i % 2 == 0 { 1.0e-7 } else { -3.0e-6 }).collect();
    let written = session.on_data(&bits(&quiet));
    assert!(written.is_empty());
    assert_eq!(session.samples_written, 0);
}

#[test]
fn wav_format_follows_config() {
    let f = wav_spec_from_config(&CaptureConfig { sample_rate: 44100, channels: 1 });
    assert_eq!((f.channels, f.sample_rate, f.bits_per_sample), (1, 44100, 16));
}

#[test]
fn buffer_of_480_samples_round_trips_through_wav() {
    let config = CaptureConfig { sample_rate: 48000, channels: 2 };
    let mut session = CaptureSession::open(config, 1, DEFAULT_SILENCE_THRESHOLD);
    let input: Vec<f32> = (0..480).map(|i| if i % 2 == 0 { 0.5 } else { -0.5 }).collect();
    let samples = session.on_data(&bits(&input));
    assert_eq!(samples.len(), 480);
    assert_eq!(session.close(), Ok(480));

    let format = session.format();
    let spec = hound::WavSpec {
        channels: format.channels,
        sample_rate: format.sample_rate,
        bits_per_sample: format.bits_per_sample,
        sample_format: hound::SampleFormat::Int,
    };
    let mut cursor = Cursor::new(Vec::new());
    {
        let mut writer = hound::WavWriter::new(&mut cursor, spec).unwrap();
        for s in &samples {
            writer.write_sample(*s).unwrap();
        }
        writer.finalize().unwrap();
    }
    cursor.set_position(0);
    let mut reader = hound::WavReader::new(cursor).unwrap();
    assert_eq!(reader.spec().channels, 2);
    assert_eq!(reader.spec().sample_rate, 48000);
    let read: Vec<i16> = reader.samples::<i16>().map(|s| s.unwrap()).collect();
    assert_eq!(read.len(), 480);
    assert_eq!(read[0], 16384);
    assert_eq!(read[1], -16384);
}

#[test]
fn closed_session_forwards_nothing_and_cannot_close_again() {
    let config = CaptureConfig { sample_rate: 16000, channels: 1 };
    let mut session = CaptureSession::open(config, DEFAULT_GAIN, DEFAULT_SILENCE_THRESHOLD);
    assert_eq!(session.on_data(&bits(&[0.5, 0.5])).len(), 2);
    assert_eq!(session.close(), Ok(2));
    assert!(session.on_data(&bits(&[0.5])).is_empty());
    assert_eq!(session.close(), Err(AudioError::NotStarted));
    assert_eq!(session.samples_written, 2);
}

#[test]
fn quiet_buffer_forwards_nothing_at_any_gain() {
    let config = CaptureConfig { sample_rate: 8000, channels: 1 };
    let quiet = bits(&[9.0e-6, -9.9e-6, f32::NAN, 0.0]);
    for gain in [1u16, 10, 65535] {
        let mut session = CaptureSession::open(config, gain, DEFAULT_SILENCE_THRESHOLD);
        assert!(session.on_data(&quiet).is_empty());
    }
}

#[test]
fn quantization_keeps_sample_order() {
    let values: [f32; 11] = [f32::NEG_INFINITY, -2.0, -1.0, -0.5, -1.0e-30, -0.0, 0.0, 1.0e-9, 0.25, 1.0, f32::INFINITY];
    for gain in [0u16, 1, 10] {
        let q: Vec<i16> = values.iter().map(|v| quantize_sample(v.to_bits(), gain)).collect();
        for w in q.windows(2) {
            assert!(w[0] <= w[1], "gain {}: {:?}", gain, q);
        }
    }
}
