use atvvoice::adpcm::{
    declip, decode_frame, lowpass, AdpcmDecoder, FRAME_SIZE, INDEX_TABLE, SAMPLES_PER_FRAME, STEP_TABLE,
};

/// Minimal IMA ADPCM encoder for round-trip testing.
/// Returns a 134-byte frame: 3B app header + 3B DVI header + 128B ADPCM data.
fn encode_samples(samples: &[i16], seq: u16) -> [u8; FRAME_SIZE] {
    assert!(samples.len() >= 257, "need at least 257 samples");

    let mut frame = [0u8; FRAME_SIZE];

    // App header: sequence ID (big-endian) + padding byte
    let seq_bytes = seq.to_be_bytes();
    frame[0] = seq_bytes[0];
    frame[1] = seq_bytes[1];
    frame[2] = 0x00;

    // DVI header: predictor (big-endian i16) + step_index
    let predictor = samples[0];
    let pred_bytes = predictor.to_be_bytes();
    frame[3] = pred_bytes[0];
    frame[4] = pred_bytes[1];
    // Pick an initial step_index that matches the signal amplitude.
    // Find the step size closest to the first sample-to-sample difference.
    let initial_diff = (samples[1] as i32 - samples[0] as i32).unsigned_abs() as i32;
    let mut init_step_index: i32 = 0;
    for (i, &step) in STEP_TABLE.iter().enumerate() {
        if step <= initial_diff {
            init_step_index = i as i32;
        } else {
            break;
        }
    }
    frame[5] = init_step_index as u8;

    // Encode 256 samples into 128 ADPCM bytes (high nibble first)
    let mut pred = predictor as i32;
    let mut step_index: i32 = init_step_index;

    let mut byte_idx = 6;
    let mut sample_idx = 1;
    while byte_idx < FRAME_SIZE {
        let mut packed_byte: u8 = 0;

        for shift in [4u8, 0u8] {
            let sample = samples[sample_idx] as i32;
            sample_idx += 1;

            let step = STEP_TABLE[step_index as usize];
            let diff = sample - pred;

            let mut nibble: u8 = 0;
            let mut predicted_diff = step >> 3;

            if diff < 0 {
                nibble |= 8;
            }
            let abs_diff = diff.unsigned_abs() as i32;

            if abs_diff >= step {
                nibble |= 4;
                predicted_diff += step;
            }
            if abs_diff >= (step >> 1) + (if nibble & 4 != 0 { step } else { 0 }) {
                nibble |= 2;
                predicted_diff += step >> 1;
            }
            if abs_diff
                >= (step >> 2)
                    + (if nibble & 4 != 0 { step } else { 0 })
                    + (if nibble & 2 != 0 { step >> 1 } else { 0 })
            {
                nibble |= 1;
                predicted_diff += step >> 2;
            }

            if nibble & 8 != 0 {
                pred -= predicted_diff;
            } else {
                pred += predicted_diff;
            }
            pred = pred.clamp(-32768, 32767);

            step_index += INDEX_TABLE[(nibble & 7) as usize];
            step_index = step_index.clamp(0, 88);

            packed_byte |= nibble << shift;
        }

        frame[byte_idx] = packed_byte;
        byte_idx += 1;
    }

    frame
}

#[test]
fn test_round_trip_sine_wave() {
    // Generate 440Hz sine wave at 8kHz sample rate, 257 samples
    let mut samples = [0i16; 257];
    for i in 0..257 {
        let t = i as f64 / 8000.0;
        samples[i] = (f64::sin(2.0 * std::f64::consts::PI * 440.0 * t) * 16000.0) as i16;
    }

    let frame = encode_samples(&samples, 42);
    let (seq, decoded) = decode_frame(&frame);

    assert_eq!(seq, 42);
    assert_eq!(decoded.len(), SAMPLES_PER_FRAME);

    // Calculate SNR: signal power / noise power
    let mut signal_power: f64 = 0.0;
    let mut noise_power: f64 = 0.0;
    for i in 0..257 {
        let s = samples[i] as f64;
        let d = decoded[i] as f64;
        signal_power += s * s;
        noise_power += (s - d) * (s - d);
    }

    let snr_db = 10.0 * (signal_power / noise_power).log10();
    assert!(
        snr_db > 20.0,
        "SNR should be > 20dB, got {snr_db:.1}dB"
    );
}

#[test]
fn test_silent_frame() {
    // Frame with predictor=0, step_index=0, all-zero ADPCM bytes
    let mut frame = [0u8; FRAME_SIZE];
    frame[0] = 0x00; // seq high
    frame[1] = 0x01; // seq low = 1
    frame[2] = 0x00; // padding
    frame[3] = 0x00; // predictor high
    frame[4] = 0x00; // predictor low = 0
    frame[5] = 0x00; // step_index = 0
    // bytes 6..133 already zero (all-zero nibbles)

    let (seq, samples) = decode_frame(&frame);

    assert_eq!(seq, 1);
    // All-zero nibbles with predictor=0 and step_index=0:
    // nibble 0x0 -> diff = step>>3 = 7>>3 = 0 (integer division), predictor += 0
    // Actually step>>3 = 0 for step=7, so predictor stays near 0
    // With step_index decreasing by 1 (INDEX_TABLE[0]=-1), clamped to 0
    // All samples should be very close to 0
    for (i, &s) in samples.iter().enumerate() {
        assert!(
            s.abs() <= 5,
            "Sample {i} should be near-silent, got {s}"
        );
    }
}

#[test]
fn test_header_parsing() {
    let mut frame = [0u8; FRAME_SIZE];

    // Sequence: 0x1234
    frame[0] = 0x12;
    frame[1] = 0x34;

    // Padding
    frame[2] = 0x00;

    // Predictor: -500 in big-endian signed i16
    let pred_bytes = (-500i16).to_be_bytes();
    frame[3] = pred_bytes[0];
    frame[4] = pred_bytes[1];

    // Step index: 44
    frame[5] = 44;

    let (seq, samples) = decode_frame(&frame);

    assert_eq!(seq, 0x1234);
    // First sample should be the predictor value
    assert_eq!(samples[0], -500);
}

#[test]
fn test_known_vector() {
    // Construct a frame with known DVI header and hand-computed nibbles
    let mut frame = [0u8; FRAME_SIZE];

    // Sequence: 0x0007
    frame[0] = 0x00;
    frame[1] = 0x07;
    frame[2] = 0x00;

    // Predictor: 1000 (big-endian)
    let pred_bytes = (1000i16).to_be_bytes();
    frame[3] = pred_bytes[0];
    frame[4] = pred_bytes[1];

    // Step index: 20
    frame[5] = 20;

    // Hand-compute first few nibbles:
    // step_index=20, step=STEP_TABLE[20]=50
    //
    // First byte, high nibble = 0x3 (bits: 0011)
    //   diff = 50 >> 3 = 6
    //   bit0 set (0x1): diff += 50 >> 2 = 12 -> diff = 18
    //   bit1 set (0x2): diff += 50 >> 1 = 25 -> diff = 43
    //   bit2 not set, bit3 not set (positive)
    //   predictor = 1000 + 43 = 1043
    //   step_index = 20 + INDEX_TABLE[3] = 20 + (-1) = 19
    //
    // First byte, low nibble = 0x5 (bits: 0101)
    //   step_index=19, step=STEP_TABLE[19]=45
    //   diff = 45 >> 3 = 5
    //   bit0 set (0x1): diff += 45 >> 2 = 11 -> diff = 16
    //   bit1 not set
    //   bit2 set (0x4): diff += 45 -> diff = 61
    //   bit3 not set (positive)
    //   predictor = 1043 + 61 = 1104
    //   step_index = 19 + INDEX_TABLE[5] = 19 + 4 = 23

    frame[6] = 0x35; // high nibble = 0x3, low nibble = 0x5

    // Second byte, high nibble = 0x9 (bits: 1001)
    //   step_index=23, step=STEP_TABLE[23]=66
    //   diff = 66 >> 3 = 8
    //   bit0 set (0x1): diff += 66 >> 2 = 16 -> diff = 24
    //   bit1 not set
    //   bit2 not set
    //   bit3 set (negative)
    //   predictor = 1104 - 24 = 1080
    //   step_index = 23 + INDEX_TABLE[1] = 23 + (-1) = 22

    frame[7] = 0x90; // high nibble = 0x9, low nibble = 0x0

    // Rest of the frame is zeros (won't affect first few samples)

    let (seq, samples) = decode_frame(&frame);

    assert_eq!(seq, 7);
    assert_eq!(samples[0], 1000);  // predictor
    assert_eq!(samples[1], 1043);  // after nibble 0x3
    assert_eq!(samples[2], 1104);  // after nibble 0x5
    assert_eq!(samples[3], 1080);  // after nibble 0x9
}

#[test]
fn test_step_index_clamped() {
    // Verify step_index > 88 gets clamped to 88
    let mut frame = [0u8; FRAME_SIZE];
    frame[5] = 99; // step_index out of range, should be clamped to 88

    let (_seq, samples) = decode_frame(&frame);
    // Should not panic; first sample is predictor (0)
    assert_eq!(samples[0], 0);
}

// --- Post-processing tests ---

#[test]
fn test_declip_removes_spike() {
    // A single-sample spike surrounded by low values should be interpolated
    let mut samples: Vec<i16> = vec![0, 0, 5000, 0, 0];
    declip(&mut samples);
    assert_eq!(samples[2], 0, "Spike at index 2 should be interpolated to 0");
    // Neighbors should be unchanged
    assert_eq!(samples[0], 0);
    assert_eq!(samples[1], 0);
    assert_eq!(samples[3], 0);
    assert_eq!(samples[4], 0);
}

#[test]
fn test_declip_preserves_gradual_changes() {
    // Gradual ramp should not be modified
    let mut samples: Vec<i16> = vec![0, 100, 200, 300, 400];
    let original = samples.clone();
    declip(&mut samples);
    assert_eq!(samples, original, "Gradual ramp should not be modified");
}

#[test]
fn test_declip_negative_spike() {
    // A negative spike should also be removed
    let mut samples: Vec<i16> = vec![100, 100, -5000, 100, 100];
    declip(&mut samples);
    assert_eq!(samples[2], 100, "Negative spike should be interpolated to 100");
}

#[test]
fn test_lowpass_smooths_step() {
    // Step function should get smoothed at the transition
    let mut samples: Vec<i16> = vec![0, 0, 0, 100, 100, 100];
    lowpass(&mut samples);
    // At index 2 (transition): (0 + 2*0 + 100) / 4 = 25
    assert_eq!(samples[2], 25);
    // At index 3 (transition): (0 + 2*100 + 100) / 4 = 75
    assert_eq!(samples[3], 75);
    // Endpoints should be unchanged
    assert_eq!(samples[0], 0);
    assert_eq!(samples[5], 100);
}

#[test]
fn test_lowpass_preserves_constant() {
    // Constant signal should pass through unchanged
    let mut samples: Vec<i16> = vec![500, 500, 500, 500, 500];
    lowpass(&mut samples);
    for &s in &samples {
        assert_eq!(s, 500);
    }
}

#[test]
fn test_lowpass_short_input() {
    // Less than 3 samples should be unchanged
    let mut samples: Vec<i16> = vec![100, 200];
    let original = samples.clone();
    lowpass(&mut samples);
    assert_eq!(samples, original);
}

#[test]
fn decoding_follows_the_encoded_signal() {
    // Slow at first, then jumps that the step size has to catch up with.
    let signals: [fn(i32) -> i32; 3] = [
        |i| 40 * i - 5000,
        |i| if (i / 32) % 2 == 0 { 12_000 } else { -12_000 },
        |i| (i * i * 37) % 20_000 - 10_000,
    ];
    for signal in signals {
        let samples: Vec<i16> = (0..257).map(|i| signal(i) as i16).collect();
        let frame = encode_samples(&samples, 7);
        let (_, decoded) = decode_frame(&frame);
        assert_eq!(decoded[0], samples[0]);
        let mut decoder = AdpcmDecoder::new();
        decoder.reset(samples[0], frame[5]);
        for i in 1..257 {
            let x = samples[i] as i32;
            let step = STEP_TABLE[decoder.step_index as usize];
            let away = (x - decoder.predictor as i32).abs();
            let byte = frame[6 + (i - 1) / 2];
            let nibble = if i % 2 == 1 { byte >> 4 } else { byte & 0x0F };
            let sample = decoder.decode_nibble(nibble);
            assert_eq!(sample, decoded[i]);
            let left = (x - sample as i32).abs();
            if away < 2 * step {
                assert!(left <= step / 8 + 2);
            } else {
                assert!(left <= away - step);
            }
        }
    }
}

#[test]
fn noise_of_the_sine_is_within_its_bound() {
    let samples: Vec<i16> = (0..257)
        .map(|i| {
            let t = i as f64 / 8000.0;
            (f64::sin(2.0 * std::f64::consts::PI * 440.0 * t) * 16000.0) as i16
        })
        .collect();
    let frame = encode_samples(&samples, 42);
    let (_, decoded) = decode_frame(&frame);
    let mut decoder = AdpcmDecoder::new();
    decoder.reset(samples[0], frame[5]);
    let mut energy = 0i64;
    let mut noise = 0i64;
    let mut tolerated = 0i64;
    for i in 0..257 {
        let x = samples[i] as i64;
        energy += x * x;
        noise += (x - decoded[i] as i64) * (x - decoded[i] as i64);
        if i > 0 {
            let step = STEP_TABLE[decoder.step_index as usize] as i64;
            let away = (x - decoder.predictor as i64).abs();
            let most = if away < 2 * step {
                step / 8 + 2
            } else {
                away - step
            };
            tolerated += most * most;
            let byte = frame[6 + (i - 1) / 2];
            decoder.decode_nibble(if i % 2 == 1 { byte >> 4 } else { byte & 0x0F });
        }
    }
    assert!(noise <= tolerated);
    // 20 dB
    assert!(100 * tolerated < energy);
    assert!(100 * noise < energy);
}
