use fsk_encoder::encode::{encode_bit, encode_byte, tone, Bit, BIT_LONG_MS, BIT_SHORT_MS};
use fsk_encoder::frame::{assemble_frame, fail_sync, lead_sync, mid_sync, Header};
use fsk_encoder::tone::{generate, ToneSpec, Waveform};

fn example_header() -> Header {
    Header {
        filename0: 0xAA,
        filename1: 0xFF,
        start_address0: 0x00,
        start_address1: 0x20,
        end_address0: 0x03,
        end_address1: 0x20,
        checksum: 0x06,
    }
}

/// Read one byte back from its twenty tone segments: check the start and
/// stop bit framing and the pulse shape of every bit, and rebuild the byte
/// from the relative pulse durations, most significant bit first.
fn decode_segments(segs: &[ToneSpec]) -> u8 {
    assert_eq!(segs.len(), 20);
    let mut bits = Vec::new();
    for pair in segs.chunks(2) {
        assert_eq!(pair[0].freq_hz, 2000);
        assert_eq!(pair[1].freq_hz, 1000);
        let one = pair[0].duration_ms == BIT_SHORT_MS && pair[1].duration_ms == BIT_LONG_MS;
        let zero = pair[0].duration_ms == BIT_LONG_MS && pair[1].duration_ms == BIT_SHORT_MS;
        assert!(one || zero);
        bits.push(one);
    }
    assert!(!bits[0], "start bit must be zero");
    assert!(bits[9], "stop bit must be one");
    let mut value: u8 = 0;
    for &bit in &bits[1..9] {
        value = (value << 1) | (bit as u8);
    }
    value
}

#[test]
fn generate_length_and_magnitude() {
    for &(f, a, d) in &[(1000u32, 200u32, 7u64), (2000, 200, 3), (440, 1000, 100), (64000, 1, 0)] {
        let samples = generate(f, a, d);
        assert_eq!(samples.len() as u64, 64 * d);
        assert!(samples.iter().all(|&s| s.unsigned_abs() <= a));
    }
}

#[test]
fn generate_zero_duration_is_empty() {
    assert!(generate(1000, 200, 0).is_empty());
}

#[test]
fn generate_square_wave_shape() {
    // 1000 Hz at 64000 samples/s: 64-sample period, 32 high then 32 low.
    let samples = generate(1000, 200, 2);
    assert_eq!(samples.len(), 128);
    for (n, &s) in samples.iter().enumerate() {
        if n % 64 < 32 {
            assert_eq!(s, 200);
        } else {
            assert_eq!(s, -200);
        }
    }
    // 2000 Hz: 32-sample period, 16 high then 16 low.
    let samples = generate(2000, 200, 1);
    assert_eq!(samples.len(), 64);
    for (n, &s) in samples.iter().enumerate() {
        assert_eq!(s, if n % 32 < 16 { 200 } else { -200 });
    }
}

#[test]
fn tone_has_fixed_amplitude_and_square_waveform() {
    let t = tone(1000, 4000);
    assert_eq!(t.freq_hz, 1000);
    assert_eq!(t.duration_ms, 4000);
    assert_eq!(t.amplitude_milli, 200);
    assert_eq!(t.waveform, Waveform::Square);
}

#[test]
fn encode_bit_exact_tones() {
    let zero = encode_bit(Bit::Zero);
    assert_eq!(zero.len(), 2);
    assert_eq!((zero[0].freq_hz, zero[0].duration_ms), (2000, 6));
    assert_eq!((zero[1].freq_hz, zero[1].duration_ms), (1000, 3));

    let one = encode_bit(Bit::One);
    assert_eq!(one.len(), 2);
    assert_eq!((one[0].freq_hz, one[0].duration_ms), (2000, 3));
    assert_eq!((one[1].freq_hz, one[1].duration_ms), (1000, 6));

    assert_ne!(zero, one);
}

#[test]
fn bit_encodings_never_sample_identical() {
    // Render both bit encodings to their concatenated sample sequences:
    // equal total duration (9 ms each), but the waveforms must differ.
    let render = |bit: Bit| -> Vec<i32> {
        encode_bit(bit)
            .iter()
            .flat_map(|t| generate(t.freq_hz, t.amplitude_milli, t.duration_ms))
            .collect()
    };
    let zero = render(Bit::Zero);
    let one = render(Bit::One);
    assert_eq!(zero.len(), one.len());
    assert_eq!(zero.len(), 9 * 64);
    assert_ne!(zero, one);
}

#[test]
fn encode_byte_framing_for_every_byte() {
    let start = encode_bit(Bit::Zero);
    let stop = encode_bit(Bit::One);
    for b in 0..=255u8 {
        let segs = encode_byte(b);
        assert_eq!(segs.len(), 20);
        assert_eq!(&segs[0..2], &start[..]);
        assert_eq!(&segs[18..20], &stop[..]);
    }
}

#[test]
fn encode_byte_round_trips_for_every_byte() {
    for b in 0..=255u8 {
        assert_eq!(decode_segments(&encode_byte(b)), b);
    }
}

#[test]
fn encode_byte_0xaa_bit_pattern() {
    let segs = encode_byte(0xAA);
    assert_eq!(segs.len(), 20);
    // start(0), then 1,0,1,0,1,0,1,0, then stop(1)
    let expected = [
        Bit::Zero,
        Bit::One,
        Bit::Zero,
        Bit::One,
        Bit::Zero,
        Bit::One,
        Bit::Zero,
        Bit::One,
        Bit::Zero,
        Bit::One,
    ];
    for (i, &bit) in expected.iter().enumerate() {
        let pair = encode_bit(bit);
        assert_eq!(&segs[2 * i..2 * i + 2], &pair[..]);
    }
}

#[test]
fn sync_tones() {
    let lead = lead_sync();
    assert_eq!((lead.freq_hz, lead.duration_ms), (1000, 4000));
    let mid = mid_sync();
    assert_eq!((mid.freq_hz, mid.duration_ms), (2000, 2000));
    let fail = fail_sync();
    assert_eq!((fail.freq_hz, fail.duration_ms), (2000, 2000));
    assert_eq!(mid, fail);
}

#[test]
fn assemble_frame_example_transmission() {
    let header = example_header();
    let data = vec![0x00u8, 0x01, 0x02, 0x03];
    let segs = assemble_frame(&header, &data).into_segments();

    // 1 lead sync + 7*20 header + 1 mid sync + 4*20 data + 1 trailer
    assert_eq!(segs.len(), 223);
    assert_eq!(segs[0], lead_sync());
    assert_eq!(segs[141], mid_sync());
    assert_eq!(segs[222], fail_sync());

    let header_bytes = [0xAAu8, 0xFF, 0x00, 0x20, 0x03, 0x20, 0x06];
    for (i, &b) in header_bytes.iter().enumerate() {
        assert_eq!(decode_segments(&segs[1 + 20 * i..1 + 20 * (i + 1)]), b);
    }
    for (i, &b) in data.iter().enumerate() {
        assert_eq!(decode_segments(&segs[142 + 20 * i..142 + 20 * (i + 1)]), b);
    }
}

#[test]
fn assemble_frame_empty_data() {
    let segs = assemble_frame(&example_header(), &Vec::new()).into_segments();
    assert_eq!(segs.len(), 143);
    assert_eq!(segs[141], mid_sync());
    assert_eq!(segs[142], fail_sync());
}

#[test]
fn encoding_is_idempotent() {
    for b in [0x00u8, 0x01, 0x55, 0xAA, 0xFF] {
        assert_eq!(encode_byte(b), encode_byte(b));
    }
    let data = vec![0x00u8, 0x01, 0x02, 0x03];
    let first = assemble_frame(&example_header(), &data).into_segments();
    let second = assemble_frame(&example_header(), &data).into_segments();
    assert_eq!(first, second);
    assert_eq!(generate(1000, 200, 25), generate(1000, 200, 25));
}

#[test]
fn header_bytes_in_wire_order() {
    let bytes = example_header().header_bytes();
    assert_eq!(bytes, vec![0xAA, 0xFF, 0x00, 0x20, 0x03, 0x20, 0x06]);
}
