use azor::audio::{parse_audio_packet, AudioChannel, CallError};

fn packet(channel: u8, samples: &[f32]) -> Vec<u8> {
    let mut data = vec![channel, 0, 0, 0];
    for s in samples {
        data.extend_from_slice(&s.to_le_bytes());
    }
    data
}

fn expected(samples: &[f32]) -> Vec<u8> {
    samples
        .iter()
        .flat_map(|s| ((s * 32768.0).clamp(-32768.0, 32767.0) as i16).to_le_bytes())
        .collect()
}

#[test]
fn operator_packet_is_converted_to_pcm() {
    let samples = [0.0f32, 0.5, -0.5, 1.0, -1.0, 0.25];
    let p = parse_audio_packet(&packet(0, &samples)).unwrap();
    assert_eq!(p.channel, AudioChannel::Operator);
    assert_eq!(p.pcm, expected(&samples));
    assert_eq!(&p.pcm[0..4], &[0, 0, 0x00, 0x40]);
}

#[test]
fn customer_channel_is_read() {
    let p = parse_audio_packet(&packet(1, &[0.1])).unwrap();
    assert_eq!(p.channel, AudioChannel::Customer);
}

#[test]
fn empty_sample_list_gives_empty_pcm() {
    let p = parse_audio_packet(&[1, 0, 0, 0]).unwrap();
    assert!(p.pcm.is_empty());
}

#[test]
fn conversion_matches_float_arithmetic_on_edge_values() {
    let samples = [
        f32::NAN,
        f32::INFINITY,
        f32::NEG_INFINITY,
        -0.0,
        f32::MIN_POSITIVE,
        1.0e-40,
        -1.0e-40,
        0.999_99,
        -0.999_99,
        1.5,
        -1.5,
        3.0e38,
        -3.0e38,
        1.0 / 32768.0,
        -1.0 / 32768.0,
        0.9 / 32768.0,
        -1.000_030_5,
        -1.000_01,
        123.456,
        -7.0e-5,
    ];
    let p = parse_audio_packet(&packet(0, &samples)).unwrap();
    assert_eq!(p.pcm, expected(&samples));
}

#[test]
fn conversion_matches_float_arithmetic_on_a_sweep() {
    let mut samples = Vec::new();
    let mut bits: u32 = 0;
    for _ in 0..20000 {
        samples.push(f32::from_bits(bits));
        bits = bits.wrapping_add(214_748);
    }
    let p = parse_audio_packet(&packet(0, &samples)).unwrap();
    assert_eq!(p.pcm, expected(&samples));
}

#[test]
fn short_packet_is_rejected() {
    assert_eq!(parse_audio_packet(&[0, 0, 0]).unwrap_err(), "packet too small: 3 bytes");
    assert_eq!(parse_audio_packet(&[]).unwrap_err(), "packet too small: 0 bytes");
}

#[test]
fn unknown_channel_is_rejected() {
    assert_eq!(parse_audio_packet(&[7, 0, 0, 0]).unwrap_err(), "invalid audio channel: 7");
}

#[test]
fn ragged_sample_data_is_rejected() {
    assert_eq!(parse_audio_packet(&[0, 0, 0, 0, 1, 2, 3]).unwrap_err(), "invalid audio data length: 3");
}

#[test]
fn channel_from_byte() {
    assert_eq!(AudioChannel::try_from(0u8).unwrap(), AudioChannel::Operator);
    assert_eq!(AudioChannel::try_from(1u8).unwrap(), AudioChannel::Customer);
    assert!(matches!(AudioChannel::try_from(2u8), Err(CallError::InvalidChannel(2))));
}

#[test]
fn call_error_messages() {
    assert_eq!(CallError::Asr("boom".to_string()).message(), "ASR error: boom");
    assert_eq!(CallError::InvalidChannel(255).message(), "invalid audio channel: 255");
    assert_eq!(CallError::Database("gone".to_string()).message(), "database error: gone");
}
