use atvvoice::adpcm::{
    clamp_sample, decode_frame, declip, lowpass, AdpcmDecoder, FRAME_SIZE, SAMPLES_PER_FRAME,
};
use atvvoice::protocol::types::{
    AudioFrameSize, AudioMode, AudioStartReason, AudioStopReason, AudioSyncData, Capabilities,
    Codec, Codecs, CtlEvent, CtlOpcode, InteractionModel, MicOpenErrorCode, NoCommonCodec,
    ProtocolVersion, StreamId, TxOpcode, UnknownCode,
};
use atvvoice::protocol::v04::ProtocolV04;
use atvvoice::protocol::v10::ProtocolV10;
use atvvoice::protocol::{
    create_negotiated, create_protocol, parse_caps_resp, AnyProtocol, Protocol,
};

fn caps(version: ProtocolVersion, bits: u8, frame_size: u16) -> Capabilities {
    Capabilities {
        version,
        codecs: Codecs { bits },
        interaction_model: InteractionModel::PressToTalk,
        audio_frame_size: AudioFrameSize(frame_size),
    }
}

/// A frame of recognisable bytes.
fn sample_frame(len: usize, salt: u8) -> Vec<u8> {
    (0..len).map(|i| (i as u8).wrapping_mul(37) ^ salt).collect()
}

#[test]
fn versions_and_their_names() {
    assert_eq!(ProtocolVersion::V0_4.as_str(), "v0.4");
    assert_eq!(ProtocolVersion::V1_0.as_str(), "v1.0");
    for version in [ProtocolVersion::V0_4, ProtocolVersion::V1_0] {
        assert_eq!(
            ProtocolVersion::from_wire(version.wire_value()),
            Some(version)
        );
    }
    assert_eq!(ProtocolVersion::V0_4.wire_value(), 0x0004);
    assert_eq!(ProtocolVersion::V1_0.wire_value(), 0x0100);
    assert_eq!(ProtocolVersion::from_wire(0x0200), None);
    assert_eq!(
        ProtocolVersion::from_wire_or(0x0200, ProtocolVersion::V1_0),
        ProtocolVersion::V1_0
    );
    assert_eq!(
        ProtocolVersion::from_wire_or(0x0004, ProtocolVersion::V1_0),
        ProtocolVersion::V0_4
    );
}

#[test]
fn unknown_versions_are_quoted() {
    assert_eq!(
        ProtocolVersion::parse("2\n").unwrap_err(),
        "unknown protocol version \"2\\n\", expected \"0.4\" or \"1.0\""
    );
    assert_eq!(
        ProtocolVersion::unknown_message("<x>"),
        "unknown protocol version <x>, expected \"0.4\" or \"1.0\""
    );
}

#[test]
fn wire_codes_round_trip() {
    for byte in 0..=255u8 {
        match Codec::try_from(byte) {
            Ok(value) => assert_eq!(u8::from(value), byte),
            Err(e) => assert_eq!(e, UnknownCode(byte)),
        }
        match InteractionModel::try_from(byte) {
            Ok(value) => assert_eq!(u8::from(value), byte),
            Err(e) => assert_eq!(e, UnknownCode(byte)),
        }
        match AudioMode::try_from(byte) {
            Ok(value) => assert_eq!(u8::from(value), byte),
            Err(e) => assert_eq!(e, UnknownCode(byte)),
        }
    }
    let known = |read: fn(u8) -> bool| (0..=255u8).filter(|byte| read(*byte)).count();
    assert_eq!(known(|byte| Codec::try_from(byte).is_ok()), 2);
    assert_eq!(known(|byte| InteractionModel::try_from(byte).is_ok()), 3);
    assert_eq!(known(|byte| AudioMode::try_from(byte).is_ok()), 2);
    assert_eq!(known(|byte| CtlOpcode::try_from(byte).is_ok()), 6);
    assert_eq!(known(|byte| AudioStartReason::try_from(byte).is_ok()), 3);
    assert_ne!(u8::from(TxOpcode::MicOpen), u8::from(TxOpcode::MicClose));
}

#[test]
fn codes_with_a_fallback() {
    assert_eq!(
        Codec::from_code_or(0x09, Codec::Adpcm8kHz),
        Codec::Adpcm8kHz
    );
    assert_eq!(
        Codec::from_code_or(0x02, Codec::Adpcm8kHz),
        Codec::Adpcm16kHz
    );
    assert_eq!(
        InteractionModel::from_code_or(0x02, InteractionModel::OnRequest),
        InteractionModel::OnRequest
    );
    assert_eq!(
        AudioStartReason::from_code_or(0x03, AudioStartReason::MicOpen),
        AudioStartReason::HoldToTalk
    );
}

#[test]
fn unlisted_codes_are_kept() {
    assert_eq!(AudioStopReason::from(0x77), AudioStopReason::Other(0x77));
    assert_eq!(
        MicOpenErrorCode::from(0x1234),
        MicOpenErrorCode::Unknown(0x1234)
    );
    assert_ne!(AudioStopReason::from(0x02), AudioStopReason::from(0x04));
}

#[test]
fn codec_sets() {
    let both = Codecs::adpcm_8khz() | Codecs::adpcm_16khz();
    assert_eq!(both & Codecs::adpcm_16khz(), Codecs::adpcm_16khz());
    assert_eq!(Codecs::from_bits_truncate(0xFD), Codecs::adpcm_8khz());
    assert!(both.contains(both));
    assert!(!Codecs::adpcm_8khz().contains(both));
}

#[test]
fn default_sizes_and_streams() {
    assert_eq!(AudioFrameSize::default_v04().0, 134);
    assert_eq!(AudioFrameSize::default_v10().0, 20);
    assert_eq!(StreamId::mic_open(), StreamId(0));
    assert_eq!(StreamId::any(), StreamId(0xFF));
}

#[test]
fn codec_negotiation() {
    assert_eq!(
        ProtocolV04::negotiate_codec(Codecs { bits: 0x03 }),
        Ok(Codec::Adpcm16kHz)
    );
    assert_eq!(
        ProtocolV10::negotiate_codec(Codecs { bits: 0x02 }),
        Ok(Codec::Adpcm16kHz)
    );
    assert_eq!(
        ProtocolV04::negotiate_codec(Codecs { bits: 0x01 }),
        Ok(Codec::Adpcm8kHz)
    );
    assert_eq!(
        ProtocolV10::negotiate_codec(Codecs { bits: 0x04 }),
        Err(NoCommonCodec {
            remote: Codecs { bits: 0x04 },
            ours: Codecs { bits: 0x03 }
        })
    );
}

#[test]
fn failed_negotiation_changes_nothing() {
    let mut v04 = ProtocolV04::new();
    assert!(v04.on_caps_resp(&caps(ProtocolVersion::V0_4, 0, 50)).is_err());
    assert_eq!(v04.selected_codec, None);
    assert_eq!(v04.audio_frame_size, AudioFrameSize(134));
    let mut v10 = ProtocolV10::new();
    assert!(v10.on_caps_resp(&caps(ProtocolVersion::V1_0, 0, 50)).is_err());
    assert_eq!(v10.selected_codec, None);
    assert_eq!(v10.interaction_model, InteractionModel::OnRequest);
    assert_eq!(v10.audio_frame_size, AudioFrameSize(20));
}

#[test]
fn negotiation_sets_codec_and_frame_size() {
    let mut v04 = ProtocolV04::new();
    v04.on_caps_resp(&caps(ProtocolVersion::V0_4, 3, 50)).unwrap();
    assert_eq!(v04.mic_open_cmd(), vec![0x0C, 0x00, 0x02]);
    assert_eq!(v04.audio_frame_size, AudioFrameSize(50));
    let mut v10 = ProtocolV10::new();
    v10.on_caps_resp(&caps(ProtocolVersion::V1_0, 1, 50)).unwrap();
    assert_eq!(v10.selected_codec, Some(Codec::Adpcm8kHz));
    assert_eq!(v10.interaction_model, InteractionModel::PressToTalk);
    assert_eq!(v10.audio_frame_size, AudioFrameSize(50));
}

#[test]
fn short_notifications_are_passed_on() {
    let protocols = [
        create_protocol(ProtocolVersion::V0_4),
        create_protocol(ProtocolVersion::V1_0),
    ];
    for protocol in &protocols {
        for data in [
            vec![],
            vec![0x0A],
            vec![0x0A, 0x01],
            vec![0x0B, 0x01, 0x00, 0x03, 0x00, 0x00],
            vec![0x0C, 0x0F],
            vec![0x77, 0x01, 0x02],
        ] {
            assert_eq!(protocol.parse_ctl(&data), CtlEvent::Unknown(data.clone()));
        }
    }
    let v10 = &protocols[1];
    assert_eq!(
        v10.parse_ctl(&[0x04, 0x00, 0x01]),
        CtlEvent::Unknown(vec![0x04, 0x00, 0x01])
    );
}

#[test]
fn trailing_bytes_are_ignored() {
    let v04 = ProtocolV04::new();
    let v10 = ProtocolV10::new();
    let with = |data: &[u8]| [data, &[0xDE, 0xAD]].concat();
    for data in [
        vec![0x00],
        vec![0x04],
        vec![0x08],
        vec![0x0A, 0x00, 0x05],
        vec![0x0B, 0x00, 0x04, 0x00, 0x01, 0x00, 0x86, 0x00, 0x14],
        vec![0x0C, 0x0F, 0x01],
    ] {
        assert_eq!(v04.parse_ctl(&with(&data)), v04.parse_ctl(&data));
    }
    for data in [
        vec![0x00, 0x02],
        vec![0x04, 0x01, 0x02, 0x01],
        vec![0x08],
        vec![0x0A, 0x01, 0x00, 0x05, 0x10, 0x00, 0x03],
        vec![0x0B, 0x01, 0x00, 0x03, 0x01, 0x00, 0x14],
        vec![0x0C, 0x0F, 0x80],
    ] {
        assert_eq!(v10.parse_ctl(&with(&data)), v10.parse_ctl(&data));
    }
    // A v1.0 AUDIO_STOP may lack its reason; the next byte would be the reason.
    assert_eq!(
        v10.parse_ctl(&[0x00]),
        CtlEvent::AudioStop {
            reason: AudioStopReason::MicClose
        }
    );
    assert_eq!(
        v10.parse_ctl(&[0x00, 0x08]),
        CtlEvent::AudioStop {
            reason: AudioStopReason::TransferTimeout
        }
    );
}

#[test]
fn unknown_values_fall_back() {
    let v10 = ProtocolV10::new();
    assert_eq!(
        v10.parse_ctl(&[0x04, 0x09, 0x09, 0x09]),
        CtlEvent::AudioStart {
            reason: AudioStartReason::MicOpen,
            codec: Codec::Adpcm8kHz,
            stream_id: StreamId(9)
        }
    );
    let data = [0x0B, 0x09, 0x09, 0xFF, 0x09, 0x00, 0x14];
    match v10.parse_ctl(&data) {
        CtlEvent::CapsResp(caps) => {
            assert_eq!(caps.version, ProtocolVersion::V1_0);
            assert_eq!(caps.codecs, Codecs { bits: 3 });
            assert_eq!(caps.interaction_model, InteractionModel::OnRequest);
        }
        other => panic!("expected CapsResp, got {:?}", other),
    }
}

#[test]
fn capabilities_are_read_alike_by_all() {
    let v04_resp = [0x0B, 0x00, 0x04, 0x00, 0x01, 0x00, 0x86, 0x00, 0x14];
    let v10_resp = [0x0B, 0x01, 0x00, 0x03, 0x01, 0x00, 0x14];
    for data in [&v04_resp[..], &v10_resp[..]] {
        let caps = parse_caps_resp(data).unwrap();
        let (protocol, _) = create_negotiated(&caps).ok().unwrap();
        assert_eq!(protocol.version(), caps.version);
        assert_eq!(protocol.parse_ctl(data), CtlEvent::CapsResp(caps));
    }
    let (protocol, codec) = create_negotiated(&parse_caps_resp(&v10_resp).unwrap())
        .ok()
        .unwrap();
    assert_eq!(codec, Codec::Adpcm16kHz);
    assert!(matches!(protocol, AnyProtocol::V10(p) if p.audio_frame_size.0 == 20));
}

#[test]
fn v04_frame_is_a_decoded_frame() {
    let mut protocol = ProtocolV04::new();
    let bytes = sample_frame(FRAME_SIZE, 0x5A);
    let mut array = [0u8; FRAME_SIZE];
    array.copy_from_slice(&bytes);
    let (seq, samples) = decode_frame(&array);
    // Whatever was decoded before
    protocol.decode_audio(&sample_frame(FRAME_SIZE, 0x11)).unwrap();
    let frame = protocol.decode_audio(&bytes).unwrap();
    assert_eq!(frame.seq, seq);
    assert_eq!(frame.samples, samples.to_vec());
    assert_eq!(frame.samples.len(), SAMPLES_PER_FRAME);
    assert_eq!(frame.codec, Codec::Adpcm8kHz);
}

#[test]
fn v04_frames_need_a_header() {
    let mut protocol = ProtocolV04::new();
    protocol.audio_frame_size = AudioFrameSize(5);
    assert!(protocol.decode_audio(&[0; 5]).is_none());
    protocol.audio_frame_size = AudioFrameSize(6);
    let frame = protocol.decode_audio(&[0, 9, 0, 0xFF, 0xFE, 0]).unwrap();
    assert_eq!(frame.seq, 9);
    assert_eq!(frame.samples, vec![-2]);
}

#[test]
fn v10_frames_continue_each_other() {
    let a = sample_frame(20, 0x33);
    let b = sample_frame(20, 0xC4);
    let mut protocol = ProtocolV10::new();
    let first = protocol.decode_audio(&a).unwrap();
    let second = protocol.decode_audio(&b).unwrap();
    assert_eq!((first.seq, second.seq), (0, 1));
    let mut decoder = AdpcmDecoder::new();
    let whole = decoder.decode_bytes(&[a, b].concat());
    assert_eq!([first.samples, second.samples].concat(), whole);
}

#[test]
fn v10_sync_starts_over() {
    let sync = AudioSyncData::Full {
        codec: Codec::Adpcm16kHz,
        seq: 65_535,
        predictor: -300,
        step_index: 200,
    };
    let mut fresh = ProtocolV10::new();
    let mut used = ProtocolV10::new();
    used.decode_audio(&sample_frame(20, 7)).unwrap();
    fresh.on_audio_sync(&sync);
    used.on_audio_sync(&sync);
    assert_eq!(used.decoder.step_index, 88);
    let frame = sample_frame(20, 8);
    let expected = fresh.decode_audio(&frame).unwrap();
    assert_eq!(used.decode_audio(&frame).unwrap(), expected);
    assert_eq!(expected.seq, 65_535);
    // The count wraps round.
    assert_eq!(used.frame_seq, 0);
    used.on_audio_sync(&AudioSyncData::FrameNum { seq: 12 });
    assert_eq!(used.frame_seq, 12);
}

#[test]
fn v04_sync_changes_nothing() {
    let mut protocol = ProtocolV04::new();
    protocol.on_audio_sync(&AudioSyncData::FrameNum { seq: 9 });
    assert_eq!(protocol.selected_codec, None);
    let frame = protocol.decode_audio(&[0; FRAME_SIZE]).unwrap();
    assert_eq!(frame.seq, 0);
}

#[test]
fn adpcm_nibbles() {
    let mut decoder = AdpcmDecoder::new();
    // Step 7: 0 + 1 + 3 + 7; then step 16: -(2 + 4 + 8 + 16)
    assert_eq!(decoder.decode_bytes(&[0x7F]), vec![11, -19]);
    assert_eq!(decoder.step_index, 16);
    assert_eq!(decoder.decode_nibble(0), -15);
    assert_eq!(decoder.step_index, 15);
}

#[test]
fn adpcm_stays_in_range() {
    let mut decoder = AdpcmDecoder::new();
    decoder.reset(32_767, 88);
    assert_eq!(decoder.decode_nibble(0x7), 32_767);
    assert_eq!(decoder.step_index, 88);
    decoder.reset(-32_768, 255);
    assert_eq!(decoder.step_index, 88);
    assert_eq!(decoder.decode_nibble(0xF), -32_768);
    decoder.reset(0, 0);
    decoder.decode_nibble(0);
    assert_eq!(decoder.step_index, 0);
}

#[test]
fn clean_up_rounds_as_the_integers_do() {
    // (-1 * 2) >> 2 rounds down.
    let mut samples = [0i16, -1, 0];
    lowpass(&mut samples);
    assert_eq!(samples, [0, -1, 0]);
    // (0 + -1) / 2 rounds towards zero.
    let mut samples = [0i16, 5000, -1];
    declip(&mut samples);
    assert_eq!(samples, [0, 0, -1]);
    // Signals of less than three samples are left alone.
    let mut samples = [9000i16, -9000];
    declip(&mut samples);
    lowpass(&mut samples);
    assert_eq!(samples, [9000, -9000]);
}

#[test]
fn filtered_samples_stay_within_the_signal() {
    let mut samples = [i16::MAX, i16::MAX, i16::MAX, i16::MIN, i16::MIN];
    lowpass(&mut samples);
    assert_eq!(samples[1], i16::MAX);
    assert_eq!(samples[2], 16_383);
    assert_eq!(samples[0], i16::MAX);
    assert_eq!(samples[4], i16::MIN);
}

#[test]
fn clamped_samples() {
    assert_eq!(clamp_sample(40_000), 32_767);
    assert_eq!(clamp_sample(-40_000), -32_768);
    assert_eq!(clamp_sample(-5), -5);
}

#[test]
fn codec_masks_as_text() {
    let text = |bits: u8| Codecs { bits }.text();
    assert_eq!(text(0x00), "Codecs(0x0)");
    assert_eq!(text(0x01), "Codecs(ADPCM_8KHZ)");
    assert_eq!(text(0x02), "Codecs(ADPCM_16KHZ)");
    assert_eq!(text(0x03), "Codecs(ADPCM_8KHZ | ADPCM_16KHZ)");
    assert_eq!(text(0x04), "Codecs(0x4)");
    assert_eq!(text(0x0D), "Codecs(ADPCM_8KHZ | 0xc)");
    assert_eq!(text(0xFF), "Codecs(ADPCM_8KHZ | ADPCM_16KHZ | 0xfc)");
}

#[test]
fn no_common_codec_message() {
    let error = ProtocolV10::negotiate_codec(Codecs { bits: 0 }).unwrap_err();
    assert_eq!(
        error.message(),
        "no common codec: remote supports Codecs(0x0), \
         we support Codecs(ADPCM_8KHZ | ADPCM_16KHZ)"
    );
}
