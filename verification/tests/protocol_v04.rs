use atvvoice::protocol::types::{
    AudioFrameSize, AudioStartReason, AudioStopReason, AudioSyncData, Capabilities, Codec, Codecs,
    CtlEvent, InteractionModel, MicOpenErrorCode, ProtocolVersion, StreamId,
};
use atvvoice::protocol::v04::ProtocolV04;
use atvvoice::protocol::Protocol;

// ── Command encoding tests ──────────────────────────────────────

#[test]
fn v04_test_get_caps_cmd() {
    let p = ProtocolV04::new();
    assert_eq!(p.get_caps_cmd(), vec![0x0A, 0x00, 0x04, 0x00, 0x03]);
}

#[test]
fn test_mic_open_cmd_8khz() {
    let mut p = ProtocolV04::new();
    p.selected_codec = Some(Codec::Adpcm8kHz);
    assert_eq!(p.mic_open_cmd(), vec![0x0C, 0x00, 0x01]);
}

#[test]
fn test_mic_open_cmd_16khz() {
    let mut p = ProtocolV04::new();
    p.selected_codec = Some(Codec::Adpcm16kHz);
    assert_eq!(p.mic_open_cmd(), vec![0x0C, 0x00, 0x02]);
}

#[test]
fn test_mic_close_cmd_ignores_stream_id() {
    let p = ProtocolV04::new();
    assert_eq!(p.mic_close_cmd(StreamId::mic_open()), vec![0x0D]);
    assert_eq!(p.mic_close_cmd(StreamId::any()), vec![0x0D]);
}

#[test]
fn test_keepalive_is_mic_open() {
    let mut p = ProtocolV04::new();
    p.selected_codec = Some(Codec::Adpcm8kHz);
    assert_eq!(p.keepalive_cmd(StreamId::mic_open()), p.mic_open_cmd());
}

// ── CTL parsing tests ───────────────────────────────────────────

#[test]
fn test_parse_audio_start() {
    let mut p = ProtocolV04::new();
    p.selected_codec = Some(Codec::Adpcm8kHz);
    match p.parse_ctl(&[0x04]) {
        CtlEvent::AudioStart {
            reason,
            codec,
            stream_id,
        } => {
            assert_eq!(reason, AudioStartReason::MicOpen);
            assert_eq!(codec, Codec::Adpcm8kHz);
            assert_eq!(stream_id, StreamId::mic_open());
        }
        other => panic!("expected AudioStart, got {:?}", other),
    }
}

#[test]
fn test_parse_audio_stop() {
    let p = ProtocolV04::new();
    match p.parse_ctl(&[0x00]) {
        CtlEvent::AudioStop { reason } => {
            assert!(matches!(reason, AudioStopReason::MicClose));
        }
        other => panic!("expected AudioStop, got {:?}", other),
    }
}

#[test]
fn test_parse_start_search() {
    let p = ProtocolV04::new();
    assert!(matches!(p.parse_ctl(&[0x08]), CtlEvent::StartSearch));
}

#[test]
fn test_parse_audio_sync() {
    let p = ProtocolV04::new();
    // v0.4 AUDIO_SYNC: opcode + frame_num(2)
    match p.parse_ctl(&[0x0A, 0x00, 0x05]) {
        CtlEvent::AudioSync(AudioSyncData::FrameNum { seq }) => {
            assert_eq!(seq, 5);
        }
        other => panic!("expected AudioSync::FrameNum, got {:?}", other),
    }
}

#[test]
fn test_parse_caps_resp() {
    let p = ProtocolV04::new();
    // v0.4 CAPS_RESP: [0x0B, version(2), codecs_supported(2), bytes/frame(2), bytes/char(2)]
    let data = [0x0B, 0x00, 0x04, 0x00, 0x01, 0x00, 0x86, 0x00, 0x14];
    match p.parse_ctl(&data) {
        CtlEvent::CapsResp(caps) => {
            assert_eq!(caps.version, ProtocolVersion::V0_4);
            assert!(caps.codecs.contains(Codecs::adpcm_8khz()));
            assert!(!caps.codecs.contains(Codecs::adpcm_16khz()));
            assert_eq!(caps.interaction_model, InteractionModel::OnRequest);
            assert_eq!(caps.audio_frame_size.0, 0x0086);
        }
        other => panic!("expected CapsResp, got {:?}", other),
    }
}

#[test]
fn test_parse_mic_open_error() {
    let p = ProtocolV04::new();
    match p.parse_ctl(&[0x0C, 0x0F, 0x01]) {
        CtlEvent::MicOpenError(code) => {
            assert!(matches!(code, MicOpenErrorCode::InvalidCodec));
        }
        other => panic!("expected MicOpenError, got {:?}", other),
    }
}

#[test]
fn test_parse_unknown() {
    let p = ProtocolV04::new();
    assert!(matches!(p.parse_ctl(&[0xFF, 0x01]), CtlEvent::Unknown(_)));
}

// ── Codec negotiation tests ─────────────────────────────────────

#[test]
fn test_on_caps_resp_selects_best_codec() {
    let mut p = ProtocolV04::new();
    // Remote supports both codecs
    let caps = Capabilities {
        version: ProtocolVersion::V0_4,
        codecs: Codecs::adpcm_8khz() | Codecs::adpcm_16khz(),
        interaction_model: InteractionModel::OnRequest,
        audio_frame_size: AudioFrameSize(134),
    };
    let codec = p.on_caps_resp(&caps).unwrap();
    assert_eq!(codec, Codec::Adpcm16kHz); // prefers best
}

#[test]
fn test_on_caps_resp_8khz_only() {
    let mut p = ProtocolV04::new();
    let caps = Capabilities {
        version: ProtocolVersion::V0_4,
        codecs: Codecs::adpcm_8khz(),
        interaction_model: InteractionModel::OnRequest,
        audio_frame_size: AudioFrameSize(134),
    };
    let codec = p.on_caps_resp(&caps).unwrap();
    assert_eq!(codec, Codec::Adpcm8kHz);
}

// ── Audio frame decoding tests ──────────────────────────────────

#[test]
fn test_decode_audio_frame() {
    let mut p = ProtocolV04::new();
    p.selected_codec = Some(Codec::Adpcm8kHz);
    p.audio_frame_size = AudioFrameSize(134);
    // Build a minimal 134-byte frame with known header
    let mut frame = vec![0u8; 134];
    frame[0] = 0x00;
    frame[1] = 0x07; // seq = 7
                     // frame[2] = 0x00; // id/padding
                     // predictor = 0, step_index = 0
    let result = p.decode_audio(&frame);
    assert!(result.is_some());
    let af = result.unwrap();
    assert_eq!(af.seq, 7);
    assert_eq!(af.samples.len(), 257); // 1 predictor + 256 decoded
}

#[test]
fn test_decode_audio_wrong_size() {
    let mut p = ProtocolV04::new();
    p.audio_frame_size = AudioFrameSize(134);
    assert!(p.decode_audio(&[0u8; 100]).is_none());
}
