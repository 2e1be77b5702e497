use atvvoice::protocol::types::{
    AudioFrameSize, AudioStartReason, AudioStopReason, AudioSyncData, Codec, Codecs, CtlEvent,
    InteractionModel, MicOpenErrorCode, ProtocolVersion, StreamId,
};
use atvvoice::protocol::v10::ProtocolV10;
use atvvoice::protocol::Protocol;

// ── Command encoding tests ──────────────────────────────────────

#[test]
fn v10_test_get_caps_cmd() {
    let p = ProtocolV10::new();
    let cmd = p.get_caps_cmd();
    assert_eq!(cmd[0], 0x0A);
    assert_eq!(cmd[1], 0x01); // version 1.0 high
    assert_eq!(cmd[2], 0x00); // version 1.0 low
    assert_eq!(cmd[3], 0x00); // legacy 0x0003 high
    assert_eq!(cmd[4], 0x03); // legacy 0x0003 low
    assert_eq!(cmd[5], 0x03); // support HTT+PTT+OnRequest
}

#[test]
fn test_mic_open_cmd() {
    let p = ProtocolV10::new();
    // v1.0 MIC_OPEN: [0x0C, audio_mode]
    assert_eq!(p.mic_open_cmd(), vec![0x0C, 0x00]); // Playback mode
}

#[test]
fn test_mic_close_cmd_with_stream_id() {
    let p = ProtocolV10::new();
    assert_eq!(p.mic_close_cmd(StreamId::mic_open()), vec![0x0D, 0x00]);
    assert_eq!(p.mic_close_cmd(StreamId(0x05)), vec![0x0D, 0x05]);
    assert_eq!(p.mic_close_cmd(StreamId::any()), vec![0x0D, 0xFF]);
}

#[test]
fn test_keepalive_is_mic_extend() {
    let p = ProtocolV10::new();
    assert_eq!(p.keepalive_cmd(StreamId::mic_open()), vec![0x0E, 0x00]);
    assert_eq!(p.keepalive_cmd(StreamId(0x03)), vec![0x0E, 0x03]);
}

// ── CTL parsing tests ───────────────────────────────────────────

#[test]
fn test_parse_audio_start_mic_open() {
    let p = ProtocolV10::new();
    // AUDIO_START: [0x04, reason=0x00, codec=0x01, stream_id=0x00]
    match p.parse_ctl(&[0x04, 0x00, 0x01, 0x00]) {
        CtlEvent::AudioStart {
            reason,
            codec,
            stream_id,
        } => {
            assert_eq!(reason, AudioStartReason::MicOpen);
            assert_eq!(codec, Codec::Adpcm8kHz);
            assert_eq!(stream_id, StreamId::mic_open());
        }
        other => panic!("expected AudioStart, got {:?}", other),
    }
}

#[test]
fn test_parse_audio_start_ptt() {
    let p = ProtocolV10::new();
    match p.parse_ctl(&[0x04, 0x01, 0x02, 0x01]) {
        CtlEvent::AudioStart {
            reason,
            codec,
            stream_id,
        } => {
            assert_eq!(reason, AudioStartReason::PressToTalk);
            assert_eq!(codec, Codec::Adpcm16kHz);
            assert_eq!(stream_id, StreamId(0x01));
        }
        other => panic!("expected AudioStart PTT, got {:?}", other),
    }
}

#[test]
fn test_parse_audio_start_htt() {
    let p = ProtocolV10::new();
    match p.parse_ctl(&[0x04, 0x03, 0x01, 0x02]) {
        CtlEvent::AudioStart {
            reason,
            codec,
            stream_id,
        } => {
            assert_eq!(reason, AudioStartReason::HoldToTalk);
            assert_eq!(stream_id, StreamId(0x02));
        }
        other => panic!("expected AudioStart HTT, got {:?}", other),
    }
}

#[test]
fn test_parse_audio_stop_with_reason() {
    let p = ProtocolV10::new();
    match p.parse_ctl(&[0x00, 0x02]) {
        CtlEvent::AudioStop { reason } => {
            assert!(matches!(reason, AudioStopReason::HttButtonRelease));
        }
        other => panic!("expected AudioStop, got {:?}", other),
    }
}

#[test]
fn test_parse_audio_sync_full() {
    let p = ProtocolV10::new();
    // [0x0A, codec=0x01, frame_hi, frame_lo, pred_hi, pred_lo, step_index]
    match p.parse_ctl(&[0x0A, 0x01, 0x00, 0x0A, 0x03, 0xE8, 0x20]) {
        CtlEvent::AudioSync(AudioSyncData::Full {
            codec,
            seq,
            predictor,
            step_index,
        }) => {
            assert_eq!(codec, Codec::Adpcm8kHz);
            assert_eq!(seq, 10);
            assert_eq!(predictor, 1000); // 0x03E8
            assert_eq!(step_index, 32);
        }
        other => panic!("expected AudioSync::Full, got {:?}", other),
    }
}

#[test]
fn test_parse_caps_resp_v10() {
    let p = ProtocolV10::new();
    // [0x0B, version(2), codecs(1), interaction_model(1), frame_size(2), extra_config(1), reserved(1)]
    let data = [0x0B, 0x01, 0x00, 0x03, 0x03, 0x00, 0xA0, 0x01, 0x00];
    match p.parse_ctl(&data) {
        CtlEvent::CapsResp(caps) => {
            assert_eq!(caps.version, ProtocolVersion::V1_0);
            assert_eq!(caps.codecs, Codecs::adpcm_8khz() | Codecs::adpcm_16khz());
            assert_eq!(caps.interaction_model, InteractionModel::HoldToTalk);
            assert_eq!(caps.audio_frame_size.0, 160);
        }
        other => panic!("expected CapsResp, got {:?}", other),
    }
}

#[test]
fn test_parse_mic_open_error_ptt_in_progress() {
    let p = ProtocolV10::new();
    match p.parse_ctl(&[0x0C, 0x0F, 0x80]) {
        CtlEvent::MicOpenError(code) => {
            assert!(matches!(code, MicOpenErrorCode::PttHttInProgress));
        }
        other => panic!("expected MicOpenError, got {:?}", other),
    }
}

// ── Audio sync and headerless frame decoding tests ──────────────

#[test]
fn test_on_audio_sync_resets_decoder() {
    let mut p = ProtocolV10::new();
    p.selected_codec = Some(Codec::Adpcm8kHz);
    p.audio_frame_size = AudioFrameSize(20);
    let sync = AudioSyncData::Full {
        codec: Codec::Adpcm8kHz,
        seq: 42,
        predictor: 500,
        step_index: 30,
    };
    p.on_audio_sync(&sync);
    assert_eq!(p.decoder.predictor, 500);
    assert_eq!(p.decoder.step_index, 30);
    assert_eq!(p.frame_seq, 42);
}

#[test]
fn test_decode_headerless_frame() {
    let mut p = ProtocolV10::new();
    p.selected_codec = Some(Codec::Adpcm8kHz);
    p.audio_frame_size = AudioFrameSize(20);
    p.decoder.reset(0, 0);
    p.frame_seq = 0;

    let data = vec![0u8; 20]; // 20 bytes = 40 samples
    let result = p.decode_audio(&data);
    assert!(result.is_some());
    let af = result.unwrap();
    assert_eq!(af.seq, 0);
    assert_eq!(af.samples.len(), 40);
    // frame_seq should have incremented
    assert_eq!(p.frame_seq, 1);
}
