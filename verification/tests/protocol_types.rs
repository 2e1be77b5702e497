use atvvoice::protocol::types::{
    AudioMode, AudioStartReason, AudioStopReason, Codec, Codecs, CtlOpcode, InteractionModel,
    MicOpenErrorCode, ProtocolVersion, StreamId, TxOpcode,
};

#[test]
fn test_tx_opcode_to_u8() {
    assert_eq!(u8::from(TxOpcode::GetCaps), 0x0A);
    assert_eq!(u8::from(TxOpcode::MicOpen), 0x0C);
    assert_eq!(u8::from(TxOpcode::MicClose), 0x0D);
    assert_eq!(u8::from(TxOpcode::MicExtend), 0x0E);
}

#[test]
fn test_ctl_opcode_from_u8() {
    assert_eq!(CtlOpcode::try_from(0x00), Ok(CtlOpcode::AudioStop));
    assert_eq!(CtlOpcode::try_from(0x04), Ok(CtlOpcode::AudioStart));
    assert_eq!(CtlOpcode::try_from(0x08), Ok(CtlOpcode::StartSearch));
    assert_eq!(CtlOpcode::try_from(0x0A), Ok(CtlOpcode::AudioSync));
    assert_eq!(CtlOpcode::try_from(0x0B), Ok(CtlOpcode::CapsResp));
    assert_eq!(CtlOpcode::try_from(0x0C), Ok(CtlOpcode::MicOpenError));
    assert!(CtlOpcode::try_from(0xFF).is_err());
}

#[test]
fn test_codec_values() {
    assert_eq!(u8::from(Codec::Adpcm8kHz), 0x01);
    assert_eq!(u8::from(Codec::Adpcm16kHz), 0x02);
    assert_eq!(Codec::Adpcm8kHz.sample_rate(), 8000);
    assert_eq!(Codec::Adpcm16kHz.sample_rate(), 16000);
}

#[test]
fn test_codecs_bitmask() {
    let both = Codecs::adpcm_8khz() | Codecs::adpcm_16khz();
    assert!(both.contains(Codecs::adpcm_8khz()));
    assert!(both.contains(Codecs::adpcm_16khz()));
    assert_eq!(both.bits(), 0x03);
    let eight_only = Codecs::from_bits_truncate(0x01);
    assert!(eight_only.contains(Codecs::adpcm_8khz()));
    assert!(!eight_only.contains(Codecs::adpcm_16khz()));
}

#[test]
fn test_stream_id_constants() {
    assert_eq!(StreamId::mic_open().0, 0x00);
    assert_eq!(StreamId::any().0, 0xFF);
}

#[test]
fn test_audio_start_reason() {
    assert_eq!(
        AudioStartReason::try_from(0x00),
        Ok(AudioStartReason::MicOpen)
    );
    assert_eq!(
        AudioStartReason::try_from(0x01),
        Ok(AudioStartReason::PressToTalk)
    );
    assert_eq!(
        AudioStartReason::try_from(0x03),
        Ok(AudioStartReason::HoldToTalk)
    );
    assert!(AudioStartReason::try_from(0x02).is_err());
}

#[test]
fn test_audio_stop_reason() {
    assert!(matches!(
        AudioStopReason::from(0x00),
        AudioStopReason::MicClose
    ));
    assert!(matches!(
        AudioStopReason::from(0x02),
        AudioStopReason::HttButtonRelease
    ));
    assert!(matches!(
        AudioStopReason::from(0x04),
        AudioStopReason::UpcomingAudioStart
    ));
    assert!(matches!(
        AudioStopReason::from(0x08),
        AudioStopReason::TransferTimeout
    ));
    assert!(matches!(
        AudioStopReason::from(0x10),
        AudioStopReason::NotificationsDisabled
    ));
    assert!(matches!(
        AudioStopReason::from(0x80),
        AudioStopReason::Other(0x80)
    ));
    assert!(matches!(
        AudioStopReason::from(0x99),
        AudioStopReason::Other(0x99)
    ));
}

#[test]
fn test_mic_open_error_code() {
    assert!(matches!(
        MicOpenErrorCode::from(0x0F01),
        MicOpenErrorCode::InvalidCodec
    ));
    assert!(matches!(
        MicOpenErrorCode::from(0x0F02),
        MicOpenErrorCode::RemoteNotActive
    ));
    assert!(matches!(
        MicOpenErrorCode::from(0x0F03),
        MicOpenErrorCode::NotificationsDisabled
    ));
    assert!(matches!(
        MicOpenErrorCode::from(0x0F80),
        MicOpenErrorCode::PttHttInProgress
    ));
    assert!(matches!(
        MicOpenErrorCode::from(0x0FFF),
        MicOpenErrorCode::InternalError
    ));
    assert!(matches!(
        MicOpenErrorCode::from(0x1234),
        MicOpenErrorCode::Unknown(0x1234)
    ));
}

#[test]
fn test_protocol_version_parse() {
    assert_eq!(ProtocolVersion::parse("0.4"), Ok(ProtocolVersion::V0_4));
    assert_eq!(ProtocolVersion::parse("1.0"), Ok(ProtocolVersion::V1_0));
    assert!(ProtocolVersion::parse("2.0").is_err());
    assert!(ProtocolVersion::parse("abc").is_err());
}

#[test]
fn test_interaction_model() {
    assert_eq!(
        InteractionModel::try_from(0x00),
        Ok(InteractionModel::OnRequest)
    );
    assert_eq!(
        InteractionModel::try_from(0x01),
        Ok(InteractionModel::PressToTalk)
    );
    assert_eq!(
        InteractionModel::try_from(0x03),
        Ok(InteractionModel::HoldToTalk)
    );
}

#[test]
fn test_audio_mode() {
    assert_eq!(u8::from(AudioMode::Playback), 0x00);
    assert_eq!(u8::from(AudioMode::Capture), 0x01);
}
