//! ATVV v1.0.
//!
//! Key differences from v0.4:
//! - GET_CAPS includes interaction model support
//! - MIC_OPEN takes audio_mode, not codec
//! - MIC_CLOSE and MIC_EXTEND include stream_id
//! - AUDIO_START/STOP/SYNC have payloads (reason, codec, stream_id, decoder state)
//! - Audio frames are headerless (decoder state persists, reset via AUDIO_SYNC)

use super::types::{
    AudioFrame, AudioFrameSize, AudioFrameView, AudioMode, AudioStartReason, AudioStopReason,
    AudioSyncData, Capabilities, Codec, Codecs, CtlEvent, CtlEventView, CtlOpcode,
    InteractionModel, MicOpenErrorCode, NoCommonCodec, ProtocolVersion, StreamId, TxOpcode,
};
use super::v04::{chosen_codec, codec_or_default};
use super::{best_codec, negotiate_best, Protocol, ProtocolModel};
use crate::adpcm::{nibbles_of, AdpcmDecoder};
use crate::wire::{be_bytes, be_i16, be_u16, i16_from_be, u16_from_be, u16_to_be};
use vstd::prelude::*;
use vstd::slice::slice_to_vec;

verus! {

/// Interaction model support bitmask sent in GET_CAPS:
/// bit 0 = PTT (0x01), bit 1 = HTT (0x02). OnRequest is always implied.
pub const SUPPORTED_INTERACTION_MODELS: u8 = 0x03;

/// v1.0 CTL payload minimum length (including opcode byte):
/// opcode + reason(1) + codec(1) + stream_id(1)
pub const AUDIO_START_MIN_LEN: usize = 4;

/// opcode + codec(1) + frame_num(2) + predictor(2) + step_index(1)
pub const AUDIO_SYNC_MIN_LEN: usize = 7;

/// opcode + version(2) + codecs(1) + model(1) + frame_size(2)
pub const CAPS_RESP_MIN_LEN: usize = 7;

/// opcode + error_code(2)
pub const MIC_OPEN_ERROR_MIN_LEN: usize = 3;

/// GET_CAPS: opcode, version(2), codecs(2), interaction models.
pub open spec fn caps_bytes() -> Seq<u8> {
    seq![TxOpcode::GetCaps.wire()] + be_bytes(ProtocolVersion::V1_0.wire()) + seq![
        0x00,
        0x03,
        SUPPORTED_INTERACTION_MODELS,
    ]
}

/// MIC_OPEN: opcode, audio mode.
pub open spec fn open_bytes() -> Seq<u8> {
    seq![TxOpcode::MicOpen.wire(), AudioMode::Playback.wire()]
}

/// MIC_CLOSE: opcode, stream.
pub open spec fn close_bytes(stream_id: StreamId) -> Seq<u8> {
    seq![TxOpcode::MicClose.wire(), stream_id.0]
}

/// MIC_EXTEND: opcode, stream.
pub open spec fn extend_bytes(stream_id: StreamId) -> Seq<u8> {
    seq![TxOpcode::MicExtend.wire(), stream_id.0]
}

/// What a CTL notification says. What is too short for its opcode, or has an unknown
/// one, is passed on as it came; an AUDIO_STOP without a reason is a MicClose.
pub open spec fn ctl(data: Seq<u8>) -> CtlEventView {
    if data.len() == 0 {
        CtlEventView::Unknown(data)
    } else {
        match CtlOpcode::decode(data[0]) {
            Ok(CtlOpcode::AudioStop) => CtlEventView::AudioStop {
                reason: if data.len() >= 2 {
                    AudioStopReason::decode(data[1])
                } else {
                    AudioStopReason::MicClose
                },
            },
            Ok(CtlOpcode::AudioStart) if data.len() >= AUDIO_START_MIN_LEN =>
                CtlEventView::AudioStart {
                reason: AudioStartReason::read_or(data[1], AudioStartReason::MicOpen),
                codec: Codec::read_or(data[2], Codec::Adpcm8kHz),
                stream_id: StreamId(data[3]),
            },
            Ok(CtlOpcode::StartSearch) => CtlEventView::StartSearch,
            Ok(CtlOpcode::AudioSync) if data.len() >= AUDIO_SYNC_MIN_LEN =>
                CtlEventView::AudioSync(
                AudioSyncData::Full {
                    codec: Codec::read_or(data[1], Codec::Adpcm8kHz),
                    seq: be_u16(data[2], data[3]),
                    predictor: be_i16(data[4], data[5]),
                    step_index: data[6],
                },
            ),
            Ok(CtlOpcode::CapsResp) if data.len() >= CAPS_RESP_MIN_LEN => CtlEventView::CapsResp(
                Capabilities {
                    version: ProtocolVersion::read_or(
                        be_u16(data[1], data[2]),
                        ProtocolVersion::V1_0,
                    ),
                    codecs: Codecs { bits: data[3] & 0x03 },
                    interaction_model: InteractionModel::read_or(
                        data[4],
                        InteractionModel::OnRequest,
                    ),
                    audio_frame_size: AudioFrameSize(be_u16(data[5], data[6])),
                },
            ),
            Ok(CtlOpcode::MicOpenError) if data.len() >= MIC_OPEN_ERROR_MIN_LEN =>
                CtlEventView::MicOpenError(MicOpenErrorCode::decode(be_u16(data[1], data[2]))),
            _ => CtlEventView::Unknown(data),
        }
    }
}

/// The frame number after `n`.
pub open spec fn next_seq(n: u16) -> u16 {
    if n == 0xFFFF {
        0
    } else {
        (n + 1) as u16
    }
}

/// ATVV v1.0 protocol implementation.
pub struct ProtocolV10 {
    pub selected_codec: Option<Codec>,
    pub interaction_model: InteractionModel,
    pub audio_frame_size: AudioFrameSize,
    pub decoder: AdpcmDecoder,
    pub frame_seq: u16,
}

impl Default for ProtocolV10 {
    fn default() -> (r: Self)
        ensures
            r == ProtocolV10::fresh(),
    {
        ProtocolV10 {
            selected_codec: None,
            interaction_model: InteractionModel::OnRequest,
            audio_frame_size: AudioFrameSize::default_v10(),
            decoder: AdpcmDecoder::new(),
            frame_seq: 0,
        }
    }
}

impl ProtocolV10 {
    pub open spec fn fresh() -> ProtocolV10 {
        ProtocolV10 {
            selected_codec: None,
            interaction_model: InteractionModel::OnRequest,
            audio_frame_size: AudioFrameSize(20),
            decoder: AdpcmDecoder::from_header(0, 0),
            frame_seq: 0,
        }
    }

    pub open spec fn after_caps(self, caps: Capabilities) -> ProtocolV10 {
        match best_codec(caps.codecs) {
            Ok(codec) => ProtocolV10 {
                selected_codec: Some(codec),
                interaction_model: caps.interaction_model,
                audio_frame_size: caps.audio_frame_size,
                ..self
            },
            Err(_) => self,
        }
    }

    /// The frame that a notification of the agreed size holds. Its bytes are decoded from
    /// where the last frame or AUDIO_SYNC left the decoder.
    pub open spec fn audio(self, data: Seq<u8>) -> Option<AudioFrameView> {
        if data.len() == self.audio_frame_size.0 {
            Some(
                AudioFrameView {
                    seq: self.frame_seq,
                    codec: codec_or_default(self.selected_codec),
                    samples: self.decoder.samples(nibbles_of(data)),
                },
            )
        } else {
            None
        }
    }

    pub open spec fn after_audio(self, data: Seq<u8>) -> ProtocolV10 {
        if data.len() == self.audio_frame_size.0 {
            ProtocolV10 {
                decoder: self.decoder.after_all(nibbles_of(data)),
                frame_seq: next_seq(self.frame_seq),
                ..self
            }
        } else {
            self
        }
    }

    pub open spec fn after_sync(self, sync: AudioSyncData) -> ProtocolV10 {
        match sync {
            AudioSyncData::Full { codec, seq, predictor, step_index } => ProtocolV10 {
                decoder: AdpcmDecoder::from_header(predictor, step_index),
                frame_seq: seq,
                selected_codec: Some(codec),
                ..self
            },
            AudioSyncData::FrameNum { seq } => ProtocolV10 { frame_seq: seq, ..self },
        }
    }

    pub fn new() -> (r: Self)
        ensures
            r == ProtocolV10::fresh(),
    {
        Self::default()
    }

    /// Negotiate the best codec from remote's supported set.
    pub fn negotiate_codec(remote_codecs: Codecs) -> (r: Result<Codec, NoCommonCodec>)
        ensures
            r == best_codec(remote_codecs),
    {
        negotiate_best(remote_codecs)
    }
}

impl Protocol for ProtocolV10 {
    open spec fn model(&self) -> ProtocolModel {
        ProtocolModel::V10(*self)
    }

    fn version(&self) -> (r: ProtocolVersion) {
        ProtocolVersion::V1_0
    }

    fn get_caps_cmd(&self) -> (r: Vec<u8>) {
        let ver = u16_to_be(ProtocolVersion::V1_0.wire_value());
        let codecs = Codecs::adpcm_8khz() | Codecs::adpcm_16khz();
        assert(0x01u8 | 0x02u8 == 0x03u8) by (bit_vector);
        let cmd = vec![
            u8::from(TxOpcode::GetCaps),
            ver.0,
            ver.1,
            0x00,
            codecs.bits(),
            SUPPORTED_INTERACTION_MODELS,
        ];
        assert(seq![ver.0, ver.1][0] == ver.0 && seq![ver.0, ver.1][1] == ver.1);
        assert(cmd@ =~= caps_bytes());
        cmd
    }

    fn mic_open_cmd(&self) -> (r: Vec<u8>) {
        vec![u8::from(TxOpcode::MicOpen), u8::from(AudioMode::Playback)]
    }

    fn mic_close_cmd(&self, stream_id: StreamId) -> (r: Vec<u8>) {
        vec![u8::from(TxOpcode::MicClose), stream_id.0]
    }

    fn keepalive_cmd(&self, stream_id: StreamId) -> (r: Vec<u8>) {
        vec![u8::from(TxOpcode::MicExtend), stream_id.0]
    }

    fn parse_ctl(&self, data: &[u8]) -> (r: CtlEvent) {
        if data.len() == 0 {
            return CtlEvent::Unknown(slice_to_vec(data));
        }
        let opcode = match CtlOpcode::try_from(data[0]) {
            Ok(op) => op,
            Err(_) => {
                return CtlEvent::Unknown(slice_to_vec(data));
            },
        };
        match opcode {
            CtlOpcode::AudioStop => {
                // [opcode, reason(1)]
                let reason = if data.len() >= 2 {
                    AudioStopReason::from(data[1])
                } else {
                    AudioStopReason::MicClose
                };
                CtlEvent::AudioStop { reason }
            },
            CtlOpcode::AudioStart => {
                // [opcode, reason(1), codec(1), stream_id(1)]
                if data.len() >= AUDIO_START_MIN_LEN {
                    let reason = AudioStartReason::from_code_or(data[1], AudioStartReason::MicOpen);
                    let codec = Codec::from_code_or(data[2], Codec::Adpcm8kHz);
                    let stream_id = StreamId(data[3]);
                    CtlEvent::AudioStart { reason, codec, stream_id }
                } else {
                    CtlEvent::Unknown(slice_to_vec(data))
                }
            },
            CtlOpcode::StartSearch => CtlEvent::StartSearch,
            CtlOpcode::AudioSync => {
                // [opcode, codec(1), frame_num(2), predictor(2), step_index(1)]
                if data.len() >= AUDIO_SYNC_MIN_LEN {
                    let codec = Codec::from_code_or(data[1], Codec::Adpcm8kHz);
                    let seq: u16 = u16_from_be(data[2], data[3]);
                    let predictor: i16 = i16_from_be(data[4], data[5]);
                    let step_index: u8 = data[6];
                    CtlEvent::AudioSync(AudioSyncData::Full { codec, seq, predictor, step_index })
                } else {
                    CtlEvent::Unknown(slice_to_vec(data))
                }
            },
            CtlOpcode::CapsResp => {
                // [opcode, version(2), codecs(1), interaction_model(1), frame_size(2), extra_config(1), reserved(1)]
                if data.len() >= CAPS_RESP_MIN_LEN {
                    let version_wire: u16 = u16_from_be(data[1], data[2]);
                    let version = ProtocolVersion::from_wire_or(version_wire, ProtocolVersion::V1_0);
                    let codecs = Codecs::from_bits_truncate(data[3]);
                    let interaction_model = InteractionModel::from_code_or(
                        data[4],
                        InteractionModel::OnRequest,
                    );
                    let frame_size: u16 = u16_from_be(data[5], data[6]);
                    CtlEvent::CapsResp(
                        Capabilities {
                            version,
                            codecs,
                            interaction_model,
                            audio_frame_size: AudioFrameSize(frame_size),
                        },
                    )
                } else {
                    CtlEvent::Unknown(slice_to_vec(data))
                }
            },
            CtlOpcode::MicOpenError => {
                if data.len() >= MIC_OPEN_ERROR_MIN_LEN {
                    let code: u16 = u16_from_be(data[1], data[2]);
                    CtlEvent::MicOpenError(MicOpenErrorCode::from(code))
                } else {
                    CtlEvent::Unknown(slice_to_vec(data))
                }
            },
        }
    }

    fn on_caps_resp(&mut self, caps: &Capabilities) -> (r: Result<Codec, NoCommonCodec>) {
        let codec = Self::negotiate_codec(caps.codecs)?;
        self.selected_codec = Some(codec);
        self.interaction_model = caps.interaction_model;
        self.audio_frame_size = caps.audio_frame_size;
        Ok(codec)
    }

    fn decode_audio(&mut self, data: &[u8]) -> (r: Option<AudioFrame>) {
        let expected: usize = self.audio_frame_size.0 as usize;
        if data.len() != expected {
            return None;
        }
        // Headerless frames. Decoder state persists across frames,
        // reset only via AUDIO_SYNC.
        let samples: Vec<i16> = self.decoder.decode_bytes(data);
        let seq: u16 = self.frame_seq;
        self.frame_seq = self.frame_seq.wrapping_add(1);
        Some(AudioFrame { seq, codec: chosen_codec(self.selected_codec), samples })
    }

    fn on_audio_sync(&mut self, sync: &AudioSyncData) {
        match sync {
            AudioSyncData::Full { codec, seq, predictor, step_index } => {
                self.decoder.reset(*predictor, *step_index);
                self.frame_seq = *seq;
                self.selected_codec = Some(*codec);
            },
            AudioSyncData::FrameNum { seq } => {
                self.frame_seq = *seq;
            },
        }
    }
}

} // verus!
