//! ATVV v0.4.

use super::types::{
    AudioFrame, AudioFrameSize, AudioFrameView, AudioStartReason, AudioStopReason, AudioSyncData,
    Capabilities, Codec, Codecs, CtlEvent, CtlEventView, CtlOpcode, InteractionModel,
    MicOpenErrorCode, NoCommonCodec, ProtocolVersion, StreamId, TxOpcode,
};
use super::{best_codec, negotiate_best, Protocol, ProtocolModel};
use crate::adpcm::{frame_samples, AdpcmDecoder};
use crate::wire::{be_bytes, be_u16, i16_from_be, u16_from_be, u16_to_be};
use vstd::prelude::*;
use vstd::slice::{slice_subrange, slice_to_vec};

verus! {

/// v0.4 CTL payload minimum length (including opcode byte): opcode + frame_num(2).
pub const AUDIO_SYNC_MIN_LEN: usize = 3;

/// opcode + version(2) + codecs(2) + frame_size(2) + bytes_per_char(2)
pub const CAPS_RESP_MIN_LEN: usize = 9;

/// opcode + error_code(2)
pub const MIC_OPEN_ERROR_MIN_LEN: usize = 3;

/// v0.4 audio frame header: seq(2) + padding(1) + predictor(2) + step_index(1).
pub const FRAME_HEADER_SIZE: usize = 6;

/// GET_CAPS: opcode, version(2), codecs(2).
pub open spec fn caps_bytes() -> Seq<u8> {
    seq![TxOpcode::GetCaps.wire()] + be_bytes(ProtocolVersion::V0_4.wire()) + seq![0x00, 0x03]
}

/// MIC_CLOSE: the opcode alone.
pub open spec fn close_bytes() -> Seq<u8> {
    seq![TxOpcode::MicClose.wire()]
}

/// The settings that a v0.4 protocol's answers depend on. Its decoder starts over with
/// each frame, so nothing depends on what it decoded before.
pub struct V04Model {
    pub selected_codec: Option<Codec>,
    pub audio_frame_size: AudioFrameSize,
}

/// The chosen codec, 8 kHz as long as none is chosen.
pub open spec fn codec_or_default(codec: Option<Codec>) -> Codec {
    match codec {
        Some(c) => c,
        None => Codec::Adpcm8kHz,
    }
}

impl V04Model {
    pub open spec fn fresh() -> V04Model {
        V04Model { selected_codec: None, audio_frame_size: AudioFrameSize(134) }
    }

    /// MIC_OPEN: opcode, codec(2).
    pub open spec fn open_bytes(self) -> Seq<u8> {
        seq![TxOpcode::MicOpen.wire(), 0x00, codec_or_default(self.selected_codec).wire()]
    }

    /// What a CTL notification says. AUDIO_START and AUDIO_STOP have no payload in v0.4;
    /// what is too short for its opcode, or has an unknown one, is passed on as it came.
    pub open spec fn ctl(self, data: Seq<u8>) -> CtlEventView {
        if data.len() == 0 {
            CtlEventView::Unknown(data)
        } else {
            match CtlOpcode::decode(data[0]) {
                Ok(CtlOpcode::AudioStop) => CtlEventView::AudioStop {
                    reason: AudioStopReason::MicClose,
                },
                Ok(CtlOpcode::AudioStart) => CtlEventView::AudioStart {
                    reason: AudioStartReason::MicOpen,
                    codec: codec_or_default(self.selected_codec),
                    stream_id: StreamId(0x00),
                },
                Ok(CtlOpcode::StartSearch) => CtlEventView::StartSearch,
                Ok(CtlOpcode::AudioSync) if data.len() >= AUDIO_SYNC_MIN_LEN =>
                    CtlEventView::AudioSync(
                    AudioSyncData::FrameNum { seq: be_u16(data[1], data[2]) },
                ),
                Ok(CtlOpcode::CapsResp) if data.len() >= CAPS_RESP_MIN_LEN =>
                    CtlEventView::CapsResp(
                    Capabilities {
                        version: ProtocolVersion::read_or(
                            be_u16(data[1], data[2]),
                            ProtocolVersion::V0_4,
                        ),
                        codecs: Codecs { bits: data[4] & 0x03 },
                        interaction_model: InteractionModel::OnRequest,
                        audio_frame_size: AudioFrameSize(be_u16(data[5], data[6])),
                    },
                ),
                Ok(CtlOpcode::MicOpenError) if data.len() >= MIC_OPEN_ERROR_MIN_LEN =>
                    CtlEventView::MicOpenError(MicOpenErrorCode::decode(be_u16(data[1], data[2]))),
                _ => CtlEventView::Unknown(data),
            }
        }
    }

    pub open spec fn after_caps(self, caps: Capabilities) -> V04Model {
        match best_codec(caps.codecs) {
            Ok(codec) => V04Model {
                selected_codec: Some(codec),
                audio_frame_size: caps.audio_frame_size,
            },
            Err(_) => self,
        }
    }

    /// The frame that a notification of the agreed size holds.
    pub open spec fn audio(self, data: Seq<u8>) -> Option<AudioFrameView> {
        if data.len() == self.audio_frame_size.0 && data.len() >= FRAME_HEADER_SIZE {
            Some(
                AudioFrameView {
                    seq: be_u16(data[0], data[1]),
                    codec: codec_or_default(self.selected_codec),
                    samples: frame_samples(data),
                },
            )
        } else {
            None
        }
    }
}

/// ATVV v0.4 protocol implementation.
pub struct ProtocolV04 {
    pub selected_codec: Option<Codec>,
    pub audio_frame_size: AudioFrameSize,
    pub decoder: AdpcmDecoder,
}

impl Default for ProtocolV04 {
    fn default() -> (r: Self)
        ensures
            r.model() == ProtocolModel::V04(V04Model::fresh()),
    {
        ProtocolV04 {
            selected_codec: None,
            audio_frame_size: AudioFrameSize::default_v04(),
            decoder: AdpcmDecoder::new(),
        }
    }
}

impl ProtocolV04 {
    pub fn new() -> (r: Self)
        ensures
            r.model() == ProtocolModel::V04(V04Model::fresh()),
    {
        Self::default()
    }

    /// Negotiate the best codec from the intersection of remote and our support.
    /// Prefers highest quality (16kHz > 8kHz).
    pub fn negotiate_codec(remote_codecs: Codecs) -> (r: Result<Codec, NoCommonCodec>)
        ensures
            r == best_codec(remote_codecs),
    {
        negotiate_best(remote_codecs)
    }
}

/// The chosen codec, 8 kHz as long as none is chosen.
pub(crate) fn chosen_codec(codec: Option<Codec>) -> (r: Codec)
    ensures
        r == codec_or_default(codec),
{
    match codec {
        Some(c) => c,
        None => Codec::Adpcm8kHz,
    }
}

impl Protocol for ProtocolV04 {
    open spec fn model(&self) -> ProtocolModel {
        ProtocolModel::V04(
            V04Model {
                selected_codec: self.selected_codec,
                audio_frame_size: self.audio_frame_size,
            },
        )
    }

    fn version(&self) -> (r: ProtocolVersion) {
        ProtocolVersion::V0_4
    }

    fn get_caps_cmd(&self) -> (r: Vec<u8>) {
        let ver = u16_to_be(ProtocolVersion::V0_4.wire_value());
        let codecs = Codecs::adpcm_8khz() | Codecs::adpcm_16khz();
        assert(0x01u8 | 0x02u8 == 0x03u8) by (bit_vector);
        let cmd = vec![u8::from(TxOpcode::GetCaps), ver.0, ver.1, 0x00, codecs.bits()];
        assert(seq![ver.0, ver.1][0] == ver.0 && seq![ver.0, ver.1][1] == ver.1);
        assert(cmd@ =~= caps_bytes());
        cmd
    }

    fn mic_open_cmd(&self) -> (r: Vec<u8>) {
        let codec_val: u8 = u8::from(chosen_codec(self.selected_codec));
        vec![u8::from(TxOpcode::MicOpen), 0x00, codec_val]
    }

    fn mic_close_cmd(&self, _stream_id: StreamId) -> (r: Vec<u8>) {
        vec![u8::from(TxOpcode::MicClose)]
    }

    fn keepalive_cmd(&self, _stream_id: StreamId) -> (r: Vec<u8>) {
        self.mic_open_cmd()
    }

    fn parse_ctl(&self, data: &[u8]) -> (r: CtlEvent) {
        if data.len() == 0 {
            return CtlEvent::Unknown(slice_to_vec(data));
        }
        let opcode = match CtlOpcode::try_from(data[0]) {
            Ok(op) => op,
            Err(_) => {
                return CtlEvent::Unknown(slice_to_vec(data));
            },
        };
        match opcode {
            CtlOpcode::AudioStop => CtlEvent::AudioStop { reason: AudioStopReason::MicClose },
            CtlOpcode::AudioStart => CtlEvent::AudioStart {
                reason: AudioStartReason::MicOpen,
                codec: chosen_codec(self.selected_codec),
                stream_id: StreamId::mic_open(),
            },
            CtlOpcode::StartSearch => CtlEvent::StartSearch,
            CtlOpcode::AudioSync => {
                // [opcode, frame_num_hi, frame_num_lo]
                if data.len() >= AUDIO_SYNC_MIN_LEN {
                    let seq: u16 = u16_from_be(data[1], data[2]);
                    CtlEvent::AudioSync(AudioSyncData::FrameNum { seq })
                } else {
                    CtlEvent::Unknown(slice_to_vec(data))
                }
            },
            CtlOpcode::CapsResp => {
                // [opcode, version(2), codecs_supported(2), bytes_per_frame(2), bytes_per_characteristic(2)]
                if data.len() >= CAPS_RESP_MIN_LEN {
                    let version_wire: u16 = u16_from_be(data[1], data[2]);
                    let version = ProtocolVersion::from_wire_or(version_wire, ProtocolVersion::V0_4);
                    // codecs_supported is 2 bytes in v0.4; only low byte has values
                    let codecs = Codecs::from_bits_truncate(data[4]);
                    let frame_size: u16 = u16_from_be(data[5], data[6]);
                    CtlEvent::CapsResp(
                        Capabilities {
                            version,
                            codecs,
                            interaction_model: InteractionModel::OnRequest,
                            audio_frame_size: AudioFrameSize(frame_size),
                        },
                    )
                } else {
                    CtlEvent::Unknown(slice_to_vec(data))
                }
            },
            CtlOpcode::MicOpenError => {
                if data.len() >= MIC_OPEN_ERROR_MIN_LEN {
                    let code: u16 = u16_from_be(data[1], data[2]);
                    CtlEvent::MicOpenError(MicOpenErrorCode::from(code))
                } else {
                    CtlEvent::Unknown(slice_to_vec(data))
                }
            },
        }
    }

    fn on_caps_resp(&mut self, caps: &Capabilities) -> (r: Result<Codec, NoCommonCodec>) {
        let codec = Self::negotiate_codec(caps.codecs)?;
        self.selected_codec = Some(codec);
        self.audio_frame_size = caps.audio_frame_size;
        Ok(codec)
    }

    fn decode_audio(&mut self, data: &[u8]) -> (r: Option<AudioFrame>) {
        let expected: usize = self.audio_frame_size.0 as usize;
        if data.len() != expected {
            return None;
        }
        if data.len() < FRAME_HEADER_SIZE {
            return None;
        }
        // Header: seq(2) + id(1) + predictor(2) + step_index(1)
        let seq: u16 = u16_from_be(data[0], data[1]);
        let predictor: i16 = i16_from_be(data[3], data[4]);
        let step_index: u8 = data[5];

        // Per-frame reset from the frame header
        self.decoder.reset(predictor, step_index);
        let payload = slice_subrange(data, 6, data.len());
        assert(payload@ =~= data@.skip(6));
        let mut decoded: Vec<i16> = self.decoder.decode_bytes(payload);

        let mut samples: Vec<i16> = vec![predictor];
        samples.append(&mut decoded);
        assert(samples@ =~= frame_samples(data@));
        Some(AudioFrame { seq, codec: chosen_codec(self.selected_codec), samples })
    }

    fn on_audio_sync(&mut self, sync: &AudioSyncData)
        ensures
            *final(self) == *old(self),
    {
        // No decoder state in v0.4 AUDIO_SYNC
        match sync {
            AudioSyncData::FrameNum { .. } => {},
            AudioSyncData::Full { .. } => {},
        }
    }
}

} // verus!
