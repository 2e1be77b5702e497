//! ATVV protocol versions.
//!
//! Implementations encode commands, parse CTL notifications, negotiate codecs,
//! and decode audio frames according to their version.

pub mod types;
pub mod v04;
pub mod v10;

use crate::adpcm::{
    frame_samples, lemma_decoder_stays_wf, lemma_decoding_continues, lemma_nibbles_concat,
    nibbles_of, AdpcmDecoder, FRAME_SIZE, SAMPLES_PER_FRAME,
};
use crate::wire::{be_u16, u16_from_be};
use types::{
    AudioFrame, AudioFrameSize, AudioFrameView, AudioStartReason, AudioStopReason, AudioSyncData,
    Capabilities, Codec, Codecs, CtlEvent, CtlEventView, CtlOpcode, InteractionModel,
    MicOpenErrorCode, NoCommonCodec, ProtocolVersion, StreamId, TxOpcode,
};
use v04::{ProtocolV04, V04Model};
use v10::ProtocolV10;
use vstd::prelude::*;

verus! {

/// What can be told of a protocol implementation from outside: its version, and the
/// settings and decoder state that its answers depend on.
pub enum ProtocolModel {
    V04(V04Model),
    V10(ProtocolV10),
}

impl ProtocolModel {
    /// A protocol that has heard nothing yet.
    pub open spec fn fresh(version: ProtocolVersion) -> ProtocolModel {
        match version {
            ProtocolVersion::V0_4 => ProtocolModel::V04(V04Model::fresh()),
            ProtocolVersion::V1_0 => ProtocolModel::V10(ProtocolV10::fresh()),
        }
    }

    /// The decoder state is valid.
    pub open spec fn wf(self) -> bool {
        match self {
            ProtocolModel::V04(_) => true,
            ProtocolModel::V10(p) => p.decoder.wf(),
        }
    }

    pub open spec fn version(self) -> ProtocolVersion {
        match self {
            ProtocolModel::V04(_) => ProtocolVersion::V0_4,
            ProtocolModel::V10(_) => ProtocolVersion::V1_0,
        }
    }

    /// The GET_CAPS command.
    pub open spec fn caps_bytes(self) -> Seq<u8> {
        match self {
            ProtocolModel::V04(_) => v04::caps_bytes(),
            ProtocolModel::V10(_) => v10::caps_bytes(),
        }
    }

    /// The MIC_OPEN command.
    pub open spec fn open_bytes(self) -> Seq<u8> {
        match self {
            ProtocolModel::V04(m) => m.open_bytes(),
            ProtocolModel::V10(_) => v10::open_bytes(),
        }
    }

    /// The MIC_CLOSE command for a stream.
    pub open spec fn close_bytes(self, stream_id: StreamId) -> Seq<u8> {
        match self {
            ProtocolModel::V04(_) => v04::close_bytes(),
            ProtocolModel::V10(_) => v10::close_bytes(stream_id),
        }
    }

    /// The command that keeps a stream open.
    pub open spec fn keepalive_bytes(self, stream_id: StreamId) -> Seq<u8> {
        match self {
            ProtocolModel::V04(m) => m.open_bytes(),
            ProtocolModel::V10(_) => v10::extend_bytes(stream_id),
        }
    }

    /// What a CTL notification says.
    pub open spec fn ctl(self, data: Seq<u8>) -> CtlEventView {
        match self {
            ProtocolModel::V04(m) => m.ctl(data),
            ProtocolModel::V10(_) => v10::ctl(data),
        }
    }

    /// The protocol once capabilities have arrived. Without a common codec it stays as
    /// it is.
    pub open spec fn after_caps(self, caps: Capabilities) -> ProtocolModel {
        match self {
            ProtocolModel::V04(m) => ProtocolModel::V04(m.after_caps(caps)),
            ProtocolModel::V10(p) => ProtocolModel::V10(p.after_caps(caps)),
        }
    }

    /// The audio frame that a notification holds.
    pub open spec fn audio(self, data: Seq<u8>) -> Option<AudioFrameView> {
        match self {
            ProtocolModel::V04(m) => m.audio(data),
            ProtocolModel::V10(p) => p.audio(data),
        }
    }

    /// The protocol once an audio notification has been decoded.
    pub open spec fn after_audio(self, data: Seq<u8>) -> ProtocolModel {
        match self {
            ProtocolModel::V04(_) => self,
            ProtocolModel::V10(p) => ProtocolModel::V10(p.after_audio(data)),
        }
    }

    /// The protocol once an AUDIO_SYNC has arrived.
    pub open spec fn after_sync(self, sync: AudioSyncData) -> ProtocolModel {
        match self {
            ProtocolModel::V04(_) => self,
            ProtocolModel::V10(p) => ProtocolModel::V10(p.after_sync(sync)),
        }
    }
}

/// The codec to use with a remote: the one of the highest quality (16kHz > 8kHz) that it
/// supports.
pub open spec fn best_codec(remote: Codecs) -> Result<Codec, NoCommonCodec> {
    if remote.bits & 0x02 == 0x02 {
        Ok(Codec::Adpcm16kHz)
    } else if remote.bits & 0x01 == 0x01 {
        Ok(Codec::Adpcm8kHz)
    } else {
        Err(NoCommonCodec { remote, ours: Codecs { bits: 0x03 } })
    }
}

/// Negotiate the best codec from the intersection of remote and our support.
pub(crate) fn negotiate_best(remote_codecs: Codecs) -> (r: Result<Codec, NoCommonCodec>)
    ensures
        r == best_codec(remote_codecs),
{
    let ours = Codecs::adpcm_8khz() | Codecs::adpcm_16khz();
    let common = remote_codecs & ours;
    proof {
        let b = remote_codecs.bits;
        assert(0x01u8 | 0x02u8 == 0x03u8) by (bit_vector);
        assert((b & 0x03u8) & 0x02u8 == b & 0x02u8) by (bit_vector);
        assert((b & 0x03u8) & 0x01u8 == b & 0x01u8) by (bit_vector);
    }
    if common.contains(Codecs::adpcm_16khz()) {
        Ok(Codec::Adpcm16kHz)
    } else if common.contains(Codecs::adpcm_8khz()) {
        Ok(Codec::Adpcm8kHz)
    } else {
        Err(NoCommonCodec { remote: remote_codecs, ours })
    }
}

/// Protocol abstraction for ATVV v0.4 and v1.0.
pub trait Protocol: Send {
    /// What the answers of this implementation depend on.
    spec fn model(&self) -> ProtocolModel;

    /// Protocol version this implementation speaks.
    fn version(&self) -> (r: ProtocolVersion)
        ensures
            r == self.model().version(),
    ;

    /// Build the GET_CAPS command bytes (including opcode).
    fn get_caps_cmd(&self) -> (r: Vec<u8>)
        ensures
            r@ == self.model().caps_bytes(),
    ;

    /// Build MIC_OPEN command bytes.
    fn mic_open_cmd(&self) -> (r: Vec<u8>)
        ensures
            r@ == self.model().open_bytes(),
    ;

    /// Build MIC_CLOSE command bytes for a given stream.
    fn mic_close_cmd(&self, stream_id: StreamId) -> (r: Vec<u8>)
        ensures
            r@ == self.model().close_bytes(stream_id),
    ;

    /// Build keepalive command bytes.
    /// v1.0: MIC_EXTEND. v0.4: MIC_OPEN (no MIC_EXTEND support).
    fn keepalive_cmd(&self, stream_id: StreamId) -> (r: Vec<u8>)
        ensures
            r@ == self.model().keepalive_bytes(stream_id),
    ;

    /// Parse a CTL notification into a typed event.
    fn parse_ctl(&self, data: &[u8]) -> (r: CtlEvent)
        ensures
            r@ == self.model().ctl(data@),
    ;

    /// Process received capabilities. Returns the negotiated codec.
    fn on_caps_resp(&mut self, caps: &Capabilities) -> (r: Result<Codec, NoCommonCodec>)
        ensures
            r == best_codec(caps.codecs),
            final(self).model() == old(self).model().after_caps(*caps),
    ;

    /// Decode an audio frame notification into PCM samples.
    /// Returns None if the frame is invalid/wrong size.
    fn decode_audio(&mut self, data: &[u8]) -> (r: Option<AudioFrame>)
        requires
            old(self).model().wf(),
        ensures
            match r {
                Some(frame) => old(self).model().audio(data@) == Some(frame@),
                None => old(self).model().audio(data@) is None,
            },
            final(self).model() == old(self).model().after_audio(data@),
    ;

    /// Handle AUDIO_SYNC (update internal decoder state).
    fn on_audio_sync(&mut self, sync: &AudioSyncData)
        ensures
            final(self).model() == old(self).model().after_sync(*sync),
    ;
}

/// A protocol of either version.
pub enum AnyProtocol {
    V04(ProtocolV04),
    V10(ProtocolV10),
}

impl Protocol for AnyProtocol {
    open spec fn model(&self) -> ProtocolModel {
        match self {
            AnyProtocol::V04(p) => p.model(),
            AnyProtocol::V10(p) => p.model(),
        }
    }

    fn version(&self) -> (r: ProtocolVersion) {
        match self {
            AnyProtocol::V04(p) => p.version(),
            AnyProtocol::V10(p) => p.version(),
        }
    }

    fn get_caps_cmd(&self) -> (r: Vec<u8>) {
        match self {
            AnyProtocol::V04(p) => p.get_caps_cmd(),
            AnyProtocol::V10(p) => p.get_caps_cmd(),
        }
    }

    fn mic_open_cmd(&self) -> (r: Vec<u8>) {
        match self {
            AnyProtocol::V04(p) => p.mic_open_cmd(),
            AnyProtocol::V10(p) => p.mic_open_cmd(),
        }
    }

    fn mic_close_cmd(&self, stream_id: StreamId) -> (r: Vec<u8>) {
        match self {
            AnyProtocol::V04(p) => p.mic_close_cmd(stream_id),
            AnyProtocol::V10(p) => p.mic_close_cmd(stream_id),
        }
    }

    fn keepalive_cmd(&self, stream_id: StreamId) -> (r: Vec<u8>) {
        match self {
            AnyProtocol::V04(p) => p.keepalive_cmd(stream_id),
            AnyProtocol::V10(p) => p.keepalive_cmd(stream_id),
        }
    }

    fn parse_ctl(&self, data: &[u8]) -> (r: CtlEvent) {
        match self {
            AnyProtocol::V04(p) => p.parse_ctl(data),
            AnyProtocol::V10(p) => p.parse_ctl(data),
        }
    }

    fn on_caps_resp(&mut self, caps: &Capabilities) -> (r: Result<Codec, NoCommonCodec>) {
        match self {
            AnyProtocol::V04(p) => p.on_caps_resp(caps),
            AnyProtocol::V10(p) => p.on_caps_resp(caps),
        }
    }

    fn decode_audio(&mut self, data: &[u8]) -> (r: Option<AudioFrame>) {
        match self {
            AnyProtocol::V04(p) => p.decode_audio(data),
            AnyProtocol::V10(p) => p.decode_audio(data),
        }
    }

    fn on_audio_sync(&mut self, sync: &AudioSyncData) {
        match self {
            AnyProtocol::V04(p) => p.on_audio_sync(sync),
            AnyProtocol::V10(p) => p.on_audio_sync(sync),
        }
    }
}

/// Create a Protocol implementation for the given version.
pub fn create_protocol(version: ProtocolVersion) -> (r: AnyProtocol)
    ensures
        r.model() == ProtocolModel::fresh(version),
        r.model().wf(),
{
    match version {
        ProtocolVersion::V0_4 => AnyProtocol::V04(ProtocolV04::new()),
        ProtocolVersion::V1_0 => AnyProtocol::V10(ProtocolV10::new()),
    }
}

/// Create the Protocol implementation that a remote's capabilities call for, with the
/// codec that it will use.
pub fn create_negotiated(caps: &Capabilities) -> (r: Result<(AnyProtocol, Codec), NoCommonCodec>)
    ensures
        match r {
            Ok((protocol, codec)) => {
                &&& best_codec(caps.codecs) == Ok::<Codec, NoCommonCodec>(codec)
                &&& protocol.model() == ProtocolModel::fresh(caps.version).after_caps(*caps)
                &&& protocol.model().wf()
            },
            Err(e) => best_codec(caps.codecs) == Err::<Codec, NoCommonCodec>(e),
        },
{
    let mut protocol = create_protocol(caps.version);
    match protocol.on_caps_resp(caps) {
        Ok(codec) => Ok((protocol, codec)),
        Err(e) => Err(e),
    }
}

/// The GET_CAPS command that opens the negotiation. It is sent in its v1.0 form, before
/// the remote's version is known.
pub fn get_caps_cmd() -> (r: Vec<u8>)
    ensures
        r@ == v10::caps_bytes(),
{
    ProtocolV10::new().get_caps_cmd()
}

/// The capabilities that a CTL notification announces. The version that it names tells
/// the layout of the rest.
pub open spec fn caps_of(data: Seq<u8>) -> Option<Capabilities> {
    let event = if data.len() >= 3 && be_u16(data[1], data[2]) == ProtocolVersion::V0_4.wire() {
        V04Model::fresh().ctl(data)
    } else {
        v10::ctl(data)
    };
    match event {
        CtlEventView::CapsResp(caps) => Some(caps),
        _ => None,
    }
}

/// Reads a CAPS_RESP of either version. Returns None for any other notification.
pub fn parse_caps_resp(data: &[u8]) -> (r: Option<Capabilities>)
    ensures
        r == caps_of(data@),
{
    let v04 = data.len() >= 3 && u16_from_be(data[1], data[2])
        == ProtocolVersion::V0_4.wire_value();
    let event = if v04 {
        ProtocolV04::new().parse_ctl(data)
    } else {
        ProtocolV10::new().parse_ctl(data)
    };
    match event {
        CtlEvent::CapsResp(caps) => Some(caps),
        _ => None,
    }
}

/// No step takes a protocol from a valid decoder state to an invalid one.
pub proof fn lemma_protocol_stays_wf(
    m: ProtocolModel,
    caps: Capabilities,
    data: Seq<u8>,
    sync: AudioSyncData,
)
    requires
        m.wf(),
    ensures
        m.after_caps(caps).wf(),
        m.after_audio(data).wf(),
        m.after_sync(sync).wf(),
{
    if let ProtocolModel::V10(p) = m {
        lemma_decoder_stays_wf(p.decoder, nibbles_of(data));
    }
}

/// No step changes the version.
pub proof fn lemma_protocol_keeps_version(
    m: ProtocolModel,
    caps: Capabilities,
    data: Seq<u8>,
    sync: AudioSyncData,
)
    ensures
        m.after_caps(caps).version() == m.version(),
        m.after_audio(data).version() == m.version(),
        m.after_sync(sync).version() == m.version(),
{
}

/// GET_CAPS starts with its opcode and names the version that it is sent for.
pub proof fn lemma_get_caps_names_version(m: ProtocolModel)
    ensures
        m.caps_bytes().len() >= 5,
        m.caps_bytes()[0] == TxOpcode::GetCaps.wire(),
        be_u16(m.caps_bytes()[1], m.caps_bytes()[2]) == m.version().wire(),
{
}

/// Each command starts with its own opcode, so that a remote can tell them apart. Only
/// v0.4, which has no MIC_EXTEND, keeps a stream alive with MIC_OPEN.
pub proof fn lemma_commands_start_with_opcode(m: ProtocolModel, stream_id: StreamId)
    ensures
        m.open_bytes().len() > 0 && m.open_bytes()[0] == TxOpcode::MicOpen.wire(),
        m.close_bytes(stream_id).len() > 0 && m.close_bytes(stream_id)[0]
            == TxOpcode::MicClose.wire(),
        m.version() == ProtocolVersion::V0_4 ==> m.keepalive_bytes(stream_id) == m.open_bytes(),
        m.version() == ProtocolVersion::V1_0 ==> m.keepalive_bytes(stream_id) == seq![
            TxOpcode::MicExtend.wire(),
            stream_id.0,
        ],
{
}

/// v0.4 opens the microphone with the codec that was negotiated.
pub proof fn lemma_v04_opens_with_negotiated_codec(m: V04Model, caps: Capabilities, codec: Codec)
    requires
        best_codec(caps.codecs) == Ok::<Codec, NoCommonCodec>(codec),
    ensures
        m.after_caps(caps).open_bytes().last() == codec.wire(),
{
}

/// The negotiated codec is one that the remote supports, and the 8 kHz codec is only
/// taken where the remote lacks the 16 kHz one.
pub proof fn lemma_best_codec_is_supported(remote: Codecs, codec: Codec)
    requires
        best_codec(remote) == Ok::<Codec, NoCommonCodec>(codec),
    ensures
        remote.bits & codec.wire() == codec.wire(),
        codec == Codec::Adpcm8kHz ==> remote.bits & Codec::Adpcm16kHz.wire() == 0,
{
    let b = remote.bits;
    assert(b & 0x02 != 0x02 ==> b & 0x02 == 0) by (bit_vector);
}

/// A remote that supports none of the codecs changes nothing.
pub proof fn lemma_failed_negotiation_changes_nothing(m: ProtocolModel, caps: Capabilities)
    requires
        best_codec(caps.codecs) is Err,
    ensures
        m.after_caps(caps) == m,
{
}

/// What is not understood is handed on byte for byte.
pub proof fn lemma_unknown_is_verbatim(m: ProtocolModel, data: Seq<u8>, raw: Seq<u8>)
    requires
        m.ctl(data) == CtlEventView::Unknown(raw),
    ensures
        raw == data,
{
}

/// Bytes after the payload of a notification that is understood change nothing. The one
/// exception is a v1.0 AUDIO_STOP without its reason byte: the next byte is the reason.
pub proof fn lemma_trailing_bytes_are_ignored(m: ProtocolModel, data: Seq<u8>, extra: Seq<u8>)
    requires
        !(m.ctl(data) is Unknown),
        !(m.version() == ProtocolVersion::V1_0 && data.len() == 1 && data[0]
            == CtlOpcode::AudioStop.wire()),
    ensures
        m.ctl(data + extra) == m.ctl(data),
{
}

/// A v0.4 frame of the standard size decodes to the sequence number and samples that
/// `decode_frame` gives for it, whatever was decoded before.
pub proof fn lemma_v04_frame_is_decode_frame(m: V04Model, data: Seq<u8>)
    requires
        m.audio_frame_size == AudioFrameSize(FRAME_SIZE as u16),
        data.len() == FRAME_SIZE,
    ensures
        m.audio(data) is Some,
        m.audio(data)->0.seq == be_u16(data[0], data[1]),
        m.audio(data)->0.samples == frame_samples(data),
        m.audio(data)->0.samples.len() == SAMPLES_PER_FRAME,
{
}

/// Two v1.0 frames in a row decode to the samples that their bytes decode to as one
/// string, and count up the frame number: the decoder state persists.
pub proof fn lemma_v10_frames_continue(p: ProtocolV10, a: Seq<u8>, b: Seq<u8>)
    requires
        a.len() == p.audio_frame_size.0,
        b.len() == p.audio_frame_size.0,
    ensures
        p.audio(a) is Some && p.after_audio(a).audio(b) is Some,
        p.audio(a)->0.samples + p.after_audio(a).audio(b)->0.samples == p.decoder.samples(
            nibbles_of(a + b),
        ),
        p.after_audio(a).audio(b)->0.seq == v10::next_seq(p.audio(a)->0.seq),
{
    lemma_nibbles_concat(a, b);
    lemma_decoding_continues(p.decoder, nibbles_of(a), nibbles_of(b));
}

/// After a full AUDIO_SYNC, v1.0 decodes the same whatever it had decoded before.
pub proof fn lemma_v10_sync_resets(p: ProtocolV10, q: ProtocolV10, sync: AudioSyncData, data: Seq<u8>)
    requires
        sync is Full,
        p.audio_frame_size == q.audio_frame_size,
    ensures
        p.after_sync(sync).audio(data) == q.after_sync(sync).audio(data),
{
}

/// A CAPS_RESP is read the same way during negotiation and by the protocol of the version
/// that it names.
pub proof fn lemma_negotiated_caps_agree(data: Seq<u8>, caps: Capabilities, m: ProtocolModel)
    requires
        caps_of(data) == Some(caps),
        m.version() == caps.version,
    ensures
        m.ctl(data) == CtlEventView::CapsResp(caps),
{
}

/// What an implementation shows is what it holds, and nothing that it has not been told.
pub proof fn lemma_models_show_settings(p: ProtocolV04, q: ProtocolV10)
    ensures
        p.model() == ProtocolModel::V04(
            V04Model { selected_codec: p.selected_codec, audio_frame_size: p.audio_frame_size },
        ),
        q.model() == ProtocolModel::V10(q),
        AnyProtocol::V04(p).model() == p.model(),
        AnyProtocol::V10(q).model() == q.model(),
{
}

/// A protocol that has heard nothing: no codec is chosen, v0.4 frames have 134 bytes and v1.0
/// frames 20, the decoder is at rest and frames are counted from 0.
pub proof fn lemma_fresh_protocols()
    ensures
        ProtocolModel::fresh(ProtocolVersion::V0_4) == ProtocolModel::V04(
            V04Model { selected_codec: None, audio_frame_size: AudioFrameSize(134) },
        ),
        ProtocolModel::fresh(ProtocolVersion::V1_0) == ProtocolModel::V10(
            ProtocolV10 {
                selected_codec: None,
                interaction_model: InteractionModel::OnRequest,
                audio_frame_size: AudioFrameSize(20),
                decoder: AdpcmDecoder { predictor: 0, step_index: 0 },
                frame_seq: 0,
            },
        ),
{
}

/// The commands, byte by byte, for v0.4.
pub proof fn lemma_v04_commands(m: V04Model, stream_id: StreamId)
    ensures
        ({
            let p = ProtocolModel::V04(m);
            let codec = if m.selected_codec == Some(Codec::Adpcm16kHz) {
                2u8
            } else {
                1u8
            };
            &&& p.version() == ProtocolVersion::V0_4
            &&& p.caps_bytes() == seq![0x0Au8, 0x00, 0x04, 0x00, 0x03]
            &&& p.open_bytes() == seq![0x0Cu8, 0x00, codec]
            &&& p.close_bytes(stream_id) == seq![0x0Du8]
            &&& p.keepalive_bytes(stream_id) == seq![0x0Cu8, 0x00, codec]
        }),
{
    assert(v04::caps_bytes() =~= seq![0x0Au8, 0x00, 0x04, 0x00, 0x03]);
}

/// The commands, byte by byte, for v1.0.
pub proof fn lemma_v10_commands(p: ProtocolV10, stream_id: StreamId)
    ensures
        ({
            let m = ProtocolModel::V10(p);
            &&& m.version() == ProtocolVersion::V1_0
            &&& m.caps_bytes() == seq![0x0Au8, 0x01, 0x00, 0x00, 0x03, 0x03]
            &&& m.open_bytes() == seq![0x0Cu8, 0x00]
            &&& m.close_bytes(stream_id) == seq![0x0Du8, stream_id.0]
            &&& m.keepalive_bytes(stream_id) == seq![0x0Eu8, stream_id.0]
        }),
{
    assert(v10::caps_bytes() =~= seq![0x0Au8, 0x01, 0x00, 0x00, 0x03, 0x03]);
}

/// What each v0.4 notification says, by its bytes.
pub proof fn lemma_v04_notifications(m: V04Model, data: Seq<u8>)
    ensures
        ({
            let event = ProtocolModel::V04(m).ctl(data);
            if data.len() == 0 {
                event == CtlEventView::Unknown(data)
            } else if data[0] == 0x00 {
                event == CtlEventView::AudioStop { reason: AudioStopReason::MicClose }
            } else if data[0] == 0x04 {
                event == CtlEventView::AudioStart {
                    reason: AudioStartReason::MicOpen,
                    codec: if m.selected_codec == Some(Codec::Adpcm16kHz) {
                        Codec::Adpcm16kHz
                    } else {
                        Codec::Adpcm8kHz
                    },
                    stream_id: StreamId(0),
                }
            } else if data[0] == 0x08 {
                event == CtlEventView::StartSearch
            } else if data[0] == 0x0A && data.len() >= 3 {
                event matches CtlEventView::AudioSync(AudioSyncData::FrameNum { seq }) && seq == 256
                    * data[1] + data[2]
            } else if data[0] == 0x0B && data.len() >= 9 {
                event matches CtlEventView::CapsResp(caps) && {
                    &&& caps.version == (if data[1] == 1 && data[2] == 0 {
                        ProtocolVersion::V1_0
                    } else {
                        ProtocolVersion::V0_4
                    })
                    &&& caps.codecs.bits == data[4] % 4
                    &&& caps.interaction_model == InteractionModel::OnRequest
                    &&& caps.audio_frame_size.0 == 256 * data[5] + data[6]
                }
            } else if data[0] == 0x0C && data.len() >= 3 {
                event == CtlEventView::MicOpenError(
                    MicOpenErrorCode::decode((256 * data[1] + data[2]) as u16),
                )
            } else {
                event == CtlEventView::Unknown(data)
            }
        }),
{
    if data.len() >= 9 {
        let b = data[4];
        assert(b & 0x03 == b % 4) by (bit_vector);
    }
}

/// What each v1.0 notification says, by its bytes.
pub proof fn lemma_v10_notifications(p: ProtocolV10, data: Seq<u8>)
    ensures
        ({
            let event = ProtocolModel::V10(p).ctl(data);
            if data.len() == 0 {
                event == CtlEventView::Unknown(data)
            } else if data[0] == 0x00 {
                event == CtlEventView::AudioStop {
                    reason: if data.len() == 1 {
                        AudioStopReason::MicClose
                    } else {
                        AudioStopReason::decode(data[1])
                    },
                }
            } else if data[0] == 0x04 && data.len() >= 4 {
                event == CtlEventView::AudioStart {
                    reason: if data[1] == 1 {
                        AudioStartReason::PressToTalk
                    } else if data[1] == 3 {
                        AudioStartReason::HoldToTalk
                    } else {
                        AudioStartReason::MicOpen
                    },
                    codec: if data[2] == 2 {
                        Codec::Adpcm16kHz
                    } else {
                        Codec::Adpcm8kHz
                    },
                    stream_id: StreamId(data[3]),
                }
            } else if data[0] == 0x08 {
                event == CtlEventView::StartSearch
            } else if data[0] == 0x0A && data.len() >= 7 {
                event matches CtlEventView::AudioSync(
                    AudioSyncData::Full { codec, seq, predictor, step_index },
                ) && {
                    &&& codec == (if data[1] == 2 {
                        Codec::Adpcm16kHz
                    } else {
                        Codec::Adpcm8kHz
                    })
                    &&& seq == 256 * data[2] + data[3]
                    &&& predictor == (if data[4] >= 128 {
                        256 * data[4] + data[5] - 65536
                    } else {
                        256 * data[4] + data[5]
                    })
                    &&& step_index == data[6]
                }
            } else if data[0] == 0x0B && data.len() >= 7 {
                event matches CtlEventView::CapsResp(caps) && {
                    &&& caps.version == (if data[1] == 0 && data[2] == 4 {
                        ProtocolVersion::V0_4
                    } else {
                        ProtocolVersion::V1_0
                    })
                    &&& caps.codecs.bits == data[3] % 4
                    &&& caps.interaction_model == (if data[4] == 1 {
                        InteractionModel::PressToTalk
                    } else if data[4] == 3 {
                        InteractionModel::HoldToTalk
                    } else {
                        InteractionModel::OnRequest
                    })
                    &&& caps.audio_frame_size.0 == 256 * data[5] + data[6]
                }
            } else if data[0] == 0x0C && data.len() >= 3 {
                event == CtlEventView::MicOpenError(
                    MicOpenErrorCode::decode((256 * data[1] + data[2]) as u16),
                )
            } else {
                event == CtlEventView::Unknown(data)
            }
        }),
{
    if data.len() >= 7 {
        let b = data[3];
        assert(b & 0x03 == b % 4) by (bit_vector);
    }
}

/// The codec that a remote's set leads to, by its bits: 16 kHz where the second is set, else
/// 8 kHz where the first is, and none where neither is.
pub proof fn lemma_best_codec_by_bits(remote: Codecs)
    ensures
        (remote.bits / 2) % 2 == 1 ==> best_codec(remote) == Ok::<Codec, NoCommonCodec>(
            Codec::Adpcm16kHz,
        ),
        (remote.bits / 2) % 2 == 0 && remote.bits % 2 == 1 ==> best_codec(remote) == Ok::<
            Codec,
            NoCommonCodec,
        >(Codec::Adpcm8kHz),
        remote.bits % 4 == 0 ==> best_codec(remote) == Err::<Codec, NoCommonCodec>(
            NoCommonCodec { remote, ours: Codecs { bits: 3 } },
        ),
{
    let b = remote.bits;
    assert((b & 0x02 == 0x02) <==> (b / 2) % 2 == 1) by (bit_vector);
    assert((b & 0x01 == 0x01) <==> b % 2 == 1) by (bit_vector);
    assert(b % 4 == 0 ==> b % 2 == 0 && (b / 2) % 2 == 0);
}

/// What a v0.4 protocol goes by after capabilities with a common codec: it opens the microphone
/// with the best codec, takes frames of the announced size and no others, and says that they
/// are of that codec.
pub proof fn lemma_v04_goes_by_capabilities(m: V04Model, caps: Capabilities, data: Seq<u8>)
    requires
        caps.codecs.bits % 4 != 0,
    ensures
        ({
            let after = ProtocolModel::V04(m).after_caps(caps);
            let codec = if (caps.codecs.bits / 2) % 2 == 1 {
                Codec::Adpcm16kHz
            } else {
                Codec::Adpcm8kHz
            };
            &&& after.version() == ProtocolVersion::V0_4
            &&& after.open_bytes() == seq![0x0Cu8, 0x00, if codec == Codec::Adpcm16kHz {
                2u8
            } else {
                1u8
            }]
            &&& after.audio(data) is Some <==> data.len() == caps.audio_frame_size.0 && data.len()
                >= 6
            &&& after.audio(data) matches Some(frame) ==> {
                &&& frame.codec == codec
                &&& frame.seq == 256 * data[0] + data[1]
                &&& frame.samples == frame_samples(data)
            }
        }),
{
    lemma_best_codec_by_bits(caps.codecs);
}

/// What a v1.0 protocol goes by after capabilities with a common codec: it takes frames of the
/// announced size and no others, and says that they are of the best codec. Its decoder and its
/// count of frames go on as they were.
pub proof fn lemma_v10_goes_by_capabilities(p: ProtocolV10, caps: Capabilities, data: Seq<u8>)
    requires
        caps.codecs.bits % 4 != 0,
    ensures
        ({
            let after = ProtocolModel::V10(p).after_caps(caps);
            &&& after == ProtocolModel::V10(
                ProtocolV10 {
                    selected_codec: Some(
                        if (caps.codecs.bits / 2) % 2 == 1 {
                            Codec::Adpcm16kHz
                        } else {
                            Codec::Adpcm8kHz
                        },
                    ),
                    interaction_model: caps.interaction_model,
                    audio_frame_size: caps.audio_frame_size,
                    decoder: p.decoder,
                    frame_seq: p.frame_seq,
                },
            )
            &&& after.audio(data) is Some <==> data.len() == caps.audio_frame_size.0
            &&& after.audio(data) matches Some(frame) ==> {
                &&& frame.codec == (if (caps.codecs.bits / 2) % 2 == 1 {
                    Codec::Adpcm16kHz
                } else {
                    Codec::Adpcm8kHz
                })
                &&& frame.samples == p.decoder.samples(nibbles_of(data))
                &&& frame.seq == p.frame_seq
            }
        }),
{
    lemma_best_codec_by_bits(caps.codecs);
}

/// Capabilities without a common codec leave either protocol as it is.
pub proof fn lemma_useless_capabilities(m: ProtocolModel, caps: Capabilities)
    requires
        caps.codecs.bits % 4 == 0,
    ensures
        m.after_caps(caps) == m,
{
    lemma_best_codec_by_bits(caps.codecs);
}

/// What a v0.4 protocol makes of an audio notification. Nothing carries over to the next.
pub proof fn lemma_v04_audio(m: V04Model, data: Seq<u8>, sync: AudioSyncData)
    ensures
        ({
            let p = ProtocolModel::V04(m);
            &&& p.after_audio(data) == p
            &&& p.after_sync(sync) == p
            &&& p.audio(data) is Some <==> data.len() == m.audio_frame_size.0 && data.len() >= 6
            &&& p.audio(data) matches Some(frame) ==> {
                &&& frame.seq == 256 * data[0] + data[1]
                &&& frame.samples == frame_samples(data)
                &&& frame.codec == (if m.selected_codec == Some(Codec::Adpcm16kHz) {
                    Codec::Adpcm16kHz
                } else {
                    Codec::Adpcm8kHz
                })
            }
        }),
{
}

/// What a v1.0 protocol makes of an audio notification of the agreed size, and of any other. The
/// decoder goes on from where it was, and frames are counted round from 65535 to 0.
pub proof fn lemma_v10_audio(p: ProtocolV10, data: Seq<u8>)
    ensures
        ({
            let m = ProtocolModel::V10(p);
            if data.len() == p.audio_frame_size.0 {
                &&& m.audio(data) matches Some(frame) && {
                    &&& frame.seq == p.frame_seq
                    &&& frame.samples == p.decoder.samples(nibbles_of(data))
                    &&& frame.codec == (if p.selected_codec == Some(Codec::Adpcm16kHz) {
                        Codec::Adpcm16kHz
                    } else {
                        Codec::Adpcm8kHz
                    })
                }
                &&& m.after_audio(data) == ProtocolModel::V10(
                    ProtocolV10 {
                        selected_codec: p.selected_codec,
                        interaction_model: p.interaction_model,
                        audio_frame_size: p.audio_frame_size,
                        decoder: p.decoder.after_all(nibbles_of(data)),
                        frame_seq: if p.frame_seq == 65535 {
                            0
                        } else {
                            (p.frame_seq + 1) as u16
                        },
                    },
                )
            } else {
                &&& m.audio(data) is None
                &&& m.after_audio(data) == m
            }
        }),
{
}

/// What an AUDIO_SYNC sets in a v1.0 protocol: the count of frames, and with the full form the
/// decoder and the codec. A step index beyond the table counts as 88.
pub proof fn lemma_v10_sync(
    p: ProtocolV10,
    codec: Codec,
    seq: u16,
    predictor: i16,
    step_index: u8,
)
    ensures
        ProtocolModel::V10(p).after_sync(AudioSyncData::FrameNum { seq }) == ProtocolModel::V10(
            ProtocolV10 {
                selected_codec: p.selected_codec,
                interaction_model: p.interaction_model,
                audio_frame_size: p.audio_frame_size,
                decoder: p.decoder,
                frame_seq: seq,
            },
        ),
        ProtocolModel::V10(p).after_sync(
            AudioSyncData::Full { codec, seq, predictor, step_index },
        ) == ProtocolModel::V10(
            ProtocolV10 {
                selected_codec: Some(codec),
                interaction_model: p.interaction_model,
                audio_frame_size: p.audio_frame_size,
                decoder: AdpcmDecoder {
                    predictor,
                    step_index: if step_index > 88 {
                        88
                    } else {
                        step_index
                    },
                },
                frame_seq: seq,
            },
        ),
{
}

/// Which notifications end a negotiation, and with what, by their bytes. Version 0.4 announces
/// itself and has nine bytes; anything else is read as version 1.0 and has seven.
pub proof fn lemma_capabilities_by_bytes(data: Seq<u8>)
    ensures
        ({
            let v04 = data.len() >= 3 && data[1] == 0 && data[2] == 4;
            let whole = data.len() > 0 && data[0] == 0x0B && data.len() >= (if v04 {
                9int
            } else {
                7int
            });
            if whole {
                caps_of(data) matches Some(caps) && {
                    &&& caps.version == (if v04 {
                        ProtocolVersion::V0_4
                    } else {
                        ProtocolVersion::V1_0
                    })
                    &&& caps.codecs.bits == (if v04 {
                        data[4] % 4
                    } else {
                        data[3] % 4
                    })
                    &&& caps.interaction_model == (if !v04 && data[4] == 1 {
                        InteractionModel::PressToTalk
                    } else if !v04 && data[4] == 3 {
                        InteractionModel::HoldToTalk
                    } else {
                        InteractionModel::OnRequest
                    })
                    &&& caps.audio_frame_size.0 == 256 * data[5] + data[6]
                }
            } else {
                caps_of(data) is None
            }
        }),
{
    lemma_v04_notifications(V04Model::fresh(), data);
    lemma_v10_notifications(ProtocolV10::fresh(), data);
}

/// A protocol is valid where its decoder's step index lies in the table. The v0.4 decoder
/// starts over with each frame, so that nothing is asked of it.
pub proof fn lemma_valid_protocols(m: ProtocolModel, d: AdpcmDecoder)
    ensures
        m matches ProtocolModel::V10(p) ==> (m.wf() <==> p.decoder.step_index <= 88),
        m is V04 ==> m.wf(),
        d.wf() <==> d.step_index <= 88,
{
}

} // verus!
