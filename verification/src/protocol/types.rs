//! Wire protocol types for ATVV v0.4 and v1.0.

use crate::text::{debug_string, debug_text, joined, same_text};
use vstd::prelude::*;

verus! {

/// The hexadecimal digit of `n`.
pub open spec fn hex_char(n: u8) -> char {
    if n < 10 {
        ('0' as u8 + n) as char
    } else {
        ('a' as u8 + (n - 10)) as char
    }
}

/// A number in hexadecimal, without leading zeros.
pub open spec fn hex_text(n: u8) -> Seq<char> {
    if n < 16 {
        seq![hex_char(n)]
    } else {
        seq![hex_char(n / 16), hex_char(n % 16)]
    }
}

fn hex_digit_char(n: u8) -> (r: char)
    requires
        n < 16,
    ensures
        r == hex_char(n),
{
    if n < 10 {
        (48 + n) as char
    } else {
        (97 + (n - 10)) as char
    }
}

fn hex_string(n: u8) -> (r: String)
    ensures
        r@ == hex_text(n),
{
    let mut text = String::new();
    if n >= 16 {
        text.push(hex_digit_char(n / 16));
    }
    text.push(hex_digit_char(n % 16));
    assert(text@ =~= hex_text(n));
    text
}

/// Texts with bars between them.
pub open spec fn barred(parts: Seq<Seq<char>>) -> Seq<char>
    decreases parts.len(),
{
    if parts.len() == 0 {
        seq![]
    } else if parts.len() == 1 {
        parts[0]
    } else {
        barred(parts.drop_last()) + " | "@ + parts.last()
    }
}

/// A byte that stands for no value of the enumeration it was read as.
#[derive(Debug, Clone, Copy, PartialEq, Eq, Structural)]
pub struct UnknownCode(pub u8);

/// ATVV protocol version.
#[derive(Debug, Clone, Copy, PartialEq, Eq, Structural)]
pub enum ProtocolVersion {
    V0_4,
    V1_0,
}

impl ProtocolVersion {
    /// The version as it is shown to people.
    pub fn as_str(&self) -> (r: &'static str)
        ensures
            r@ == match *self {
                ProtocolVersion::V0_4 => "v0.4"@,
                ProtocolVersion::V1_0 => "v1.0"@,
            },
    {
        match self {
            ProtocolVersion::V0_4 => "v0.4",
            ProtocolVersion::V1_0 => "v1.0",
        }
    }

    /// The text that `parse` rejects an unknown version with, given the version in
    /// its quoted form.
    pub open spec fn unknown_text(quoted: Seq<char>) -> Seq<char> {
        "unknown protocol version "@ + quoted + ", expected \"0.4\" or \"1.0\""@
    }

    /// Says that a version is unknown, given its quoted form.
    pub fn unknown_message(quoted: &str) -> (r: String)
        ensures
            r@ == Self::unknown_text(quoted@),
    {
        let head = joined("unknown protocol version ", quoted);
        joined(head.as_str(), ", expected \"0.4\" or \"1.0\"")
    }

    /// Parse a version string like "0.4" or "1.0".
    pub fn parse(s: &str) -> (r: Result<Self, String>)
        ensures
            match r {
                Ok(v) => {
                    ||| s@ == "0.4"@ && v == ProtocolVersion::V0_4
                    ||| s@ == "1.0"@ && v == ProtocolVersion::V1_0
                },
                Err(message) => {
                    &&& s@ != "0.4"@
                    &&& s@ != "1.0"@
                    &&& message@ == Self::unknown_text(debug_text(s@))
                },
            },
    {
        if same_text(s, "0.4") {
            Ok(ProtocolVersion::V0_4)
        } else if same_text(s, "1.0") {
            Ok(ProtocolVersion::V1_0)
        } else {
            let quoted = debug_string(s);
            Err(Self::unknown_message(quoted.as_str()))
        }
    }

    /// Major and minor version, one byte each.
    pub open spec fn wire(self) -> u16 {
        match self {
            ProtocolVersion::V0_4 => 0x0004,
            ProtocolVersion::V1_0 => 0x0100,
        }
    }

    /// Wire format: major.minor as big-endian u16.
    pub fn wire_value(self) -> (r: u16)
        ensures
            r == self.wire(),
    {
        match self {
            ProtocolVersion::V0_4 => 0x0004,
            ProtocolVersion::V1_0 => 0x0100,
        }
    }

    /// The version that a wire value stands for, or `fallback` where it stands for none.
    pub open spec fn read_or(value: u16, fallback: ProtocolVersion) -> ProtocolVersion {
        if value == ProtocolVersion::V0_4.wire() {
            ProtocolVersion::V0_4
        } else if value == ProtocolVersion::V1_0.wire() {
            ProtocolVersion::V1_0
        } else {
            fallback
        }
    }

    /// Parse from wire format, with a fallback for unknown versions.
    pub fn from_wire_or(value: u16, fallback: ProtocolVersion) -> (r: ProtocolVersion)
        ensures
            r == Self::read_or(value, fallback),
    {
        match Self::from_wire(value) {
            Some(version) => version,
            None => {
                assert(ProtocolVersion::V0_4.wire() != value);
                assert(ProtocolVersion::V1_0.wire() != value);
                fallback
            },
        }
    }

    /// Parse from wire format (big-endian u16). Returns None for unknown versions.
    pub fn from_wire(value: u16) -> (r: Option<Self>)
        ensures
            match r {
                Some(v) => v.wire() == value,
                None => forall|v: ProtocolVersion| #[trigger] v.wire() != value,
            },
    {
        match value {
            0x0004 => Some(ProtocolVersion::V0_4),
            0x0100 => Some(ProtocolVersion::V1_0),
            _ => None,
        }
    }
}

/// TX opcodes (host -> remote, written to TX characteristic).
#[derive(Debug, Clone, Copy, PartialEq, Eq, Structural)]
pub enum TxOpcode {
    GetCaps,
    MicOpen,
    MicClose,
    MicExtend,
}

impl TxOpcode {
    /// The opcode's byte on the wire.
    pub open spec fn wire(self) -> u8 {
        match self {
            TxOpcode::GetCaps => 0x0A,
            TxOpcode::MicOpen => 0x0C,
            TxOpcode::MicClose => 0x0D,
            TxOpcode::MicExtend => 0x0E,
        }
    }
}

impl From<TxOpcode> for u8 {
    fn from(v: TxOpcode) -> (r: u8) {
        match v {
            TxOpcode::GetCaps => 0x0A,
            TxOpcode::MicOpen => 0x0C,
            TxOpcode::MicClose => 0x0D,
            TxOpcode::MicExtend => 0x0E,
        }
    }
}

impl vstd::std_specs::convert::FromSpecImpl<TxOpcode> for u8 {
    open spec fn obeys_from_spec() -> bool {
        true
    }

    open spec fn from_spec(v: TxOpcode) -> u8 {
        v.wire()
    }
}

/// CTL opcodes (remote -> host, received on CTL characteristic).
#[derive(Debug, Clone, Copy, PartialEq, Eq, Structural)]
pub enum CtlOpcode {
    AudioStop,
    AudioStart,
    StartSearch,
    AudioSync,
    CapsResp,
    MicOpenError,
}

impl CtlOpcode {
    /// The opcode's byte on the wire.
    pub open spec fn wire(self) -> u8 {
        match self {
            CtlOpcode::AudioStop => 0x00,
            CtlOpcode::AudioStart => 0x04,
            CtlOpcode::StartSearch => 0x08,
            CtlOpcode::AudioSync => 0x0A,
            CtlOpcode::CapsResp => 0x0B,
            CtlOpcode::MicOpenError => 0x0C,
        }
    }

    /// The value that a byte stands for.
    pub open spec fn decode(v: u8) -> Result<CtlOpcode, UnknownCode> {
        match v {
            0x00 => Ok(CtlOpcode::AudioStop),
            0x04 => Ok(CtlOpcode::AudioStart),
            0x08 => Ok(CtlOpcode::StartSearch),
            0x0A => Ok(CtlOpcode::AudioSync),
            0x0B => Ok(CtlOpcode::CapsResp),
            0x0C => Ok(CtlOpcode::MicOpenError),
            other => Err(UnknownCode(other)),
        }
    }
}

impl TryFrom<u8> for CtlOpcode {
    type Error = UnknownCode;

    fn try_from(v: u8) -> (r: Result<CtlOpcode, UnknownCode>) {
        match v {
            0x00 => Ok(CtlOpcode::AudioStop),
            0x04 => Ok(CtlOpcode::AudioStart),
            0x08 => Ok(CtlOpcode::StartSearch),
            0x0A => Ok(CtlOpcode::AudioSync),
            0x0B => Ok(CtlOpcode::CapsResp),
            0x0C => Ok(CtlOpcode::MicOpenError),
            other => Err(UnknownCode(other)),
        }
    }
}

impl vstd::std_specs::convert::TryFromSpecImpl<u8> for CtlOpcode {
    open spec fn obeys_try_from_spec() -> bool {
        true
    }

    open spec fn try_from_spec(v: u8) -> Result<CtlOpcode, UnknownCode> {
        CtlOpcode::decode(v)
    }
}

/// Individual codec identifier.
#[derive(Debug, Clone, Copy, PartialEq, Eq, Structural)]
pub enum Codec {
    Adpcm8kHz,
    Adpcm16kHz,
}

impl Codec {
    /// The value's byte on the wire.
    pub open spec fn wire(self) -> u8 {
        match self {
            Codec::Adpcm8kHz => 0x01,
            Codec::Adpcm16kHz => 0x02,
        }
    }

    /// The value that a byte stands for.
    pub open spec fn decode(v: u8) -> Result<Codec, UnknownCode> {
        match v {
            0x01 => Ok(Codec::Adpcm8kHz),
            0x02 => Ok(Codec::Adpcm16kHz),
            other => Err(UnknownCode(other)),
        }
    }

    /// Sample rate in Hz for this codec.
    pub fn sample_rate(self) -> (r: u32)
        ensures
            r == match self {
                Codec::Adpcm8kHz => 8000u32,
                Codec::Adpcm16kHz => 16000u32,
            },
    {
        match self {
            Codec::Adpcm8kHz => 8000,
            Codec::Adpcm16kHz => 16000,
        }
    }

    /// The value that a byte stands for, or `fallback` where it stands for none.
    pub open spec fn read_or(v: u8, fallback: Codec) -> Codec {
        match Codec::decode(v) {
            Ok(value) => value,
            Err(_) => fallback,
        }
    }

    /// Reads a byte, with a fallback for unknown codes.
    pub fn from_code_or(v: u8, fallback: Codec) -> (r: Codec)
        ensures
            r == Self::read_or(v, fallback),
    {
        match Codec::try_from(v) {
            Ok(value) => value,
            Err(_) => fallback,
        }
    }
}

impl From<Codec> for u8 {
    fn from(v: Codec) -> (r: u8) {
        match v {
            Codec::Adpcm8kHz => 0x01,
            Codec::Adpcm16kHz => 0x02,
        }
    }
}

impl vstd::std_specs::convert::FromSpecImpl<Codec> for u8 {
    open spec fn obeys_from_spec() -> bool {
        true
    }

    open spec fn from_spec(v: Codec) -> u8 {
        v.wire()
    }
}

impl TryFrom<u8> for Codec {
    type Error = UnknownCode;

    fn try_from(v: u8) -> (r: Result<Codec, UnknownCode>) {
        match v {
            0x01 => Ok(Codec::Adpcm8kHz),
            0x02 => Ok(Codec::Adpcm16kHz),
            other => Err(UnknownCode(other)),
        }
    }
}

impl vstd::std_specs::convert::TryFromSpecImpl<u8> for Codec {
    open spec fn obeys_try_from_spec() -> bool {
        true
    }

    open spec fn try_from_spec(v: u8) -> Result<Codec, UnknownCode> {
        Codec::decode(v)
    }
}

/// Codec support bitmask (from CAPS_RESP): bit 0 for 8 kHz, bit 1 for 16 kHz.
#[derive(Debug, Clone, Copy, PartialEq, Eq, Structural)]
pub struct Codecs {
    pub bits: u8,
}

impl Codecs {
    /// The set that holds the 8 kHz codec alone.
    pub fn adpcm_8khz() -> (r: Codecs)
        ensures
            r == (Codecs { bits: 0x01 }),
    {
        Codecs { bits: 0x01 }
    }

    /// The set that holds the 16 kHz codec alone.
    pub fn adpcm_16khz() -> (r: Codecs)
        ensures
            r == (Codecs { bits: 0x02 }),
    {
        Codecs { bits: 0x02 }
    }

    /// The mask as a number.
    pub fn bits(&self) -> (r: u8)
        ensures
            r == self.bits,
    {
        self.bits
    }

    /// The known codecs of a mask; unknown bits are dropped.
    pub fn from_bits_truncate(bits: u8) -> (r: Codecs)
        ensures
            r == (Codecs { bits: bits & 0x03 }),
    {
        Codecs { bits: bits & 0x03 }
    }

    /// What the mask is made of: the names of the known codecs, and the other bits as a number.
    pub open spec fn flags(self) -> Seq<Seq<char>> {
        let known_8 = if self.bits % 2 == 1 {
            seq!["ADPCM_8KHZ"@]
        } else {
            seq![]
        };
        let known_16 = if (self.bits / 2) % 2 == 1 {
            seq!["ADPCM_16KHZ"@]
        } else {
            seq![]
        };
        let others = if self.bits >= 4 {
            seq!["0x"@ + hex_text((self.bits - self.bits % 4) as u8)]
        } else {
            seq![]
        };
        known_8 + known_16 + others
    }

    /// The mask as it is shown to people, such as `Codecs(ADPCM_8KHZ | ADPCM_16KHZ)`.
    pub open spec fn shown(self) -> Seq<char> {
        "Codecs("@ + (if self.bits == 0 {
            "0x0"@
        } else {
            barred(self.flags())
        }) + ")"@
    }

    /// The mask as it is shown to people.
    pub fn text(&self) -> (r: String)
        ensures
            r@ == self.shown(),
    {
        let bits: u8 = self.bits;
        let mut list = String::new();
        let ghost mut done: Seq<Seq<char>> = seq![];
        if bits % 2 == 1 {
            list.append("ADPCM_8KHZ");
            proof {
                done = done.push("ADPCM_8KHZ"@);
            }
            assert(list@ =~= "ADPCM_8KHZ"@);
        }
        assert(list@ == barred(done));
        if (bits / 2) % 2 == 1 {
            if bits % 2 == 1 {
                list.append(" | ");
            }
            list.append("ADPCM_16KHZ");
            proof {
                let before = done;
                done = done.push("ADPCM_16KHZ"@);
                assert(done.drop_last() =~= before);
            }
            assert(list@ =~= barred(done));
        }
        if bits >= 4 {
            if bits % 4 != 0 {
                list.append(" | ");
            }
            let number = joined("0x", hex_string(bits - bits % 4).as_str());
            list.append(number.as_str());
            proof {
                let before = done;
                done = done.push(number@);
                assert(done.drop_last() =~= before);
            }
            assert(list@ =~= barred(done));
        }
        assert(done =~= self.flags());
        if bits == 0 {
            list.append("0x0");
            assert(list@ =~= "0x0"@);
        }
        joined(joined("Codecs(", list.as_str()).as_str(), ")")
    }

    /// Every codec of `other` is in this set.
    pub open spec fn has(self, other: Codecs) -> bool {
        self.bits & other.bits == other.bits
    }

    /// Whether every codec of `other` is in this set.
    pub fn contains(&self, other: Codecs) -> (r: bool)
        ensures
            r == self.has(other),
    {
        self.bits & other.bits == other.bits
    }
}

impl core::ops::BitOr for Codecs {
    type Output = Codecs;

    fn bitor(self, rhs: Codecs) -> (r: Codecs) {
        Codecs { bits: self.bits | rhs.bits }
    }
}

impl vstd::std_specs::ops::BitOrSpecImpl for Codecs {
    open spec fn obeys_bitor_spec() -> bool {
        true
    }

    open spec fn bitor_req(self, rhs: Codecs) -> bool {
        true
    }

    open spec fn bitor_spec(self, rhs: Codecs) -> Codecs {
        Codecs { bits: self.bits | rhs.bits }
    }
}

impl core::ops::BitAnd for Codecs {
    type Output = Codecs;

    fn bitand(self, rhs: Codecs) -> (r: Codecs) {
        Codecs { bits: self.bits & rhs.bits }
    }
}

impl vstd::std_specs::ops::BitAndSpecImpl for Codecs {
    open spec fn obeys_bitand_spec() -> bool {
        true
    }

    open spec fn bitand_req(self, rhs: Codecs) -> bool {
        true
    }

    open spec fn bitand_spec(self, rhs: Codecs) -> Codecs {
        Codecs { bits: self.bits & rhs.bits }
    }
}

/// Audio frame size in bytes (from CAPS_RESP).
#[derive(Debug, Clone, Copy, PartialEq, Eq, Structural)]
pub struct AudioFrameSize(pub u16);

impl AudioFrameSize {
    /// v0.4: 6-byte header and 128 ADPCM bytes.
    pub fn default_v04() -> (r: AudioFrameSize)
        ensures
            r == AudioFrameSize(134),
    {
        AudioFrameSize(134)
    }

    /// v1.0: the default notification payload.
    pub fn default_v10() -> (r: AudioFrameSize)
        ensures
            r == AudioFrameSize(20),
    {
        AudioFrameSize(20)
    }
}

/// Stream identifier. Race-condition guard, not multiplexing.
#[derive(Debug, Clone, Copy, PartialEq, Eq, Structural)]
pub struct StreamId(pub u8);

impl StreamId {
    /// Stream initiated by MIC_OPEN.
    pub fn mic_open() -> (r: StreamId)
        ensures
            r == StreamId(0x00),
    {
        StreamId(0x00)
    }

    /// Wildcard: close any active stream.
    pub fn any() -> (r: StreamId)
        ensures
            r == StreamId(0xFF),
    {
        StreamId(0xFF)
    }
}

/// Interaction model (v1.0 only; v0.4 is always OnRequest).
#[derive(Debug, Clone, Copy, PartialEq, Eq, Structural)]
pub enum InteractionModel {
    OnRequest,
    PressToTalk,
    HoldToTalk,
}

impl InteractionModel {
    /// The value's byte on the wire.
    pub open spec fn wire(self) -> u8 {
        match self {
            InteractionModel::OnRequest => 0x00,
            InteractionModel::PressToTalk => 0x01,
            InteractionModel::HoldToTalk => 0x03,
        }
    }

    /// The value that a byte stands for.
    pub open spec fn decode(v: u8) -> Result<InteractionModel, UnknownCode> {
        match v {
            0x00 => Ok(InteractionModel::OnRequest),
            0x01 => Ok(InteractionModel::PressToTalk),
            0x03 => Ok(InteractionModel::HoldToTalk),
            other => Err(UnknownCode(other)),
        }
    }

    /// The value that a byte stands for, or `fallback` where it stands for none.
    pub open spec fn read_or(v: u8, fallback: InteractionModel) -> InteractionModel {
        match InteractionModel::decode(v) {
            Ok(value) => value,
            Err(_) => fallback,
        }
    }

    /// Reads a byte, with a fallback for unknown codes.
    pub fn from_code_or(v: u8, fallback: InteractionModel) -> (r: InteractionModel)
        ensures
            r == Self::read_or(v, fallback),
    {
        match InteractionModel::try_from(v) {
            Ok(value) => value,
            Err(_) => fallback,
        }
    }
}

impl From<InteractionModel> for u8 {
    fn from(v: InteractionModel) -> (r: u8) {
        match v {
            InteractionModel::OnRequest => 0x00,
            InteractionModel::PressToTalk => 0x01,
            InteractionModel::HoldToTalk => 0x03,
        }
    }
}

impl vstd::std_specs::convert::FromSpecImpl<InteractionModel> for u8 {
    open spec fn obeys_from_spec() -> bool {
        true
    }

    open spec fn from_spec(v: InteractionModel) -> u8 {
        v.wire()
    }
}

impl TryFrom<u8> for InteractionModel {
    type Error = UnknownCode;

    fn try_from(v: u8) -> (r: Result<InteractionModel, UnknownCode>) {
        match v {
            0x00 => Ok(InteractionModel::OnRequest),
            0x01 => Ok(InteractionModel::PressToTalk),
            0x03 => Ok(InteractionModel::HoldToTalk),
            other => Err(UnknownCode(other)),
        }
    }
}

impl vstd::std_specs::convert::TryFromSpecImpl<u8> for InteractionModel {
    open spec fn obeys_try_from_spec() -> bool {
        true
    }

    open spec fn try_from_spec(v: u8) -> Result<InteractionModel, UnknownCode> {
        InteractionModel::decode(v)
    }
}

/// Audio buffering mode for v1.0 MIC_OPEN.
#[derive(Debug, Clone, Copy, PartialEq, Eq, Structural)]
pub enum AudioMode {
    /// Realtime, reduced buffer.
    Playback,
    /// Not realtime, larger buffer.
    Capture,
}

impl AudioMode {
    /// The value's byte on the wire.
    pub open spec fn wire(self) -> u8 {
        match self {
            AudioMode::Playback => 0x00,
            AudioMode::Capture => 0x01,
        }
    }

    /// The value that a byte stands for.
    pub open spec fn decode(v: u8) -> Result<AudioMode, UnknownCode> {
        match v {
            0x00 => Ok(AudioMode::Playback),
            0x01 => Ok(AudioMode::Capture),
            other => Err(UnknownCode(other)),
        }
    }
}

impl From<AudioMode> for u8 {
    fn from(v: AudioMode) -> (r: u8) {
        match v {
            AudioMode::Playback => 0x00,
            AudioMode::Capture => 0x01,
        }
    }
}

impl vstd::std_specs::convert::FromSpecImpl<AudioMode> for u8 {
    open spec fn obeys_from_spec() -> bool {
        true
    }

    open spec fn from_spec(v: AudioMode) -> u8 {
        v.wire()
    }
}

impl TryFrom<u8> for AudioMode {
    type Error = UnknownCode;

    fn try_from(v: u8) -> (r: Result<AudioMode, UnknownCode>) {
        match v {
            0x00 => Ok(AudioMode::Playback),
            0x01 => Ok(AudioMode::Capture),
            other => Err(UnknownCode(other)),
        }
    }
}

impl vstd::std_specs::convert::TryFromSpecImpl<u8> for AudioMode {
    open spec fn obeys_try_from_spec() -> bool {
        true
    }

    open spec fn try_from_spec(v: u8) -> Result<AudioMode, UnknownCode> {
        AudioMode::decode(v)
    }
}

/// Reason for AUDIO_START (v1.0 payload; v0.4 is always MicOpen).
#[derive(Debug, Clone, Copy, PartialEq, Eq, Structural)]
pub enum AudioStartReason {
    MicOpen,
    PressToTalk,
    HoldToTalk,
}

impl AudioStartReason {
    /// The value's byte on the wire.
    pub open spec fn wire(self) -> u8 {
        match self {
            AudioStartReason::MicOpen => 0x00,
            AudioStartReason::PressToTalk => 0x01,
            AudioStartReason::HoldToTalk => 0x03,
        }
    }

    /// The value that a byte stands for.
    pub open spec fn decode(v: u8) -> Result<AudioStartReason, UnknownCode> {
        match v {
            0x00 => Ok(AudioStartReason::MicOpen),
            0x01 => Ok(AudioStartReason::PressToTalk),
            0x03 => Ok(AudioStartReason::HoldToTalk),
            other => Err(UnknownCode(other)),
        }
    }

    /// The value that a byte stands for, or `fallback` where it stands for none.
    pub open spec fn read_or(v: u8, fallback: AudioStartReason) -> AudioStartReason {
        match AudioStartReason::decode(v) {
            Ok(value) => value,
            Err(_) => fallback,
        }
    }

    /// Reads a byte, with a fallback for unknown codes.
    pub fn from_code_or(v: u8, fallback: AudioStartReason) -> (r: AudioStartReason)
        ensures
            r == Self::read_or(v, fallback),
    {
        match AudioStartReason::try_from(v) {
            Ok(value) => value,
            Err(_) => fallback,
        }
    }
}

impl TryFrom<u8> for AudioStartReason {
    type Error = UnknownCode;

    fn try_from(v: u8) -> (r: Result<AudioStartReason, UnknownCode>) {
        match v {
            0x00 => Ok(AudioStartReason::MicOpen),
            0x01 => Ok(AudioStartReason::PressToTalk),
            0x03 => Ok(AudioStartReason::HoldToTalk),
            other => Err(UnknownCode(other)),
        }
    }
}

impl vstd::std_specs::convert::TryFromSpecImpl<u8> for AudioStartReason {
    open spec fn obeys_try_from_spec() -> bool {
        true
    }

    open spec fn try_from_spec(v: u8) -> Result<AudioStartReason, UnknownCode> {
        AudioStartReason::decode(v)
    }
}

/// Reason for AUDIO_STOP.
#[derive(Debug, Clone, Copy, PartialEq, Eq, Structural)]
pub enum AudioStopReason {
    MicClose,
    HttButtonRelease,
    UpcomingAudioStart,
    TransferTimeout,
    NotificationsDisabled,
    Other(u8),
}

impl AudioStopReason {
    /// What a code on the wire stands for.
    pub open spec fn decode(v: u8) -> AudioStopReason {
        match v {
            0x00 => AudioStopReason::MicClose,
            0x02 => AudioStopReason::HttButtonRelease,
            0x04 => AudioStopReason::UpcomingAudioStart,
            0x08 => AudioStopReason::TransferTimeout,
            0x10 => AudioStopReason::NotificationsDisabled,
            other => AudioStopReason::Other(other),
        }
    }
}

impl From<u8> for AudioStopReason {
    fn from(v: u8) -> (r: AudioStopReason) {
        match v {
            0x00 => AudioStopReason::MicClose,
            0x02 => AudioStopReason::HttButtonRelease,
            0x04 => AudioStopReason::UpcomingAudioStart,
            0x08 => AudioStopReason::TransferTimeout,
            0x10 => AudioStopReason::NotificationsDisabled,
            other => AudioStopReason::Other(other),
        }
    }
}

impl vstd::std_specs::convert::FromSpecImpl<u8> for AudioStopReason {
    open spec fn obeys_from_spec() -> bool {
        true
    }

    open spec fn from_spec(v: u8) -> AudioStopReason {
        AudioStopReason::decode(v)
    }
}

/// MIC_OPEN error code.
#[derive(Debug, Clone, Copy, PartialEq, Eq, Structural)]
pub enum MicOpenErrorCode {
    InvalidCodec,
    RemoteNotActive,
    NotificationsDisabled,
    PttHttInProgress,
    InternalError,
    Unknown(u16),
}

impl MicOpenErrorCode {
    /// What a code on the wire stands for.
    pub open spec fn decode(v: u16) -> MicOpenErrorCode {
        match v {
            0x0F01 => MicOpenErrorCode::InvalidCodec,
            0x0F02 => MicOpenErrorCode::RemoteNotActive,
            0x0F03 => MicOpenErrorCode::NotificationsDisabled,
            0x0F80 => MicOpenErrorCode::PttHttInProgress,
            0x0FFF => MicOpenErrorCode::InternalError,
            other => MicOpenErrorCode::Unknown(other),
        }
    }
}

impl From<u16> for MicOpenErrorCode {
    fn from(v: u16) -> (r: MicOpenErrorCode) {
        match v {
            0x0F01 => MicOpenErrorCode::InvalidCodec,
            0x0F02 => MicOpenErrorCode::RemoteNotActive,
            0x0F03 => MicOpenErrorCode::NotificationsDisabled,
            0x0F80 => MicOpenErrorCode::PttHttInProgress,
            0x0FFF => MicOpenErrorCode::InternalError,
            other => MicOpenErrorCode::Unknown(other),
        }
    }
}

impl vstd::std_specs::convert::FromSpecImpl<u16> for MicOpenErrorCode {
    open spec fn obeys_from_spec() -> bool {
        true
    }

    open spec fn from_spec(v: u16) -> MicOpenErrorCode {
        MicOpenErrorCode::decode(v)
    }
}

/// Parsed capabilities from CAPS_RESP.
#[derive(Debug, Clone, Copy, PartialEq, Eq, Structural)]
pub struct Capabilities {
    pub version: ProtocolVersion,
    pub codecs: Codecs,
    pub interaction_model: InteractionModel,
    pub audio_frame_size: AudioFrameSize,
}

/// Parsed AUDIO_SYNC data. Version-dependent content.
#[derive(Debug, Clone, Copy, PartialEq, Eq, Structural)]
pub enum AudioSyncData {
    /// v0.4: only frame number.
    FrameNum { seq: u16 },
    /// v1.0: full decoder state for resync.
    Full { codec: Codec, seq: u16, predictor: i16, step_index: u8 },
}

/// Typed CTL event, as `Protocol::parse_ctl` returns it.
#[derive(Debug, Clone, PartialEq, Eq)]
pub enum CtlEvent {
    AudioStart { reason: AudioStartReason, codec: Codec, stream_id: StreamId },
    AudioStop { reason: AudioStopReason },
    StartSearch,
    AudioSync(AudioSyncData),
    CapsResp(Capabilities),
    MicOpenError(MicOpenErrorCode),
    /// A notification of no known form, as it came.
    Unknown(Vec<u8>),
}

/// What a `CtlEvent` says.
pub enum CtlEventView {
    AudioStart { reason: AudioStartReason, codec: Codec, stream_id: StreamId },
    AudioStop { reason: AudioStopReason },
    StartSearch,
    AudioSync(AudioSyncData),
    CapsResp(Capabilities),
    MicOpenError(MicOpenErrorCode),
    Unknown(Seq<u8>),
}

impl View for CtlEvent {
    type V = CtlEventView;

    open spec fn view(&self) -> CtlEventView {
        match *self {
            CtlEvent::AudioStart { reason, codec, stream_id } => CtlEventView::AudioStart {
                reason,
                codec,
                stream_id,
            },
            CtlEvent::AudioStop { reason } => CtlEventView::AudioStop { reason },
            CtlEvent::StartSearch => CtlEventView::StartSearch,
            CtlEvent::AudioSync(sync) => CtlEventView::AudioSync(sync),
            CtlEvent::CapsResp(caps) => CtlEventView::CapsResp(caps),
            CtlEvent::MicOpenError(code) => CtlEventView::MicOpenError(code),
            CtlEvent::Unknown(raw) => CtlEventView::Unknown(raw@),
        }
    }
}

/// Decoded audio frame, as `Protocol::decode_audio` returns it.
#[derive(Debug, Clone, PartialEq, Eq)]
pub struct AudioFrame {
    pub seq: u16,
    pub codec: Codec,
    pub samples: Vec<i16>,
}

/// What an `AudioFrame` holds.
pub struct AudioFrameView {
    pub seq: u16,
    pub codec: Codec,
    pub samples: Seq<i16>,
}

impl View for AudioFrame {
    type V = AudioFrameView;

    open spec fn view(&self) -> AudioFrameView {
        AudioFrameView { seq: self.seq, codec: self.codec, samples: self.samples@ }
    }
}

/// The remote supports no codec that this side does.
#[derive(Debug, Clone, Copy, PartialEq, Eq, Structural)]
pub struct NoCommonCodec {
    pub remote: Codecs,
    pub ours: Codecs,
}

impl NoCommonCodec {
    pub open spec fn text(self) -> Seq<char> {
        "no common codec: remote supports "@ + self.remote.shown() + ", we support "@
            + self.ours.shown()
    }

    /// What is said where there is no common codec.
    pub fn message(&self) -> (r: String)
        ensures
            r@ == self.text(),
    {
        let mut message = joined("no common codec: remote supports ", self.remote.text().as_str());
        message.append(", we support ");
        message.append(self.ours.text().as_str());
        message
    }
}

/// A version can be told from its wire value.
pub proof fn lemma_version_round_trip(version: ProtocolVersion, fallback: ProtocolVersion)
    ensures
        ProtocolVersion::read_or(version.wire(), fallback) == version,
{
}

/// Opcodes to the remote can be told apart.
pub proof fn lemma_tx_opcodes_differ(a: TxOpcode, b: TxOpcode)
    requires
        a.wire() == b.wire(),
    ensures
        a == b,
{
}

/// An opcode from the remote can be told from its byte, and a byte that is one is its byte.
pub proof fn lemma_ctl_opcode_round_trip(value: CtlOpcode, byte: u8)
    ensures
        CtlOpcode::decode(value.wire()) == Ok::<CtlOpcode, UnknownCode>(value),
        CtlOpcode::decode(byte) matches Ok(read) ==> read.wire() == byte,
        CtlOpcode::decode(byte) matches Err(e) ==> e == UnknownCode(byte),
{
}

/// A codec can be told from its byte, and a byte that is one is its byte.
pub proof fn lemma_codec_round_trip(value: Codec, byte: u8)
    ensures
        Codec::decode(value.wire()) == Ok::<Codec, UnknownCode>(value),
        Codec::decode(byte) matches Ok(read) ==> read.wire() == byte,
        Codec::decode(byte) matches Err(e) ==> e == UnknownCode(byte),
{
}

/// An interaction model can be told from its byte, and a byte that is one is its byte.
pub proof fn lemma_interaction_model_round_trip(value: InteractionModel, byte: u8)
    ensures
        InteractionModel::decode(value.wire()) == Ok::<InteractionModel, UnknownCode>(value),
        InteractionModel::decode(byte) matches Ok(read) ==> read.wire() == byte,
        InteractionModel::decode(byte) matches Err(e) ==> e == UnknownCode(byte),
{
}

/// An audio mode can be told from its byte, and a byte that is one is its byte.
pub proof fn lemma_audio_mode_round_trip(value: AudioMode, byte: u8)
    ensures
        AudioMode::decode(value.wire()) == Ok::<AudioMode, UnknownCode>(value),
        AudioMode::decode(byte) matches Ok(read) ==> read.wire() == byte,
        AudioMode::decode(byte) matches Err(e) ==> e == UnknownCode(byte),
{
}

/// A reason for AUDIO_START can be told from its byte, and a byte that is one is its byte.
pub proof fn lemma_audio_start_reason_round_trip(value: AudioStartReason, byte: u8)
    ensures
        AudioStartReason::decode(value.wire()) == Ok::<AudioStartReason, UnknownCode>(value),
        AudioStartReason::decode(byte) matches Ok(read) ==> read.wire() == byte,
        AudioStartReason::decode(byte) matches Err(e) ==> e == UnknownCode(byte),
{
}

/// No reason for AUDIO_STOP is lost: different codes are read differently.
pub proof fn lemma_stop_reasons_differ(a: u8, b: u8)
    requires
        AudioStopReason::decode(a) == AudioStopReason::decode(b),
    ensures
        a == b,
{
}

/// No MIC_OPEN error code is lost: different codes are read differently.
pub proof fn lemma_error_codes_differ(a: u16, b: u16)
    requires
        MicOpenErrorCode::decode(a) == MicOpenErrorCode::decode(b),
    ensures
        a == b,
{
}

/// Two sets of codecs together have what each of them has, and what both have is in each.
pub proof fn lemma_codec_sets(a: Codecs, b: Codecs)
    ensures
        (Codecs { bits: a.bits | b.bits }).has(a),
        (Codecs { bits: a.bits | b.bits }).has(b),
        a.has(Codecs { bits: a.bits & b.bits }),
        b.has(Codecs { bits: a.bits & b.bits }),
{
    let x = a.bits;
    let y = b.bits;
    assert((x | y) & x == x && (x | y) & y == y) by (bit_vector);
    assert(x & (x & y) == x & y && y & (x & y) == x & y) by (bit_vector);
}

/// The codes of the wire, in numbers: which byte stands for what, and which for nothing.
pub proof fn lemma_codes_in_numbers(v: u8)
    ensures
        CtlOpcode::decode(v) == Ok::<CtlOpcode, UnknownCode>(CtlOpcode::AudioStop) <==> v == 0x00,
        CtlOpcode::decode(v) == Ok::<CtlOpcode, UnknownCode>(CtlOpcode::AudioStart) <==> v == 0x04,
        CtlOpcode::decode(v) == Ok::<CtlOpcode, UnknownCode>(CtlOpcode::StartSearch) <==> v == 0x08,
        CtlOpcode::decode(v) == Ok::<CtlOpcode, UnknownCode>(CtlOpcode::AudioSync) <==> v == 0x0A,
        CtlOpcode::decode(v) == Ok::<CtlOpcode, UnknownCode>(CtlOpcode::CapsResp) <==> v == 0x0B,
        CtlOpcode::decode(v) == Ok::<CtlOpcode, UnknownCode>(CtlOpcode::MicOpenError) <==> v == 0x0C,
        CtlOpcode::decode(v) is Err <==> !(v == 0 || v == 4 || v == 8 || 10 <= v <= 12),
        Codec::decode(v) == Ok::<Codec, UnknownCode>(Codec::Adpcm8kHz) <==> v == 1,
        Codec::decode(v) == Ok::<Codec, UnknownCode>(Codec::Adpcm16kHz) <==> v == 2,
        Codec::decode(v) is Err <==> v == 0 || v > 2,
        InteractionModel::decode(v) == Ok::<InteractionModel, UnknownCode>(
            InteractionModel::OnRequest,
        ) <==> v == 0,
        InteractionModel::decode(v) == Ok::<InteractionModel, UnknownCode>(
            InteractionModel::PressToTalk,
        ) <==> v == 1,
        InteractionModel::decode(v) == Ok::<InteractionModel, UnknownCode>(
            InteractionModel::HoldToTalk,
        ) <==> v == 3,
        InteractionModel::decode(v) is Err <==> v == 2 || v > 3,
        AudioMode::decode(v) == Ok::<AudioMode, UnknownCode>(AudioMode::Playback) <==> v == 0,
        AudioMode::decode(v) == Ok::<AudioMode, UnknownCode>(AudioMode::Capture) <==> v == 1,
        AudioMode::decode(v) is Err <==> v > 1,
        AudioStartReason::decode(v) == Ok::<AudioStartReason, UnknownCode>(
            AudioStartReason::MicOpen,
        ) <==> v == 0,
        AudioStartReason::decode(v) == Ok::<AudioStartReason, UnknownCode>(
            AudioStartReason::PressToTalk,
        ) <==> v == 1,
        AudioStartReason::decode(v) == Ok::<AudioStartReason, UnknownCode>(
            AudioStartReason::HoldToTalk,
        ) <==> v == 3,
        AudioStartReason::decode(v) is Err <==> v == 2 || v > 3,
{
}

/// The reasons for AUDIO_STOP and the MIC_OPEN error codes, in numbers. A code that is none of
/// those listed is kept.
pub proof fn lemma_reasons_in_numbers(v: u8, code: u16)
    ensures
        AudioStopReason::decode(v) == AudioStopReason::MicClose <==> v == 0x00,
        AudioStopReason::decode(v) == AudioStopReason::HttButtonRelease <==> v == 0x02,
        AudioStopReason::decode(v) == AudioStopReason::UpcomingAudioStart <==> v == 0x04,
        AudioStopReason::decode(v) == AudioStopReason::TransferTimeout <==> v == 0x08,
        AudioStopReason::decode(v) == AudioStopReason::NotificationsDisabled <==> v == 0x10,
        AudioStopReason::decode(v) matches AudioStopReason::Other(kept) ==> kept == v,
        MicOpenErrorCode::decode(code) == MicOpenErrorCode::InvalidCodec <==> code == 0x0F01,
        MicOpenErrorCode::decode(code) == MicOpenErrorCode::RemoteNotActive <==> code == 0x0F02,
        MicOpenErrorCode::decode(code) == MicOpenErrorCode::NotificationsDisabled <==> code
            == 0x0F03,
        MicOpenErrorCode::decode(code) == MicOpenErrorCode::PttHttInProgress <==> code == 0x0F80,
        MicOpenErrorCode::decode(code) == MicOpenErrorCode::InternalError <==> code == 0x0FFF,
        MicOpenErrorCode::decode(code) matches MicOpenErrorCode::Unknown(kept) ==> kept == code,
{
}

/// What is sent for an opcode, a codec, an interaction model and an audio mode, in numbers.
pub proof fn lemma_sent_codes_in_numbers(
    opcode: TxOpcode,
    codec: Codec,
    model: InteractionModel,
    mode: AudioMode,
)
    ensures
        opcode.wire() == match opcode {
            TxOpcode::GetCaps => 0x0Au8,
            TxOpcode::MicOpen => 0x0Cu8,
            TxOpcode::MicClose => 0x0Du8,
            TxOpcode::MicExtend => 0x0Eu8,
        },
        codec.wire() == (if codec == Codec::Adpcm8kHz {
            1u8
        } else {
            2u8
        }),
        model.wire() == match model {
            InteractionModel::OnRequest => 0u8,
            InteractionModel::PressToTalk => 1u8,
            InteractionModel::HoldToTalk => 3u8,
        },
        mode.wire() == (if mode == AudioMode::Playback {
            0u8
        } else {
            1u8
        }),
{
}

/// The fallbacks count exactly where a byte or a version stands for nothing, and else what it
/// stands for does.
pub proof fn lemma_fallbacks(
    v: u8,
    version: u16,
    codec: Codec,
    model: InteractionModel,
    reason: AudioStartReason,
    other: ProtocolVersion,
)
    ensures
        Codec::read_or(v, codec) == (if v == 1 {
            Codec::Adpcm8kHz
        } else if v == 2 {
            Codec::Adpcm16kHz
        } else {
            codec
        }),
        InteractionModel::read_or(v, model) == (if v == 0 {
            InteractionModel::OnRequest
        } else if v == 1 {
            InteractionModel::PressToTalk
        } else if v == 3 {
            InteractionModel::HoldToTalk
        } else {
            model
        }),
        AudioStartReason::read_or(v, reason) == (if v == 0 {
            AudioStartReason::MicOpen
        } else if v == 1 {
            AudioStartReason::PressToTalk
        } else if v == 3 {
            AudioStartReason::HoldToTalk
        } else {
            reason
        }),
        ProtocolVersion::read_or(version, other) == (if version == 4 {
            ProtocolVersion::V0_4
        } else if version == 256 {
            ProtocolVersion::V1_0
        } else {
            other
        }),
{
}

/// A set of codecs has another where no codec of the other is missing from it, bit by bit.
pub proof fn lemma_codec_set_by_bits(a: Codecs, b: Codecs)
    ensures
        a.bits < 4 && b.bits < 4 ==> (a.has(b) <==> (b.bits % 2 <= a.bits % 2 && b.bits / 2 <= a.bits
            / 2)),
{
    let x = a.bits;
    let y = b.bits;
    assert(x < 4 && y < 4 ==> ((x & y == y) <==> (y % 2 <= x % 2 && y / 2 <= x / 2)))
        by (bit_vector);
}

/// A number can be read back from its hexadecimal digits, of which there are no more than it
/// takes.
pub proof fn lemma_hex_digits(n: u8)
    ensures
        ({
            let digit = |c: char|
                if c as int >= 97 {
                    c as int - 87
                } else {
                    c as int - 48
                };
            let text = hex_text(n);
            &&& n < 16 ==> text.len() == 1 && digit(text[0]) == n
            &&& n >= 16 ==> text.len() == 2 && 16 * digit(text[0]) + digit(text[1]) == n
        }),
{
    assert(n / 16 < 16 && n % 16 < 16);
}

/// How a set of codecs is shown: the known ones by name, with a bar between them, anything
/// else after them as a number, and an empty set as zero.
pub proof fn lemma_codec_set_is_shown(set: Codecs)
    ensures
        set.bits == 0 ==> set.shown() == "Codecs("@ + "0x0"@ + ")"@,
        set.bits == 1 ==> set.shown() == "Codecs("@ + "ADPCM_8KHZ"@ + ")"@,
        set.bits == 2 ==> set.shown() == "Codecs("@ + "ADPCM_16KHZ"@ + ")"@,
        set.bits == 3 ==> set.shown() == "Codecs("@ + ("ADPCM_8KHZ"@ + " | "@ + "ADPCM_16KHZ"@)
            + ")"@,
        set.bits >= 4 ==> {
            let number = "0x"@ + hex_text((set.bits - set.bits % 4) as u8);
            set.shown() == "Codecs("@ + (if set.bits % 4 == 0 {
                number
            } else if set.bits % 4 == 1 {
                "ADPCM_8KHZ"@ + " | "@ + number
            } else if set.bits % 4 == 2 {
                "ADPCM_16KHZ"@ + " | "@ + number
            } else {
                "ADPCM_8KHZ"@ + " | "@ + "ADPCM_16KHZ"@ + " | "@ + number
            }) + ")"@
        },
{
    reveal_with_fuel(barred, 4);
    let number = "0x"@ + hex_text((set.bits - set.bits % 4) as u8);
    let names = if set.bits % 4 == 0 {
        seq![]
    } else if set.bits % 4 == 1 {
        seq!["ADPCM_8KHZ"@]
    } else if set.bits % 4 == 2 {
        seq!["ADPCM_16KHZ"@]
    } else {
        seq!["ADPCM_8KHZ"@, "ADPCM_16KHZ"@]
    };
    let all = if set.bits >= 4 {
        names.push(number)
    } else {
        names
    };
    assert(set.flags() =~= all);
    if set.bits >= 4 {
        assert(all.drop_last() =~= names);
    }
    if set.bits % 4 == 3 {
        assert(names.drop_last() =~= seq!["ADPCM_8KHZ"@]);
    }
}

/// A set of codecs has another exactly where the other has no bit that it lacks.
pub proof fn lemma_codec_set_lacks_no_bit(a: Codecs, b: Codecs)
    ensures
        a.has(b) <==> b.bits & !a.bits == 0,
{
    let x = a.bits;
    let y = b.bits;
    assert((x & y == y) <==> (y & !x == 0)) by (bit_vector);
}

/// What is said of an unknown version quotes it, and what is said where there is no common
/// codec shows the remote's set and then the own one.
pub proof fn lemma_messages_quote(quoted: Seq<char>, error: NoCommonCodec)
    ensures
        ProtocolVersion::unknown_text(quoted) == "unknown protocol version "@ + quoted
            + ", expected \"0.4\" or \"1.0\""@,
        error.text() == "no common codec: remote supports "@ + error.remote.shown()
            + ", we support "@ + error.ours.shown(),
{
}

} // verus!
