//! The course of the daemon: find a remote, connect, negotiate, stream, reconnect.

use crate::adpcm::{
    declip, declip_all, lemma_declip_keeps_gradual, lemma_lowpass_keeps_constant, lowpass, lowpass_all,
};
use crate::atvv::State;
use crate::ble::{
    address_text, is_skipped, lemma_excluded_stays_excluded, with_excluded, Address,
    ExcludedDevices, NotifyChar,
};
use crate::protocol::types::{Capabilities, StreamId};
use crate::protocol::{caps_of, parse_caps_resp, Protocol};
use crate::text::{
    contains_text, joined, lemma_occurrence_can_be_cut_out, lemma_occurs_between, occurs_at,
    occurs_in,
};
use vstd::prelude::*;

verus! {

/// Delay between retries when resolving characteristics or polling for connection, in
/// seconds.
pub const RETRY_DELAY_SECS: u64 = 2;

/// Delay between retries when discovering ATVV devices, in seconds.
pub const DISCOVERY_RETRY_DELAY_SECS: u64 = 5;

/// Timeout waiting for CAPS_RESP during negotiation, in seconds.
pub const NEGOTIATE_TIMEOUT_SECS: u64 = 5;

/// Capacity of the channel between the ATVV session and the decoder task.
pub const DECODER_CHANNEL_CAPACITY: usize = 64;

/// The log level for a number of `-v` flags.
pub open spec fn log_level(verbose: u8) -> Seq<char> {
    if verbose == 0 {
        "info"@
    } else if verbose == 1 {
        "debug"@
    } else {
        "trace"@
    }
}

/// The log level for a number of `-v` flags.
pub fn log_filter(verbose: u8) -> (r: &'static str)
    ensures
        r@ == log_level(verbose),
{
    match verbose {
        0 => "info",
        1 => "debug",
        _ => "trace",
    }
}

/// Whether the microphone may get stuck in `Opening`: it opens by itself, and nothing gives
/// up where the remote is asleep.
pub fn may_get_stuck(mic_on_demand: bool, frame_timeout: u64) -> (r: bool)
    ensures
        r == (mic_on_demand && frame_timeout == 0),
{
    mic_on_demand && frame_timeout == 0
}

/// The samples of a frame, cleaned up: clicks removed first, then smoothed.
pub fn post_process(samples: Vec<i16>) -> (r: Vec<i16>)
    ensures
        r@ == lowpass_all(declip_all(samples@)),
        r@.len() == samples@.len(),
{
    let mut samples = samples;
    declip(samples.as_mut_slice());
    lowpass(samples.as_mut_slice());
    samples
}

/// The command with which the daemon closes the microphone when it shuts down, whatever
/// stream is running.
pub fn shutdown_cmd<P: Protocol>(protocol: &P) -> (r: Vec<u8>)
    ensures
        r@ == protocol.model().close_bytes(StreamId(0xFF)),
{
    protocol.mic_close_cmd(StreamId::any())
}

/// The clean-up leaves silence, and any other constant signal, as it is.
pub proof fn lemma_post_process_keeps_constant(s: Seq<i16>, c: i16)
    requires
        forall|i: int| 0 <= i < s.len() ==> s[i] == c,
    ensures
        lowpass_all(declip_all(s)) == s,
{
    lemma_declip_keeps_gradual(s);
    lemma_lowpass_keeps_constant(s, c);
}

/// An error message says that the device is locked by another instance.
pub open spec fn says_locked(message: Seq<char>) -> bool {
    occurs_in(message, "exclusive"@) || occurs_in(message, "NotPermitted"@) || occurs_in(
        message,
        "InProgress"@,
    )
}

/// Check if an error message indicates the device is locked by another instance.
pub fn is_device_locked_error(message: &str) -> (r: bool)
    ensures
        r == says_locked(message@),
{
    contains_text(message, "exclusive") || contains_text(message, "NotPermitted") || contains_text(
        message,
        "InProgress",
    )
}

/// An error message says that the D-Bus name belongs to someone else.
pub open spec fn says_name_taken(message: Seq<char>) -> bool {
    occurs_in(message, "already taken"@) || occurs_in(message, "NameAlreadyOwned"@) || occurs_in(
        message,
        "exists"@,
    )
}

/// Check if an error message indicates the D-Bus name belongs to someone else.
pub fn is_name_taken_error(message: &str) -> (r: bool)
    ensures
        r == says_name_taken(message@),
{
    contains_text(message, "already taken") || contains_text(message, "NameAlreadyOwned")
        || contains_text(message, "exists")
}

/// What is said where the device that the user asked for is locked.
pub open spec fn device_in_use_text(address: Seq<char>) -> Seq<char> {
    "Device "@ + address + " is already in use by another ATVVoice instance."@
}

fn device_in_use_message(address: &str) -> (r: String)
    ensures
        r@ == device_in_use_text(address@),
{
    joined(
        joined("Device ", address).as_str(),
        " is already in use by another ATVVoice instance.",
    )
}

/// What is said where the D-Bus name belongs to someone else.
pub open spec fn name_in_use_text(dbus_name: Seq<char>) -> Seq<char> {
    "D-Bus name '"@ + dbus_name
        + "' is already in use. Another ATVVoice instance may be running with the same name. Use --name <suffix> to differentiate instances, or --no-dbus to disable."@
}

fn name_in_use_message(dbus_name: &str) -> (r: String)
    ensures
        r@ == name_in_use_text(dbus_name@),
{
    joined(
        joined("D-Bus name '", dbus_name).as_str(),
        "' is already in use. Another ATVVoice instance may be running with the same name. Use --name <suffix> to differentiate instances, or --no-dbus to disable.",
    )
}

/// How far the wait for a device to be connected is.
#[derive(Debug, Clone, Copy, PartialEq, Eq, Structural)]
pub enum ConnectWait {
    /// Ask the device whether it is connected.
    Checking,
    /// Watch the device's events.
    Watching,
    /// Pause for `RETRY_DELAY_SECS` seconds, then ask the device.
    Polling,
    /// The device is connected.
    Connected,
}

/// What a device that is waited for lets know.
#[derive(Debug, Clone, Copy, PartialEq, Eq, Structural)]
pub enum ConnectNews {
    /// Whether it is connected. A device that cannot be asked is taken not to be.
    Answer(bool),
    /// Its `Connected` property changed.
    Changed(bool),
    /// Something else happened.
    Other,
    /// Its events cannot be watched, or there will be no more.
    NoEvents,
}

impl ConnectWait {
    /// The wait after some news.
    pub open spec fn after(self, news: ConnectNews) -> ConnectWait {
        match (self, news) {
            (ConnectWait::Checking, ConnectNews::Answer(connected)) => if connected {
                ConnectWait::Connected
            } else {
                ConnectWait::Watching
            },
            (ConnectWait::Watching, ConnectNews::Changed(true)) => ConnectWait::Connected,
            (ConnectWait::Watching, ConnectNews::NoEvents) => ConnectWait::Polling,
            (ConnectWait::Polling, ConnectNews::Answer(true)) => ConnectWait::Connected,
            _ => self,
        }
    }

    /// Go on with some news.
    pub fn hear(&mut self, news: ConnectNews)
        ensures
            *final(self) == old(self).after(news),
    {
        match (*self, news) {
            (ConnectWait::Checking, ConnectNews::Answer(true)) => {
                *self = ConnectWait::Connected;
            },
            (ConnectWait::Checking, ConnectNews::Answer(false)) => {
                *self = ConnectWait::Watching;
            },
            (ConnectWait::Watching, ConnectNews::Changed(true)) => {
                *self = ConnectWait::Connected;
            },
            (ConnectWait::Watching, ConnectNews::NoEvents) => {
                *self = ConnectWait::Polling;
            },
            (ConnectWait::Polling, ConnectNews::Answer(true)) => {
                *self = ConnectWait::Connected;
            },
            _ => {},
        }
    }
}

/// The wait ends when the device is known to be connected and not before, and it does not
/// start again.
pub proof fn lemma_wait_ends_when_connected(wait: ConnectWait, news: ConnectNews)
    ensures
        wait.after(news) == ConnectWait::Connected && wait != ConnectWait::Connected ==> news
            == ConnectNews::Answer(true) || news == ConnectNews::Changed(true),
        wait != ConnectWait::Watching ==> wait.after(ConnectNews::Answer(true))
            == ConnectWait::Connected,
        wait == ConnectWait::Watching ==> wait.after(ConnectNews::Changed(true))
            == ConnectWait::Connected,
        ConnectWait::Connected.after(news) == ConnectWait::Connected,
{
}

/// Why a negotiation failed.
#[derive(Debug, Clone, Copy, PartialEq, Eq, Structural)]
pub enum NegotiationError {
    Disconnected,
    Timeout,
}

impl NegotiationError {
    pub open spec fn text(self) -> Seq<char> {
        match self {
            NegotiationError::Disconnected => "device disconnected during negotiation"@,
            NegotiationError::Timeout => "timeout waiting for CAPS_RESP (5s)"@,
        }
    }

    pub fn message(&self) -> (r: &'static str)
        ensures
            r@ == self.text(),
    {
        match self {
            NegotiationError::Disconnected => "device disconnected during negotiation",
            NegotiationError::Timeout => "timeout waiting for CAPS_RESP (5s)",
        }
    }
}

/// What happens during a negotiation.
#[derive(Debug)]
pub enum NegotiationNews {
    /// A CTL notification.
    Control(Vec<u8>),
    /// No notification will come any more.
    StreamEnded,
    /// `NEGOTIATE_TIMEOUT_SECS` seconds have passed.
    Deadline,
}

/// How a negotiation goes on.
#[derive(Debug, Clone, Copy)]
pub enum NegotiationStep {
    /// The remote's capabilities are known.
    Done(Capabilities),
    /// Keep waiting.
    Wait,
    Failed(NegotiationError),
}

/// How a negotiation goes on. A notification that is no CAPS_RESP (for instance a stale
/// START_SEARCH) is passed over.
pub fn negotiation_step(news: &NegotiationNews) -> (r: NegotiationStep)
    ensures
        match *news {
            NegotiationNews::Control(data) => match caps_of(data@) {
                Some(caps) => r == NegotiationStep::Done(caps),
                None => r == NegotiationStep::Wait,
            },
            NegotiationNews::StreamEnded => r == NegotiationStep::Failed(
                NegotiationError::Disconnected,
            ),
            NegotiationNews::Deadline => r == NegotiationStep::Failed(NegotiationError::Timeout),
        },
{
    match news {
        NegotiationNews::Control(data) => match parse_caps_resp(data.as_slice()) {
            Some(caps) => NegotiationStep::Done(caps),
            None => NegotiationStep::Wait,
        },
        NegotiationNews::StreamEnded => NegotiationStep::Failed(NegotiationError::Disconnected),
        NegotiationNews::Deadline => NegotiationStep::Failed(NegotiationError::Timeout),
    }
}

/// What the daemon is busy with.
#[derive(Debug, Clone, Copy, PartialEq, Eq, Structural)]
pub enum Phase {
    /// Look for a device.
    Discover,
    /// Wait for the device to be connected.
    Connect,
    /// Find its characteristics.
    Resolve,
    /// Register the D-Bus interface.
    Serve,
    /// Ask the device for its capabilities.
    Negotiate,
    /// Run a session.
    Stream,
    /// Wait for the device to be connected again.
    Reconnect,
    /// Find its characteristics again (handles may change after reconnect).
    Reresolve,
    /// Nothing more.
    Stopped,
}

/// How a phase went.
#[derive(Debug)]
pub enum Outcome {
    Found(Address),
    NotFound,
    Connected,
    Resolved,
    Unresolved,
    /// The D-Bus interface is registered, or not wanted.
    Served,
    /// The D-Bus interface could not be registered under its name, with the error message.
    NotServed { dbus_name: String, message: String },
    /// The device's capabilities are known and the protocol is set up.
    Negotiated,
    /// The device's capabilities are known, but there is no common codec.
    NoCommonCodec,
    /// The negotiation failed, with its error message.
    NotNegotiated { message: String },
    SessionEnded,
    /// The session failed, with its error message.
    SessionFailed { message: String },
    /// The user wants the daemon to stop.
    Interrupted,
}

/// What an `Outcome` says.
pub enum OutcomeView {
    Found(Address),
    NotFound,
    Connected,
    Resolved,
    Unresolved,
    Served,
    NotServed { dbus_name: Seq<char>, message: Seq<char> },
    Negotiated,
    NoCommonCodec,
    NotNegotiated { message: Seq<char> },
    SessionEnded,
    SessionFailed { message: Seq<char> },
    Interrupted,
}

impl View for Outcome {
    type V = OutcomeView;

    open spec fn view(&self) -> OutcomeView {
        match *self {
            Outcome::Found(addr) => OutcomeView::Found(addr),
            Outcome::NotFound => OutcomeView::NotFound,
            Outcome::Connected => OutcomeView::Connected,
            Outcome::Resolved => OutcomeView::Resolved,
            Outcome::Unresolved => OutcomeView::Unresolved,
            Outcome::Served => OutcomeView::Served,
            Outcome::NotServed { dbus_name, message } => OutcomeView::NotServed {
                dbus_name: dbus_name@,
                message: message@,
            },
            Outcome::Negotiated => OutcomeView::Negotiated,
            Outcome::NoCommonCodec => OutcomeView::NoCommonCodec,
            Outcome::NotNegotiated { message } => OutcomeView::NotNegotiated { message: message@ },
            Outcome::SessionEnded => OutcomeView::SessionEnded,
            Outcome::SessionFailed { message } => OutcomeView::SessionFailed { message: message@ },
            Outcome::Interrupted => OutcomeView::Interrupted,
        }
    }
}

/// How the daemon goes on.
#[derive(Debug)]
pub enum Next {
    /// With the next phase.
    GoOn,
    /// With the next phase, after this many seconds.
    Pause(u64),
    /// Not at all: it ends with an error message.
    Fail(String),
    /// It tells the remote to close its microphone and ends.
    CloseMicAndStop,
    /// It ends.
    Stop,
}

/// What a `Next` says.
pub enum NextView {
    GoOn,
    Pause(u64),
    Fail(Seq<char>),
    CloseMicAndStop,
    Stop,
}

impl View for Next {
    type V = NextView;

    open spec fn view(&self) -> NextView {
        match *self {
            Next::GoOn => NextView::GoOn,
            Next::Pause(secs) => NextView::Pause(secs),
            Next::Fail(message) => NextView::Fail(message@),
            Next::CloseMicAndStop => NextView::CloseMicAndStop,
            Next::Stop => NextView::Stop,
        }
    }
}

/// Steers the daemon from phase to phase.
#[derive(Debug)]
pub struct Supervisor {
    pub phase: Phase,
    /// The device that the user asked for.
    pub filter_addr: Option<Address>,
    /// Devices that are locked by another instance.
    pub excluded: ExcludedDevices,
    /// The device that the daemon is busy with.
    pub device: Option<Address>,
}

/// What a `Supervisor` knows.
pub struct SupervisorView {
    pub phase: Phase,
    pub filter_addr: Option<Address>,
    pub excluded: Seq<Address>,
    pub device: Option<Address>,
}

impl View for Supervisor {
    type V = SupervisorView;

    open spec fn view(&self) -> SupervisorView {
        SupervisorView {
            phase: self.phase,
            filter_addr: self.filter_addr,
            excluded: self.excluded.addrs@,
            device: self.device,
        }
    }
}

/// Where an outcome leads, how to go on, and the state to publish if any.
pub struct Move {
    pub to: SupervisorView,
    pub next: NextView,
    pub publish: Option<State>,
}

impl SupervisorView {
    /// No address is excluded twice, and the device is known once one is found.
    pub open spec fn wf(self) -> bool {
        &&& self.excluded.no_duplicates()
        &&& self.phase != Phase::Discover && self.phase != Phase::Stopped ==> self.device is Some
    }

    /// On to another phase.
    pub open spec fn go(self, phase: Phase) -> Move {
        Move { to: SupervisorView { phase, ..self }, next: NextView::GoOn, publish: None }
    }

    /// The same again, after a pause.
    pub open spec fn retry(self, secs: u64) -> Move {
        Move { to: self, next: NextView::Pause(secs), publish: None }
    }

    /// The end, with an error message.
    pub open spec fn fail(self, message: Seq<char>) -> Move {
        Move { next: NextView::Fail(message), ..self.go(Phase::Stopped) }
    }

    /// The device is locked by another instance. That is fatal where the user asked for this
    /// device; else it is skipped, and another is looked for.
    pub open spec fn locked(self) -> Move {
        match (self.filter_addr, self.device) {
            (None, Some(device)) => Move {
                to: SupervisorView {
                    phase: Phase::Discover,
                    excluded: with_excluded(self.excluded, device),
                    device: None,
                    ..self
                },
                next: NextView::GoOn,
                publish: None,
            },
            (_, Some(device)) => self.fail(device_in_use_text(address_text(device.0@))),
            (_, None) => self.go(self.phase),
        }
    }

    /// Where an outcome leads. One that does not belong to the phase changes nothing.
    pub open spec fn after(self, outcome: OutcomeView) -> Move {
        match (self.phase, outcome) {
            (Phase::Stopped, _) => Move { next: NextView::Stop, ..self.go(Phase::Stopped) },
            (Phase::Stream, OutcomeView::Interrupted) => Move {
                next: NextView::CloseMicAndStop,
                ..self.go(Phase::Stopped)
            },
            (_, OutcomeView::Interrupted) => Move { next: NextView::Stop, ..self.go(Phase::Stopped) },
            (Phase::Discover, OutcomeView::Found(addr)) => (SupervisorView {
                device: Some(addr),
                ..self
            }).go(Phase::Connect),
            (Phase::Discover, OutcomeView::NotFound) => self.retry(DISCOVERY_RETRY_DELAY_SECS),
            (Phase::Connect, OutcomeView::Connected) => self.go(Phase::Resolve),
            (Phase::Resolve, OutcomeView::Resolved) => self.go(Phase::Serve),
            (Phase::Resolve, OutcomeView::Unresolved) => self.retry(RETRY_DELAY_SECS),
            (Phase::Serve, OutcomeView::Served) => self.go(Phase::Negotiate),
            (Phase::Serve, OutcomeView::NotServed { dbus_name, message }) => if says_name_taken(
                message,
            ) {
                self.fail(name_in_use_text(dbus_name))
            } else {
                self.go(Phase::Negotiate)
            },
            (Phase::Negotiate, OutcomeView::Negotiated) => Move {
                publish: Some(State::Ready),
                ..self.go(Phase::Stream)
            },
            (Phase::Negotiate, OutcomeView::NoCommonCodec) => Move {
                publish: Some(State::Ready),
                ..self.go(Phase::Negotiate)
            },
            (Phase::Negotiate, OutcomeView::NotNegotiated { message }) => if says_locked(message) {
                self.locked()
            } else {
                self.retry(RETRY_DELAY_SECS)
            },
            (Phase::Stream, OutcomeView::SessionEnded) => Move {
                publish: Some(State::Init),
                ..self.go(Phase::Reconnect)
            },
            (Phase::Stream, OutcomeView::SessionFailed { message }) => if says_locked(message) {
                self.locked()
            } else {
                Move { publish: Some(State::Init), ..self.go(Phase::Reconnect) }
            },
            (Phase::Reconnect, OutcomeView::Connected) => self.go(Phase::Reresolve),
            (Phase::Reresolve, OutcomeView::Resolved) => self.go(Phase::Negotiate),
            (Phase::Reresolve, OutcomeView::Unresolved) => self.retry(RETRY_DELAY_SECS),
            _ => self.go(self.phase),
        }
    }
}

/// How to go on, and the state to publish if any.
#[derive(Debug)]
pub struct Instruction {
    pub next: Next,
    pub publish: Option<State>,
}

impl Supervisor {
    /// The daemon at its start.
    pub fn new(filter_addr: Option<Address>) -> (r: Supervisor)
        ensures
            r@ == (SupervisorView {
                phase: Phase::Discover,
                filter_addr,
                excluded: seq![],
                device: None,
            }),
            r@.wf(),
    {
        Supervisor {
            phase: Phase::Discover,
            filter_addr,
            excluded: ExcludedDevices::new(),
            device: None,
        }
    }

    fn on_locked(&mut self) -> (r: Instruction)
        requires
            old(self)@.wf(),
        ensures
            final(self)@ == old(self)@.locked().to,
            r.next@ == old(self)@.locked().next,
            r.publish == old(self)@.locked().publish,
    {
        match self.device {
            Some(device) => if self.filter_addr.is_some() {
                self.phase = Phase::Stopped;
                Instruction {
                    next: Next::Fail(device_in_use_message(device.text().as_str())),
                    publish: None,
                }
            } else {
                self.excluded.insert(device);
                self.phase = Phase::Discover;
                self.device = None;
                Instruction { next: Next::GoOn, publish: None }
            },
            None => Instruction { next: Next::GoOn, publish: None },
        }
    }

    /// A phase came to an outcome.
    pub fn handle(&mut self, outcome: Outcome) -> (r: Instruction)
        requires
            old(self)@.wf(),
        ensures
            final(self)@ == old(self)@.after(outcome@).to,
            r.next@ == old(self)@.after(outcome@).next,
            r.publish == old(self)@.after(outcome@).publish,
            final(self)@.wf(),
    {
        proof {
            lemma_supervisor_stays_wf(self@, outcome@);
        }
        let mut next = Next::GoOn;
        let mut publish: Option<State> = None;
        match (self.phase, outcome) {
            (Phase::Stopped, _) => {
                next = Next::Stop;
            },
            (Phase::Stream, Outcome::Interrupted) => {
                self.phase = Phase::Stopped;
                next = Next::CloseMicAndStop;
            },
            (_, Outcome::Interrupted) => {
                self.phase = Phase::Stopped;
                next = Next::Stop;
            },
            (Phase::Discover, Outcome::Found(addr)) => {
                self.device = Some(addr);
                self.phase = Phase::Connect;
            },
            (Phase::Discover, Outcome::NotFound) => {
                next = Next::Pause(DISCOVERY_RETRY_DELAY_SECS);
            },
            (Phase::Connect, Outcome::Connected) => {
                self.phase = Phase::Resolve;
            },
            (Phase::Resolve, Outcome::Resolved) => {
                self.phase = Phase::Serve;
            },
            (Phase::Resolve, Outcome::Unresolved) => {
                next = Next::Pause(RETRY_DELAY_SECS);
            },
            (Phase::Serve, Outcome::Served) => {
                self.phase = Phase::Negotiate;
            },
            (Phase::Serve, Outcome::NotServed { dbus_name, message }) => {
                if is_name_taken_error(message.as_str()) {
                    self.phase = Phase::Stopped;
                    next = Next::Fail(name_in_use_message(dbus_name.as_str()));
                } else {
                    self.phase = Phase::Negotiate;
                }
            },
            (Phase::Negotiate, Outcome::Negotiated) => {
                publish = Some(State::Ready);
                self.phase = Phase::Stream;
            },
            (Phase::Negotiate, Outcome::NoCommonCodec) => {
                publish = Some(State::Ready);
            },
            (Phase::Negotiate, Outcome::NotNegotiated { message }) => {
                if is_device_locked_error(message.as_str()) {
                    return self.on_locked();
                }
                next = Next::Pause(RETRY_DELAY_SECS);
            },
            (Phase::Stream, Outcome::SessionEnded) => {
                publish = Some(State::Init);
                self.phase = Phase::Reconnect;
            },
            (Phase::Stream, Outcome::SessionFailed { message }) => {
                if is_device_locked_error(message.as_str()) {
                    return self.on_locked();
                }
                publish = Some(State::Init);
                self.phase = Phase::Reconnect;
            },
            (Phase::Reconnect, Outcome::Connected) => {
                self.phase = Phase::Reresolve;
            },
            (Phase::Reresolve, Outcome::Resolved) => {
                self.phase = Phase::Negotiate;
            },
            (Phase::Reresolve, Outcome::Unresolved) => {
                next = Next::Pause(RETRY_DELAY_SECS);
            },
            _ => {},
        }
        Instruction { next, publish }
    }
}

/// Every outcome keeps the supervisor valid.
pub proof fn lemma_supervisor_stays_wf(s: SupervisorView, outcome: OutcomeView)
    requires
        s.wf(),
    ensures
        s.after(outcome).to.wf(),
{
}

/// The supervisor after a string of outcomes.
pub open spec fn supervisor_after(s: SupervisorView, outcomes: Seq<OutcomeView>) -> SupervisorView
    decreases outcomes.len(),
{
    if outcomes.len() == 0 {
        s
    } else {
        supervisor_after(s, outcomes.drop_last()).after(outcomes.last()).to
    }
}

/// Whatever happens, the supervisor stays valid and what the user asked for stays; a device
/// that was once excluded stays excluded, and where the user asked for a device none is.
pub proof fn lemma_exclusions_last(s: SupervisorView, outcomes: Seq<OutcomeView>, addr: Address)
    requires
        s.wf(),
    ensures
        supervisor_after(s, outcomes).wf(),
        supervisor_after(s, outcomes).filter_addr == s.filter_addr,
        is_skipped(addr, s.filter_addr, s.excluded) ==> is_skipped(
            addr,
            s.filter_addr,
            supervisor_after(s, outcomes).excluded,
        ),
        s.filter_addr is Some ==> supervisor_after(s, outcomes).excluded == s.excluded,
    decreases outcomes.len(),
{
    if outcomes.len() > 0 {
        lemma_exclusions_last(s, outcomes.drop_last(), addr);
        let before = supervisor_after(s, outcomes.drop_last());
        lemma_supervisor_stays_wf(before, outcomes.last());
        if let Some(device) = before.device {
            lemma_excluded_stays_excluded(before.excluded, device, addr, s.filter_addr);
        }
    }
}

/// The user can stop the daemon in any phase, and it stays stopped.
pub proof fn lemma_interrupt_stops(s: SupervisorView, outcomes: Seq<OutcomeView>)
    ensures
        s.after(OutcomeView::Interrupted).to.phase == Phase::Stopped,
        s.phase == Phase::Stream ==> s.after(OutcomeView::Interrupted).next
            == NextView::CloseMicAndStop,
        s.phase != Phase::Stream ==> s.after(OutcomeView::Interrupted).next == NextView::Stop,
        s.phase == Phase::Stopped ==> supervisor_after(s, outcomes).phase == Phase::Stopped,
    decreases outcomes.len(),
{
    if outcomes.len() > 0 {
        lemma_interrupt_stops(s, outcomes.drop_last());
    }
}

/// Where a device turns out to be locked, during negotiation or in a session: if the user
/// asked for it the daemon fails, and else it looks for another and skips this one.
pub proof fn lemma_locked_device(s: SupervisorView, message: Seq<char>)
    requires
        s.wf(),
        says_locked(message),
        s.phase == Phase::Negotiate || s.phase == Phase::Stream,
    ensures
        ({
            let outcome = if s.phase == Phase::Negotiate {
                OutcomeView::NotNegotiated { message }
            } else {
                OutcomeView::SessionFailed { message }
            };
            let device = s.device->Some_0;
            if s.filter_addr is Some {
                &&& s.after(outcome).to.phase == Phase::Stopped
                &&& s.after(outcome).next == NextView::Fail(
                    device_in_use_text(address_text(device.0@)),
                )
            } else {
                &&& s.after(outcome).to.phase == Phase::Discover
                &&& s.after(outcome).next == NextView::GoOn
                &&& is_skipped(device, None, s.after(outcome).to.excluded)
            }
        }),
{
    let device = s.device->Some_0;
    lemma_excluded_stays_excluded(s.excluded, device, device, None);
}

/// Where the notifications of a device cannot be acquired, it counts as locked.
pub proof fn lemma_failed_acquisition_is_locked(char: NotifyChar)
    ensures
        says_locked(char.failure_text()),
{
    reveal_strlit("exclusive");
    reveal_strlit(
        "Failed to acquire exclusive CTL notifications. Another ATVVoice instance may be connected to this device.",
    );
    reveal_strlit(
        "Failed to acquire exclusive RX notifications. Another ATVVoice instance may be connected to this device.",
    );
    assert(char.failure_text().subrange(18, 27) =~= "exclusive"@);
    assert(occurs_at(char.failure_text(), "exclusive"@, 18));
}

/// A negotiation that fails for want of an answer is tried again: its messages do not count
/// as a locked device.
pub proof fn lemma_failed_negotiation_is_retried(s: SupervisorView, error: NegotiationError)
    requires
        s.phase == Phase::Negotiate,
    ensures
        s.after(OutcomeView::NotNegotiated { message: error.text() }).to == s,
        s.after(OutcomeView::NotNegotiated { message: error.text() }).next == NextView::Pause(
            RETRY_DELAY_SECS,
        ),
{
    reveal_strlit("exclusive");
    reveal_strlit("NotPermitted");
    reveal_strlit("InProgress");
    reveal_strlit("device disconnected during negotiation");
    reveal_strlit("timeout waiting for CAPS_RESP (5s)");
    let text = error.text();
    // Neither message holds an `x`, an `N` or an `I`.
    assert forall|i: int| 0 <= i < text.len() implies text[i] != 'x' && text[i] != 'N' && text[i]
        != 'I' by {}
    assert forall|at: int|
        !occurs_at(text, "exclusive"@, at) && !occurs_at(text, "NotPermitted"@, at) && !occurs_at(
            text,
            "InProgress"@,
            at,
        ) by {
        if occurs_at(text, "exclusive"@, at) {
            assert(text.subrange(at, at + 9)[1] == text[at + 1]);
        }
        if occurs_at(text, "NotPermitted"@, at) {
            assert(text.subrange(at, at + 12)[0] == text[at]);
        }
        if occurs_at(text, "InProgress"@, at) {
            assert(text.subrange(at, at + 10)[0] == text[at]);
        }
    }
}

/// The daemon ends with an error on two occasions only: its D-Bus name is taken, or the
/// device that the user asked for is locked.
pub proof fn lemma_daemon_fails_only_when_taken(
    s: SupervisorView,
    outcome: OutcomeView,
    error: Seq<char>,
)
    requires
        s.after(outcome).next == NextView::Fail(error),
    ensures
        ({
            ||| outcome matches OutcomeView::NotServed { dbus_name, message } && says_name_taken(
                message,
            ) && error == name_in_use_text(dbus_name)
            ||| s.filter_addr is Some && (outcome matches OutcomeView::NotNegotiated { message }
                && says_locked(message))
            ||| s.filter_addr is Some && (outcome matches OutcomeView::SessionFailed { message }
                && says_locked(message))
        }),
{
}

/// A session runs only with a device that has been negotiated with, and when it is over,
/// other than by a lock or by the user, the daemon waits for the same device.
pub proof fn lemma_session_phases(s: SupervisorView, outcome: OutcomeView)
    requires
        s.wf(),
    ensures
        s.after(outcome).to.phase == Phase::Stream && s.phase != Phase::Stream ==> s.phase
            == Phase::Negotiate && outcome is Negotiated,
        s.phase == Phase::Stream && outcome is SessionEnded ==> s.after(outcome).to
            == (SupervisorView { phase: Phase::Reconnect, ..s }) && s.after(outcome).publish
            == Some(State::Init),
        s.phase != Phase::Discover && s.after(outcome).to.phase != Phase::Discover
            ==> s.after(outcome).to.device == s.device,
{
}

/// Without failures the daemon gets from the start to a session with the device it found,
/// and when the session is over, to a new one with the same device.
pub proof fn lemma_daemon_streams_again(s: SupervisorView, addr: Address)
    ensures
        s.phase == Phase::Discover ==> supervisor_after(
            s,
            seq![
                OutcomeView::Found(addr),
                OutcomeView::Connected,
                OutcomeView::Resolved,
                OutcomeView::Served,
                OutcomeView::Negotiated,
            ],
        ) == (SupervisorView { phase: Phase::Stream, device: Some(addr), ..s }),
        s.phase == Phase::Stream ==> supervisor_after(
            s,
            seq![
                OutcomeView::SessionEnded,
                OutcomeView::Connected,
                OutcomeView::Resolved,
                OutcomeView::Negotiated,
            ],
        ) == s,
{
    let first = seq![
        OutcomeView::Found(addr),
        OutcomeView::Connected,
        OutcomeView::Resolved,
        OutcomeView::Served,
        OutcomeView::Negotiated,
    ];
    let again = seq![
        OutcomeView::SessionEnded,
        OutcomeView::Connected,
        OutcomeView::Resolved,
        OutcomeView::Negotiated,
    ];
    reveal_with_fuel(supervisor_after, 6);
    assert(first.drop_last().drop_last().drop_last().drop_last().drop_last() =~= seq![]);
    assert(again.drop_last().drop_last().drop_last().drop_last() =~= seq![]);
}

/// The log level grows with the number of flags: none, one, and any more.
pub proof fn lemma_log_levels(verbose: u8)
    ensures
        verbose == 0 ==> log_level(verbose) == "info"@,
        verbose == 1 ==> log_level(verbose) == "debug"@,
        verbose >= 2 ==> log_level(verbose) == "trace"@,
{
}

/// Which messages tell of a lock and of a taken name: those with one of three words anywhere in
/// them.
pub proof fn lemma_telling_words(before: Seq<char>, after: Seq<char>)
    ensures
        says_locked(before + "exclusive"@ + after),
        says_locked(before + "NotPermitted"@ + after),
        says_locked(before + "InProgress"@ + after),
        says_name_taken(before + "already taken"@ + after),
        says_name_taken(before + "NameAlreadyOwned"@ + after),
        says_name_taken(before + "exists"@ + after),
{
    lemma_occurs_between(before, "exclusive"@, after);
    lemma_occurs_between(before, "NotPermitted"@, after);
    lemma_occurs_between(before, "InProgress"@, after);
    lemma_occurs_between(before, "already taken"@, after);
    lemma_occurs_between(before, "NameAlreadyOwned"@, after);
    lemma_occurs_between(before, "exists"@, after);
}

/// No other messages tell of a lock or of a taken name: each that does can be cut at one of the
/// words.
pub proof fn lemma_no_other_words_tell(message: Seq<char>)
    ensures
        says_locked(message) ==> exists|before: Seq<char>, after: Seq<char>|
            {
                ||| message == #[trigger] (before + "exclusive"@ + after)
                ||| message == before + "NotPermitted"@ + after
                ||| message == before + "InProgress"@ + after
            },
        says_name_taken(message) ==> exists|before: Seq<char>, after: Seq<char>|
            {
                ||| message == #[trigger] (before + "already taken"@ + after)
                ||| message == before + "NameAlreadyOwned"@ + after
                ||| message == before + "exists"@ + after
            },
{
    if says_locked(message) {
        let word = if occurs_in(message, "exclusive"@) {
            "exclusive"@
        } else if occurs_in(message, "NotPermitted"@) {
            "NotPermitted"@
        } else {
            "InProgress"@
        };
        let (before, after) = lemma_occurrence_can_be_cut_out(message, word);
        let witness = before + "exclusive"@ + after;
    }
    if says_name_taken(message) {
        let word = if occurs_in(message, "already taken"@) {
            "already taken"@
        } else if occurs_in(message, "NameAlreadyOwned"@) {
            "NameAlreadyOwned"@
        } else {
            "exists"@
        };
        let (before, after) = lemma_occurrence_can_be_cut_out(message, word);
        let witness = before + "already taken"@ + after;
    }
}

/// The wait for a connection, step by step. A device that says it is not connected is watched;
/// one whose events are not to be had is asked again and again; what says nothing new changes
/// nothing.
pub proof fn lemma_wait_step_by_step(wait: ConnectWait, news: ConnectNews)
    ensures
        ({
            let after = wait.after(news);
            match wait {
                ConnectWait::Checking => {
                    &&& news == ConnectNews::Answer(true) ==> after == ConnectWait::Connected
                    &&& news == ConnectNews::Answer(false) ==> after == ConnectWait::Watching
                    &&& !(news is Answer) ==> after == ConnectWait::Checking
                },
                ConnectWait::Watching => {
                    &&& news == ConnectNews::Changed(true) ==> after == ConnectWait::Connected
                    &&& news == ConnectNews::NoEvents ==> after == ConnectWait::Polling
                    &&& news != ConnectNews::Changed(true) && news != ConnectNews::NoEvents
                        ==> after == ConnectWait::Watching
                },
                ConnectWait::Polling => {
                    &&& news == ConnectNews::Answer(true) ==> after == ConnectWait::Connected
                    &&& news != ConnectNews::Answer(true) ==> after == ConnectWait::Polling
                },
                ConnectWait::Connected => after == ConnectWait::Connected,
            }
        }),
{
}

/// Where a session that fails leads. With a message that tells of no lock: to a new connection
/// with the same device, whether or not the user asked for it, and `init` is published.
pub proof fn lemma_failed_session_reconnects(s: SupervisorView, message: Seq<char>)
    requires
        s.phase == Phase::Stream,
        !occurs_in(message, "exclusive"@),
        !occurs_in(message, "NotPermitted"@),
        !occurs_in(message, "InProgress"@),
    ensures
        ({
            let failed = s.after(OutcomeView::SessionFailed { message });
            let ended = s.after(OutcomeView::SessionEnded);
            &&& failed.to == (SupervisorView { phase: Phase::Reconnect, ..s })
            &&& failed.next == NextView::GoOn
            &&& failed.publish == Some(State::Init)
            &&& ended.to == failed.to
            &&& ended.next == failed.next
            &&& ended.publish == failed.publish
        }),
{
}

/// What stops the daemon: the user, a taken D-Bus name, or a locked device that the user asked
/// for. Nothing else does, in any phase.
pub proof fn lemma_daemon_stops_only_when(s: SupervisorView, outcome: OutcomeView)
    requires
        s.phase != Phase::Stopped,
    ensures
        ({
            let locked = |message: Seq<char>|
                occurs_in(message, "exclusive"@) || occurs_in(message, "NotPermitted"@)
                    || occurs_in(message, "InProgress"@);
            let taken = |message: Seq<char>|
                occurs_in(message, "already taken"@) || occurs_in(message, "NameAlreadyOwned"@)
                    || occurs_in(message, "exists"@);
            let stops = {
                ||| outcome is Interrupted
                ||| s.phase == Phase::Serve && (outcome matches OutcomeView::NotServed {
                    dbus_name,
                    message,
                } && taken(message))
                ||| s.phase == Phase::Negotiate && s.filter_addr is Some && s.device is Some && (
                outcome matches OutcomeView::NotNegotiated { message } && locked(message))
                ||| s.phase == Phase::Stream && s.filter_addr is Some && s.device is Some && (
                outcome matches OutcomeView::SessionFailed { message } && locked(message))
            };
            &&& s.after(outcome).to.phase == Phase::Stopped <==> stops
            &&& s.after(outcome).next is Stop || s.after(outcome).next is Fail || s.after(
                outcome,
            ).next is CloseMicAndStop <==> stops
            &&& s.after(outcome).next is Fail <==> stops && !(outcome is Interrupted)
            &&& s.after(outcome).next is CloseMicAndStop <==> outcome is Interrupted && s.phase
                == Phase::Stream
        }),
{
}

/// The way of the daemon, step by step, where no step stops it or finds the device locked: the
/// phase that follows, the pause before it, and the state that is published.
pub proof fn lemma_way_of_the_daemon(s: SupervisorView, addr: Address)
    ensures
        s.phase == Phase::Discover ==> {
            &&& s.after(OutcomeView::Found(addr)) == (Move {
                to: SupervisorView { phase: Phase::Connect, device: Some(addr), ..s },
                next: NextView::GoOn,
                publish: None,
            })
            &&& s.after(OutcomeView::NotFound) == (Move {
                to: s,
                next: NextView::Pause(5),
                publish: None,
            })
        },
        s.phase == Phase::Connect ==> s.after(OutcomeView::Connected) == (Move {
            to: SupervisorView { phase: Phase::Resolve, ..s },
            next: NextView::GoOn,
            publish: None,
        }),
        s.phase == Phase::Resolve ==> s.after(OutcomeView::Resolved) == (Move {
            to: SupervisorView { phase: Phase::Serve, ..s },
            next: NextView::GoOn,
            publish: None,
        }),
        s.phase == Phase::Serve ==> s.after(OutcomeView::Served) == (Move {
            to: SupervisorView { phase: Phase::Negotiate, ..s },
            next: NextView::GoOn,
            publish: None,
        }),
        s.phase == Phase::Negotiate ==> {
            &&& s.after(OutcomeView::Negotiated) == (Move {
                to: SupervisorView { phase: Phase::Stream, ..s },
                next: NextView::GoOn,
                publish: Some(State::Ready),
            })
            &&& s.after(OutcomeView::NoCommonCodec) == (Move {
                to: s,
                next: NextView::GoOn,
                publish: Some(State::Ready),
            })
        },
        s.phase == Phase::Stream ==> s.after(OutcomeView::SessionEnded) == (Move {
            to: SupervisorView { phase: Phase::Reconnect, ..s },
            next: NextView::GoOn,
            publish: Some(State::Init),
        }),
        s.phase == Phase::Reconnect ==> s.after(OutcomeView::Connected) == (Move {
            to: SupervisorView { phase: Phase::Reresolve, ..s },
            next: NextView::GoOn,
            publish: None,
        }),
        s.phase == Phase::Reresolve ==> s.after(OutcomeView::Resolved) == (Move {
            to: SupervisorView { phase: Phase::Negotiate, ..s },
            next: NextView::GoOn,
            publish: None,
        }),
        s.phase == Phase::Resolve || s.phase == Phase::Reresolve ==> s.after(
            OutcomeView::Unresolved,
        ) == (Move { to: s, next: NextView::Pause(2), publish: None }),
{
}

/// Where failures with a message lead when the message tells of nothing special: a negotiation
/// is tried again after two seconds, and the daemon does without D-Bus.
pub proof fn lemma_ordinary_failures(s: SupervisorView, dbus_name: Seq<char>, message: Seq<char>)
    ensures
        s.phase == Phase::Negotiate && !occurs_in(message, "exclusive"@) && !occurs_in(
            message,
            "NotPermitted"@,
        ) && !occurs_in(message, "InProgress"@) ==> s.after(OutcomeView::NotNegotiated { message })
            == (Move { to: s, next: NextView::Pause(2), publish: None }),
        s.phase == Phase::Serve && !occurs_in(message, "already taken"@) && !occurs_in(
            message,
            "NameAlreadyOwned"@,
        ) && !occurs_in(message, "exists"@) ==> s.after(
            OutcomeView::NotServed { dbus_name, message },
        ) == (Move {
            to: SupervisorView { phase: Phase::Negotiate, ..s },
            next: NextView::GoOn,
            publish: None,
        }),
{
}

/// Where a lock leads, in negotiation and in a session alike: the daemon fails and names the
/// device where the user asked for it, and else it looks for another, forgets this one and
/// excludes it, and only it.
pub proof fn lemma_lock_excludes(
    s: SupervisorView,
    device: Address,
    before: Seq<char>,
    after: Seq<char>,
    other: Address,
)
    requires
        s.device == Some(device),
        s.phase == Phase::Negotiate || s.phase == Phase::Stream,
    ensures
        ({
            let message = before + "exclusive"@ + after;
            let led = s.after(
                if s.phase == Phase::Negotiate {
                    OutcomeView::NotNegotiated { message }
                } else {
                    OutcomeView::SessionFailed { message }
                },
            );
            &&& led.publish is None
            &&& s.filter_addr is Some ==> {
                &&& led.to == (SupervisorView { phase: Phase::Stopped, ..s })
                &&& led.next == NextView::Fail(
                    "Device "@ + address_text(device.0@)
                        + " is already in use by another ATVVoice instance."@,
                )
            }
            &&& s.filter_addr is None ==> {
                &&& led.next == NextView::GoOn
                &&& led.to.phase == Phase::Discover
                &&& led.to.device is None
                &&& led.to.filter_addr is None
                &&& led.to.excluded.contains(other) <==> other == device || s.excluded.contains(
                    other,
                )
            }
        }),
{
    lemma_telling_words(before, after);
    lemma_excluded_stays_excluded(s.excluded, device, other, None);
}

/// What the user is told of a taken D-Bus name, and how the user stops the daemon.
pub proof fn lemma_taken_name_and_interrupt(
    s: SupervisorView,
    dbus_name: Seq<char>,
    before: Seq<char>,
    after: Seq<char>,
)
    ensures
        s.phase == Phase::Serve ==> s.after(
            OutcomeView::NotServed { dbus_name, message: before + "already taken"@ + after },
        ) == (Move {
            to: SupervisorView { phase: Phase::Stopped, ..s },
            next: NextView::Fail(
                "D-Bus name '"@ + dbus_name
                    + "' is already in use. Another ATVVoice instance may be running with the same name. Use --name <suffix> to differentiate instances, or --no-dbus to disable."@,
            ),
            publish: None,
        }),
        s.after(OutcomeView::Interrupted).to == (SupervisorView { phase: Phase::Stopped, ..s }),
        s.after(OutcomeView::Interrupted).publish is None,
{
    lemma_telling_words(before, after);
}

/// An outcome that does not belong to the phase changes nothing and publishes nothing.
pub proof fn lemma_foreign_outcomes(s: SupervisorView, outcome: OutcomeView)
    requires
        !(outcome is Interrupted),
        (match s.phase {
            Phase::Discover => !(outcome is Found) && !(outcome is NotFound),
            Phase::Connect => !(outcome is Connected),
            Phase::Resolve => !(outcome is Resolved) && !(outcome is Unresolved),
            Phase::Serve => !(outcome is Served) && !(outcome is NotServed),
            Phase::Negotiate => !(outcome is Negotiated) && !(outcome is NoCommonCodec) && !(
            outcome is NotNegotiated),
            Phase::Stream => !(outcome is SessionEnded) && !(outcome is SessionFailed),
            Phase::Reconnect => !(outcome is Connected),
            Phase::Reresolve => !(outcome is Resolved) && !(outcome is Unresolved),
            Phase::Stopped => true,
        }),
    ensures
        s.after(outcome).to == s,
        s.after(outcome).publish is None,
        s.phase != Phase::Stopped ==> s.after(outcome).next == NextView::GoOn,
{
}

/// A supervisor, an outcome and an instruction say what they hold.
pub proof fn lemma_daemon_views_hold(s: Supervisor, message: String, dbus_name: String, next: Next)
    ensures
        s@ == (SupervisorView {
            phase: s.phase,
            filter_addr: s.filter_addr,
            excluded: s.excluded.addrs@,
            device: s.device,
        }),
        (Outcome::SessionFailed { message })@ == (OutcomeView::SessionFailed { message: message@ }),
        (Outcome::NotNegotiated { message })@ == (OutcomeView::NotNegotiated { message: message@ }),
        (Outcome::NotServed { dbus_name, message })@ == (OutcomeView::NotServed {
            dbus_name: dbus_name@,
            message: message@,
        }),
        Outcome::SessionEnded@ == OutcomeView::SessionEnded,
        Outcome::Interrupted@ == OutcomeView::Interrupted,
        Outcome::Connected@ == OutcomeView::Connected,
        Outcome::Resolved@ == OutcomeView::Resolved,
        Outcome::Unresolved@ == OutcomeView::Unresolved,
        Outcome::Served@ == OutcomeView::Served,
        Outcome::Negotiated@ == OutcomeView::Negotiated,
        Outcome::NoCommonCodec@ == OutcomeView::NoCommonCodec,
        Outcome::NotFound@ == OutcomeView::NotFound,
        next matches Next::Fail(text) ==> next@ == NextView::Fail(text@),
        next matches Next::Pause(secs) ==> next@ == NextView::Pause(secs),
        next is GoOn <==> next@ is GoOn,
        next is Stop <==> next@ is Stop,
        next is CloseMicAndStop <==> next@ is CloseMicAndStop,
{
}

} // verus!
