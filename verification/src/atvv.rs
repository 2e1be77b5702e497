//! The ATVV session: what to do when something arrives from the remote, from a user or
//! from the clock.
//!
//! A session turns each event into a list of actions. The caller performs them in order.
//! Where a `Send` fails the session is over, and the rest of the list is dropped.

use crate::consumer::ConsumerEvent;
use crate::protocol::types::{
    AudioFrame, AudioFrameView, AudioStopReason, Codec, CtlEvent, CtlEventView, MicOpenErrorCode,
    NoCommonCodec, StreamId,
};
use crate::protocol::v04::V04Model;
use crate::protocol::v10::{next_seq, ProtocolV10};
use crate::protocol::{
    best_codec, lemma_best_codec_by_bits, lemma_protocol_stays_wf, lemma_v04_goes_by_capabilities,
    lemma_v04_notifications, lemma_v10_goes_by_capabilities, lemma_v10_notifications, Protocol,
    ProtocolModel,
};
use vstd::prelude::*;

verus! {

/// How the mic button behaves.
#[derive(Debug, Clone, Copy, PartialEq, Eq, Structural)]
pub enum MicMode {
    /// Press to start, press again to stop (for remotes that toggle).
    Toggle,
    /// Hold to stream, release to stop (for remotes that send AUDIO_STOP on release).
    Hold,
}

#[derive(Debug, Clone, Copy, PartialEq, Eq, Structural)]
pub enum State {
    Init,
    Ready,
    Opening,
    Streaming,
}

impl State {
    /// The microphone is open, or on its way to be.
    pub open spec fn is_open(self) -> bool {
        self == State::Opening || self == State::Streaming
    }

    /// The name of the state.
    pub open spec fn name(self) -> Seq<char> {
        match self {
            State::Init => "init"@,
            State::Ready => "ready"@,
            State::Opening => "opening"@,
            State::Streaming => "streaming"@,
        }
    }

    /// The name of the state.
    pub fn as_str(&self) -> (r: &'static str)
        ensures
            r@ == self.name(),
    {
        match self {
            State::Init => "init",
            State::Ready => "ready",
            State::Opening => "opening",
            State::Streaming => "streaming",
        }
    }
}

/// Commands that can be sent from external sources (D-Bus, CLI, etc.).
#[derive(Debug, Clone, Copy, PartialEq, Eq, Structural)]
pub enum ExternalCommand {
    MicOpen,
    MicClose,
    MicToggle,
}

/// Session timeout configuration, in nanoseconds.
#[derive(Debug, Clone, Copy, PartialEq, Eq, Structural)]
pub struct SessionTimeouts {
    /// Auto-close mic if no frames arrive for this long (device went to sleep).
    /// Resets on every received audio frame. 0 = disabled.
    pub frame_timeout: u128,
    /// Auto-close mic this long after the last mic button press (START_SEARCH).
    /// Does not reset on other remote buttons (volume, navigation, etc.). 0 = disabled.
    pub idle_timeout: u128,
    /// Re-send keepalive at this interval to reset the remote's audio transfer
    /// timeout. 0 = disabled.
    pub keepalive: u128,
}

impl SessionTimeouts {
    /// Timeouts given in whole seconds.
    pub fn from_secs(frame_timeout: u64, idle_timeout: u64, keepalive: u64) -> (r: SessionTimeouts)
        ensures
            r.frame_timeout == frame_timeout * 1_000_000_000,
            r.idle_timeout == idle_timeout * 1_000_000_000,
            r.keepalive == keepalive * 1_000_000_000,
    {
        SessionTimeouts {
            frame_timeout: frame_timeout as u128 * 1_000_000_000,
            idle_timeout: idle_timeout as u128 * 1_000_000_000,
            keepalive: keepalive as u128 * 1_000_000_000,
        }
    }
}

/// Events from the device (connection state changes).
#[derive(Debug, Clone, Copy, PartialEq, Eq, Structural)]
pub enum DeviceConnectionEvent {
    Disconnected,
}

/// The clocks that a session keeps.
#[derive(Debug, Clone, Copy, PartialEq, Eq, Structural)]
pub enum Timer {
    /// Time to remind the remote that its audio is wanted.
    Keepalive,
    /// No audio frame for too long.
    Frame,
    /// No press of the mic button for too long.
    Idle,
}

/// Something that a session reacts to.
pub enum SessionEvent {
    /// A CTL notification.
    Control(Vec<u8>),
    /// An RX (audio) notification.
    Audio(Vec<u8>),
    /// A command from outside.
    Command(ExternalCommand),
    /// The number of listeners changed.
    Consumer(ConsumerEvent),
    /// A timer went off.
    Elapsed(Timer),
    /// The device's connection changed.
    Connection(DeviceConnectionEvent),
    /// No notification will ever come again.
    StreamsEnded,
}

/// What a `SessionEvent` says.
pub enum SessionEventView {
    Control(Seq<u8>),
    Audio(Seq<u8>),
    Command(ExternalCommand),
    Consumer(ConsumerEvent),
    Elapsed(Timer),
    Connection(DeviceConnectionEvent),
    StreamsEnded,
}

impl View for SessionEvent {
    type V = SessionEventView;

    open spec fn view(&self) -> SessionEventView {
        match *self {
            SessionEvent::Control(data) => SessionEventView::Control(data@),
            SessionEvent::Audio(data) => SessionEventView::Audio(data@),
            SessionEvent::Command(command) => SessionEventView::Command(command),
            SessionEvent::Consumer(event) => SessionEventView::Consumer(event),
            SessionEvent::Elapsed(timer) => SessionEventView::Elapsed(timer),
            SessionEvent::Connection(event) => SessionEventView::Connection(event),
            SessionEvent::StreamsEnded => SessionEventView::StreamsEnded,
        }
    }
}

/// Something that the caller is to do.
#[derive(Debug, PartialEq, Eq)]
pub enum Action {
    /// Write a command to the remote. If that fails, the session ends with the failure.
    Send(Vec<u8>),
    /// Write a command to the remote, whether or not that succeeds.
    TrySend(Vec<u8>),
    /// Tell observers the state.
    Publish(State),
    /// Note the time with `Session::arm`.
    Arm(Timer),
    /// Pass a decoded frame on.
    Deliver(AudioFrame),
    /// Report that frames are missing.
    ReportGap { expected: u16, got: u16, dropped: u16 },
    /// Report how a codec negotiation went.
    ReportCodec(Result<Codec, NoCommonCodec>),
    /// End the session.
    Finish,
}

/// What an `Action` asks for.
pub enum ActionView {
    Send(Seq<u8>),
    TrySend(Seq<u8>),
    Publish(State),
    Arm(Timer),
    Deliver(AudioFrameView),
    ReportGap { expected: u16, got: u16, dropped: u16 },
    ReportCodec(Result<Codec, NoCommonCodec>),
    Finish,
}

impl View for Action {
    type V = ActionView;

    open spec fn view(&self) -> ActionView {
        match *self {
            Action::Send(data) => ActionView::Send(data@),
            Action::TrySend(data) => ActionView::TrySend(data@),
            Action::Publish(state) => ActionView::Publish(state),
            Action::Arm(timer) => ActionView::Arm(timer),
            Action::Deliver(frame) => ActionView::Deliver(frame@),
            Action::ReportGap { expected, got, dropped } => ActionView::ReportGap {
                expected,
                got,
                dropped,
            },
            Action::ReportCodec(result) => ActionView::ReportCodec(result),
            Action::Finish => ActionView::Finish,
        }
    }
}

/// What a list of actions asks for.
pub open spec fn views(actions: Seq<Action>) -> Seq<ActionView> {
    actions.map_values(|a: Action| a@)
}

/// The actions of a list that may be empty: `action` if `wanted`.
pub open spec fn when(wanted: bool, action: ActionView) -> Seq<ActionView> {
    if wanted {
        seq![action]
    } else {
        seq![]
    }
}

/// The state of a session.
#[derive(Debug, Clone, Copy)]
pub struct Session {
    pub state: State,
    /// Sequence number of the last frame of the stream.
    pub last_seq: Option<u16>,
    /// The stream that is running (set on AUDIO_START, used for MIC_CLOSE/keepalive).
    pub stream_id: Option<StreamId>,
    pub mic_mode: MicMode,
    pub timeouts: SessionTimeouts,
    /// Open and close the microphone as listeners come and go.
    pub mic_on_demand: bool,
    /// The number of listeners.
    pub consumers: u32,
    /// When the timers go off.
    pub keepalive_at: u128,
    pub frame_at: u128,
    pub idle_at: u128,
}

/// What an event leads to.
pub struct Step {
    pub session: Session,
    pub protocol: ProtocolModel,
    pub actions: Seq<ActionView>,
}

impl Session {
    /// A stream is known exactly while audio streams, and frames are counted only then.
    pub open spec fn wf(self) -> bool {
        &&& self.stream_id is Some <==> self.state == State::Streaming
        &&& self.last_seq is Some ==> self.state == State::Streaming
    }

    /// The stream that a command is for.
    pub open spec fn target(self) -> StreamId {
        match self.stream_id {
            Some(stream_id) => stream_id,
            None => StreamId(0x00),
        }
    }

    /// A timeout of 0 switches its timer off.
    pub open spec fn timeout(self, timer: Timer) -> u128 {
        match timer {
            Timer::Keepalive => self.timeouts.keepalive,
            Timer::Frame => self.timeouts.frame_timeout,
            Timer::Idle => self.timeouts.idle_timeout,
        }
    }

    pub open spec fn is_enabled(self, timer: Timer) -> bool {
        self.timeout(timer) != 0
    }

    pub open spec fn deadline(self, timer: Timer) -> u128 {
        match timer {
            Timer::Keepalive => self.keepalive_at,
            Timer::Frame => self.frame_at,
            Timer::Idle => self.idle_at,
        }
    }

    /// The timer counts: it is enabled and the state is one that it watches over.
    pub open spec fn is_armed(self, timer: Timer) -> bool {
        &&& self.is_enabled(timer)
        &&& match timer {
            Timer::Keepalive => self.state == State::Streaming,
            Timer::Frame => self.state.is_open(),
            Timer::Idle => self.state.is_open(),
        }
    }

    /// The timer counts and its time has come.
    pub open spec fn is_due(self, timer: Timer, now: u128) -> bool {
        self.is_armed(timer) && now >= self.deadline(timer)
    }

    /// The session with a timer started at `now`.
    pub open spec fn with_timer(self, timer: Timer, now: u128) -> Session {
        let sum = now + self.timeout(timer);
        let at = (if sum > u128::MAX {
            u128::MAX as int
        } else {
            sum
        }) as u128;
        match timer {
            Timer::Keepalive => Session { keepalive_at: at, ..self },
            Timer::Frame => Session { frame_at: at, ..self },
            Timer::Idle => Session { idle_at: at, ..self },
        }
    }

    /// The session after the microphone was closed.
    pub open spec fn closed_mic(self) -> Session {
        Session { state: State::Ready, last_seq: None, stream_id: None, ..self }
    }

    /// The session after the microphone was asked to open.
    pub open spec fn opening_mic(self) -> Session {
        Session { state: State::Opening, ..self }
    }

    /// Ask the remote to open its microphone.
    pub open spec fn open_actions(self, m: ProtocolModel) -> Seq<ActionView> {
        seq![ActionView::Send(m.open_bytes()), ActionView::Publish(State::Opening)] + when(
            self.is_enabled(Timer::Frame),
            ActionView::Arm(Timer::Frame),
        )
    }

    /// Ask the remote to close its microphone.
    pub open spec fn close_actions(self, m: ProtocolModel) -> Seq<ActionView> {
        seq![
            ActionView::Send(m.close_bytes(self.target())),
            ActionView::Publish(State::Ready),
        ]
    }

    /// Nothing happens.
    pub open spec fn idle_step(self, m: ProtocolModel) -> Step {
        Step { session: self, protocol: m, actions: seq![] }
    }

    /// The microphone opens.
    pub open spec fn open_step(self, m: ProtocolModel) -> Step {
        Step { session: self.opening_mic(), protocol: m, actions: self.open_actions(m) }
    }

    /// The microphone closes.
    pub open spec fn close_step(self, m: ProtocolModel) -> Step {
        Step { session: self.closed_mic(), protocol: m, actions: self.close_actions(m) }
    }

    /// A press of the mic button: opens the microphone, or closes it, or in hold mode
    /// closes and opens it again.
    pub open spec fn search_step(self, m: ProtocolModel) -> Step {
        let first = when(self.is_enabled(Timer::Idle), ActionView::Arm(Timer::Idle));
        if !self.state.is_open() {
            Step { actions: first + self.open_actions(m), ..self.open_step(m) }
        } else {
            match self.mic_mode {
                MicMode::Toggle => Step {
                    actions: first + self.close_actions(m),
                    ..self.close_step(m)
                },
                MicMode::Hold => Step {
                    session: self.closed_mic().opening_mic(),
                    protocol: m,
                    actions: first + seq![ActionView::Send(m.close_bytes(self.target()))]
                        + self.open_actions(m),
                },
            }
        }
    }

    /// The remote stopped sending audio. It is told to close its microphone, except where
    /// the user's release of the button had it stop.
    pub open spec fn stop_step(self, m: ProtocolModel, reason: AudioStopReason) -> Step {
        Step {
            session: self.closed_mic(),
            protocol: m,
            actions: when(
                reason != AudioStopReason::HttButtonRelease && self.state == State::Streaming,
                ActionView::Send(m.close_bytes(self.target())),
            ) + seq![ActionView::Publish(State::Ready)],
        }
    }

    /// The remote starts to send audio. It counts frames anew on every AUDIO_START. Where
    /// nobody had asked for it, this is what opens the microphone, and the time without
    /// frames counts from here.
    pub open spec fn start_step(self, m: ProtocolModel, stream_id: StreamId) -> Step {
        Step {
            session: Session {
                state: State::Streaming,
                last_seq: None,
                stream_id: Some(stream_id),
                ..self
            },
            protocol: m,
            actions: seq![ActionView::Publish(State::Streaming)] + when(
                self.is_enabled(Timer::Keepalive),
                ActionView::Arm(Timer::Keepalive),
            ) + when(
                self.is_enabled(Timer::Frame) && !self.state.is_open(),
                ActionView::Arm(Timer::Frame),
            ),
        }
    }

    /// A CTL event.
    pub open spec fn ctl_step(self, m: ProtocolModel, event: CtlEventView) -> Step {
        match event {
            CtlEventView::AudioStop { reason } => self.stop_step(m, reason),
            CtlEventView::AudioStart { stream_id, .. } => self.start_step(m, stream_id),
            CtlEventView::StartSearch => self.search_step(m),
            CtlEventView::AudioSync(sync) => self.idle_step(m.after_sync(sync)),
            CtlEventView::CapsResp(caps) => Step {
                session: self,
                protocol: m.after_caps(caps),
                actions: seq![ActionView::ReportCodec(best_codec(caps.codecs))],
            },
            CtlEventView::MicOpenError(_) => if self.state == State::Opening {
                Step {
                    session: Session { state: State::Ready, stream_id: None, ..self },
                    protocol: m,
                    actions: seq![ActionView::Publish(State::Ready)],
                }
            } else {
                self.idle_step(m)
            },
            CtlEventView::Unknown(_) => self.idle_step(m),
        }
    }

    /// The report that is due when frame `seq` arrives: frames are missing where it does not
    /// follow the last one.
    pub open spec fn gap_report(self, seq: u16) -> Seq<ActionView> {
        match self.last_seq {
            Some(last) => when(
                seq != next_seq(last),
                ActionView::ReportGap {
                    expected: next_seq(last),
                    got: seq,
                    dropped: ((seq - next_seq(last)) % 0x1_0000) as u16,
                },
            ),
            None => seq![],
        }
    }

    /// An audio notification. It is dropped unless audio streams.
    pub open spec fn audio_step(self, m: ProtocolModel, data: Seq<u8>) -> Step {
        if self.state != State::Streaming {
            self.idle_step(m)
        } else {
            match m.audio(data) {
                Some(frame) => Step {
                    session: Session { last_seq: Some(frame.seq), ..self },
                    protocol: m.after_audio(data),
                    actions: when(self.is_enabled(Timer::Frame), ActionView::Arm(Timer::Frame))
                        + self.gap_report(frame.seq) + seq![ActionView::Deliver(frame)],
                },
                None => self.idle_step(m.after_audio(data)),
            }
        }
    }

    /// A command from outside. One that asks for what is already so does nothing.
    pub open spec fn command_step(self, m: ProtocolModel, command: ExternalCommand) -> Step {
        if self.state == State::Ready && command != ExternalCommand::MicClose {
            self.open_step(m)
        } else if self.state.is_open() && command != ExternalCommand::MicOpen {
            self.close_step(m)
        } else {
            self.idle_step(m)
        }
    }

    /// The number of listeners changed. With the microphone on demand, a listener that
    /// comes opens it, and the last one that goes closes it.
    pub open spec fn consumer_step(self, m: ProtocolModel, total: u32) -> Step {
        let counted = Session { consumers: total, ..self };
        if self.mic_on_demand && total > self.consumers && self.state == State::Ready {
            counted.open_step(m)
        } else if self.mic_on_demand && total == 0 && self.consumers > 0 && self.state.is_open() {
            counted.close_step(m)
        } else {
            counted.idle_step(m)
        }
    }

    /// A timer went off. One that does not count does nothing.
    pub open spec fn elapsed_step(self, m: ProtocolModel, timer: Timer) -> Step {
        if !self.is_armed(timer) {
            self.idle_step(m)
        } else {
            match timer {
                Timer::Keepalive => Step {
                    session: self,
                    protocol: m,
                    actions: seq![
                        ActionView::TrySend(m.keepalive_bytes(self.target())),
                        ActionView::Arm(Timer::Keepalive),
                    ],
                },
                _ => Step {
                    session: self.closed_mic(),
                    protocol: m,
                    actions: seq![
                        ActionView::TrySend(m.close_bytes(self.target())),
                        ActionView::Publish(State::Ready),
                    ],
                },
            }
        }
    }

    /// What an event leads to.
    pub open spec fn step(self, m: ProtocolModel, event: SessionEventView) -> Step {
        match event {
            SessionEventView::Control(data) => self.ctl_step(m, m.ctl(data)),
            SessionEventView::Audio(data) => self.audio_step(m, data),
            SessionEventView::Command(command) => self.command_step(m, command),
            SessionEventView::Consumer(ConsumerEvent::Changed(total)) => self.consumer_step(
                m,
                total,
            ),
            SessionEventView::Elapsed(timer) => self.elapsed_step(m, timer),
            SessionEventView::Connection(DeviceConnectionEvent::Disconnected) => Step {
                actions: seq![ActionView::Finish],
                ..self.idle_step(m)
            },
            SessionEventView::StreamsEnded => Step {
                actions: seq![ActionView::Finish],
                ..self.idle_step(m)
            },
        }
    }

    /// A session that has not started.
    pub fn new(mic_mode: MicMode, timeouts: SessionTimeouts, mic_on_demand: bool) -> (r: Session)
        ensures
            r == (Session {
                state: State::Init,
                last_seq: None,
                stream_id: None,
                mic_mode,
                timeouts,
                mic_on_demand,
                consumers: 0,
                keepalive_at: 0,
                frame_at: 0,
                idle_at: 0,
            }),
            r.wf(),
    {
        Session {
            state: State::Init,
            last_seq: None,
            stream_id: None,
            mic_mode,
            timeouts,
            mic_on_demand,
            consumers: 0,
            keepalive_at: 0,
            frame_at: 0,
            idle_at: 0,
        }
    }

    /// What the start of a session leads to: the remote is asked for its capabilities and
    /// the timers start.
    pub open spec fn begin_step(self, m: ProtocolModel) -> Step {
        Step {
            session: self.closed_mic(),
            protocol: m,
            actions: seq![
                ActionView::Send(m.caps_bytes()),
                ActionView::Publish(State::Ready),
                ActionView::Arm(Timer::Keepalive),
                ActionView::Arm(Timer::Frame),
                ActionView::Arm(Timer::Idle),
            ],
        }
    }

    /// Start the session.
    pub fn begin<P: Protocol>(&mut self, protocol: &P) -> (r: Vec<Action>)
        ensures
            *final(self) == old(self).begin_step(protocol.model()).session,
            views(r@) == old(self).begin_step(protocol.model()).actions,
    {
        self.mark_closed();
        let actions = vec![
            Action::Send(protocol.get_caps_cmd()),
            Action::Publish(State::Ready),
            Action::Arm(Timer::Keepalive),
            Action::Arm(Timer::Frame),
            Action::Arm(Timer::Idle),
        ];
        assert(views(actions@) =~= old(self).begin_step(protocol.model()).actions);
        actions
    }

    /// Start a timer: it goes off once its timeout has passed since `now`.
    pub fn arm(&mut self, timer: Timer, now: u128)
        ensures
            *final(self) == old(self).with_timer(timer, now),
    {
        match timer {
            Timer::Keepalive => {
                self.keepalive_at = now.saturating_add(self.timeouts.keepalive);
            },
            Timer::Frame => {
                self.frame_at = now.saturating_add(self.timeouts.frame_timeout);
            },
            Timer::Idle => {
                self.idle_at = now.saturating_add(self.timeouts.idle_timeout);
            },
        }
    }

    /// When a timer goes off, if it counts at all.
    pub fn armed_until(&self, timer: Timer) -> (r: Option<u128>)
        ensures
            r == (if self.is_armed(timer) {
                Some(self.deadline(timer))
            } else {
                None
            }),
    {
        if self.counts(timer) {
            Some(
                match timer {
                    Timer::Keepalive => self.keepalive_at,
                    Timer::Frame => self.frame_at,
                    Timer::Idle => self.idle_at,
                },
            )
        } else {
            None
        }
    }

    /// Whether the time of a timer that counts has come.
    pub fn due(&self, timer: Timer, now: u128) -> (r: bool)
        ensures
            r == self.is_due(timer, now),
    {
        match self.armed_until(timer) {
            Some(at) => now >= at,
            None => false,
        }
    }

    fn enabled(&self, timer: Timer) -> (r: bool)
        ensures
            r == self.is_enabled(timer),
    {
        match timer {
            Timer::Keepalive => self.timeouts.keepalive != 0,
            Timer::Frame => self.timeouts.frame_timeout != 0,
            Timer::Idle => self.timeouts.idle_timeout != 0,
        }
    }

    fn mic_is_open(&self) -> (r: bool)
        ensures
            r == self.state.is_open(),
    {
        self.state == State::Streaming || self.state == State::Opening
    }

    fn counts(&self, timer: Timer) -> (r: bool)
        ensures
            r == self.is_armed(timer),
    {
        self.enabled(timer) && match timer {
            Timer::Keepalive => self.state == State::Streaming,
            Timer::Frame => self.mic_is_open(),
            Timer::Idle => self.mic_is_open(),
        }
    }

    fn stream(&self) -> (r: StreamId)
        ensures
            r == self.target(),
    {
        match self.stream_id {
            Some(stream_id) => stream_id,
            None => StreamId::mic_open(),
        }
    }

    fn mark_closed(&mut self)
        ensures
            *final(self) == old(self).closed_mic(),
    {
        self.state = State::Ready;
        self.last_seq = None;
        self.stream_id = None;
    }

    fn open_mic<P: Protocol>(&mut self, protocol: &P, actions: &mut Vec<Action>)
        ensures
            *final(self) == old(self).opening_mic(),
            views(final(actions)@) == views(old(actions)@) + old(self).open_actions(
                protocol.model(),
            ),
    {
        let ghost before = *self;
        actions.push(Action::Send(protocol.mic_open_cmd()));
        self.state = State::Opening;
        actions.push(Action::Publish(State::Opening));
        if self.enabled(Timer::Frame) {
            actions.push(Action::Arm(Timer::Frame));
        }
        assert(views(actions@) =~= views(old(actions)@) + before.open_actions(protocol.model()));
    }

    fn close_mic<P: Protocol>(&mut self, protocol: &P, actions: &mut Vec<Action>)
        ensures
            *final(self) == old(self).closed_mic(),
            views(final(actions)@) == views(old(actions)@) + old(self).close_actions(
                protocol.model(),
            ),
    {
        let ghost before = *self;
        actions.push(Action::Send(protocol.mic_close_cmd(self.stream())));
        self.mark_closed();
        actions.push(Action::Publish(State::Ready));
        assert(views(actions@) =~= views(old(actions)@) + before.close_actions(protocol.model()));
    }

    fn on_search<P: Protocol>(&mut self, protocol: &P) -> (r: Vec<Action>)
        ensures
            *final(self) == old(self).search_step(protocol.model()).session,
            views(r@) == old(self).search_step(protocol.model()).actions,
    {
        let mut actions: Vec<Action> = Vec::new();
        // Reset idle timer on user activity (button press)
        if self.enabled(Timer::Idle) {
            actions.push(Action::Arm(Timer::Idle));
        }
        assert(views(actions@) =~= when(
            self.is_enabled(Timer::Idle),
            ActionView::Arm(Timer::Idle),
        ));
        if self.mic_is_open() {
            match self.mic_mode {
                // Second press stops streaming
                MicMode::Toggle => self.close_mic(protocol, &mut actions),
                // Second START_SEARCH while streaming = stop + re-open
                MicMode::Hold => {
                    let ghost first = views(actions@);
                    let ghost closing = protocol.model().close_bytes(self.target());
                    actions.push(Action::Send(protocol.mic_close_cmd(self.stream())));
                    assert(views(actions@) =~= first + seq![ActionView::Send(closing)]);
                    self.last_seq = None;
                    self.stream_id = None;
                    self.open_mic(protocol, &mut actions);
                },
            }
        } else {
            self.open_mic(protocol, &mut actions);
        }
        actions
    }

    fn on_control<P: Protocol>(&mut self, protocol: &mut P, data: &[u8]) -> (r: Vec<Action>)
        ensures
            ({
                let m = old(protocol).model();
                let step = old(self).ctl_step(m, m.ctl(data@));
                &&& *final(self) == step.session
                &&& final(protocol).model() == step.protocol
                &&& views(r@) == step.actions
            }),
    {
        let ghost m = protocol.model();
        let ghost before = *self;
        let mut actions: Vec<Action> = Vec::new();
        match protocol.parse_ctl(data) {
            CtlEvent::AudioStop { reason } => {
                // For HTT button release, remote already stopped - don't send MIC_CLOSE
                if reason != AudioStopReason::HttButtonRelease && self.state == State::Streaming {
                    actions.push(Action::Send(protocol.mic_close_cmd(self.stream())));
                }
                self.mark_closed();
                actions.push(Action::Publish(State::Ready));
                assert(views(actions@) =~= before.stop_step(m, reason).actions);
            },
            CtlEvent::AudioStart { reason: _, codec: _, stream_id } => {
                let unasked = !self.mic_is_open();
                self.last_seq = None;
                self.stream_id = Some(stream_id);
                self.state = State::Streaming;
                actions.push(Action::Publish(State::Streaming));
                if self.enabled(Timer::Keepalive) {
                    actions.push(Action::Arm(Timer::Keepalive));
                }
                // Silence counts from the opening of the mic
                if unasked && self.enabled(Timer::Frame) {
                    actions.push(Action::Arm(Timer::Frame));
                }
                assert(views(actions@) =~= before.start_step(m, stream_id).actions);
            },
            CtlEvent::StartSearch => {
                return self.on_search(&*protocol);
            },
            CtlEvent::AudioSync(sync) => {
                protocol.on_audio_sync(&sync);
                assert(views(actions@) =~= seq![]);
            },
            CtlEvent::CapsResp(caps) => {
                actions.push(Action::ReportCodec(protocol.on_caps_resp(&caps)));
                assert(views(actions@) =~= seq![
                    ActionView::ReportCodec(best_codec(caps.codecs)),
                ]);
            },
            CtlEvent::MicOpenError(_) => {
                if self.state == State::Opening {
                    self.state = State::Ready;
                    self.stream_id = None;
                    actions.push(Action::Publish(State::Ready));
                    assert(views(actions@) =~= seq![ActionView::Publish(State::Ready)]);
                } else {
                    assert(views(actions@) =~= seq![]);
                }
            },
            CtlEvent::Unknown(_) => {
                assert(views(actions@) =~= seq![]);
            },
        }
        actions
    }

    fn on_audio<P: Protocol>(&mut self, protocol: &mut P, data: &[u8]) -> (r: Vec<Action>)
        requires
            old(protocol).model().wf(),
        ensures
            ({
                let step = old(self).audio_step(old(protocol).model(), data@);
                &&& *final(self) == step.session
                &&& final(protocol).model() == step.protocol
                &&& views(r@) == step.actions
            }),
    {
        let ghost m = protocol.model();
        let ghost before = *self;
        let mut actions: Vec<Action> = Vec::new();
        if self.state == State::Streaming {
            if let Some(frame) = protocol.decode_audio(data) {
                if self.enabled(Timer::Frame) {
                    actions.push(Action::Arm(Timer::Frame));
                }
                // Sequence gap detection
                if let Some(last) = self.last_seq {
                    let expected: u16 = last.wrapping_add(1);
                    if frame.seq != expected {
                        actions.push(
                            Action::ReportGap {
                                expected,
                                got: frame.seq,
                                dropped: frame.seq.wrapping_sub(expected),
                            },
                        );
                    }
                }
                self.last_seq = Some(frame.seq);
                actions.push(Action::Deliver(frame));
            }
        }
        assert(views(actions@) =~= before.audio_step(m, data@).actions);
        actions
    }

    fn on_command<P: Protocol>(&mut self, protocol: &P, command: ExternalCommand) -> (r: Vec<
        Action,
    >)
        ensures
            ({
                let step = old(self).command_step(protocol.model(), command);
                &&& *final(self) == step.session
                &&& views(r@) == step.actions
            }),
    {
        let mut actions: Vec<Action> = Vec::new();
        assert(views(actions@) =~= seq![]);
        match command {
            ExternalCommand::MicOpen => {
                if self.state == State::Ready {
                    self.open_mic(protocol, &mut actions);
                }
            },
            ExternalCommand::MicClose => {
                if self.mic_is_open() {
                    self.close_mic(protocol, &mut actions);
                }
            },
            ExternalCommand::MicToggle => {
                if self.mic_is_open() {
                    self.close_mic(protocol, &mut actions);
                } else if self.state == State::Ready {
                    self.open_mic(protocol, &mut actions);
                }
            },
        }
        assert(views(actions@) =~= old(self).command_step(protocol.model(), command).actions);
        actions
    }

    fn on_consumers<P: Protocol>(&mut self, protocol: &P, total: u32) -> (r: Vec<Action>)
        ensures
            ({
                let step = old(self).consumer_step(protocol.model(), total);
                &&& *final(self) == step.session
                &&& views(r@) == step.actions
            }),
    {
        let mut actions: Vec<Action> = Vec::new();
        assert(views(actions@) =~= seq![]);
        let before: u32 = self.consumers;
        self.consumers = total;
        if self.mic_on_demand && total > before && self.state == State::Ready {
            self.open_mic(protocol, &mut actions);
        } else if self.mic_on_demand && total == 0 && before > 0 && self.mic_is_open() {
            self.close_mic(protocol, &mut actions);
        }
        assert(views(actions@) =~= old(self).consumer_step(protocol.model(), total).actions);
        actions
    }

    fn on_elapsed<P: Protocol>(&mut self, protocol: &P, timer: Timer) -> (r: Vec<Action>)
        ensures
            ({
                let step = old(self).elapsed_step(protocol.model(), timer);
                &&& *final(self) == step.session
                &&& views(r@) == step.actions
            }),
    {
        let mut actions: Vec<Action> = Vec::new();
        if self.counts(timer) {
            match timer {
                Timer::Keepalive => {
                    actions.push(Action::TrySend(protocol.keepalive_cmd(self.stream())));
                    actions.push(Action::Arm(Timer::Keepalive));
                },
                _ => {
                    actions.push(Action::TrySend(protocol.mic_close_cmd(self.stream())));
                    self.mark_closed();
                    actions.push(Action::Publish(State::Ready));
                },
            }
        }
        assert(views(actions@) =~= old(self).elapsed_step(protocol.model(), timer).actions);
        actions
    }

    /// React to an event.
    pub fn handle<P: Protocol>(&mut self, protocol: &mut P, event: SessionEvent) -> (r: Vec<Action>)
        requires
            old(protocol).model().wf(),
        ensures
            ({
                let step = old(self).step(old(protocol).model(), event@);
                &&& *final(self) == step.session
                &&& final(protocol).model() == step.protocol
                &&& views(r@) == step.actions
            }),
            final(protocol).model().wf(),
            old(self).wf() ==> final(self).wf(),
    {
        proof {
            lemma_step_keeps_wf(*self, protocol.model(), event@);
        }
        match event {
            SessionEvent::Control(data) => self.on_control(protocol, data.as_slice()),
            SessionEvent::Audio(data) => self.on_audio(protocol, data.as_slice()),
            SessionEvent::Command(command) => self.on_command(&*protocol, command),
            SessionEvent::Consumer(ConsumerEvent::Changed(total)) => self.on_consumers(
                &*protocol,
                total,
            ),
            SessionEvent::Elapsed(timer) => self.on_elapsed(&*protocol, timer),
            SessionEvent::Connection(DeviceConnectionEvent::Disconnected) => {
                let actions = vec![Action::Finish];
                assert(views(actions@) =~= seq![ActionView::Finish]);
                actions
            },
            SessionEvent::StreamsEnded => {
                let actions = vec![Action::Finish];
                assert(views(actions@) =~= seq![ActionView::Finish]);
                actions
            },
        }
    }
}

/// Every event keeps the session and the protocol valid: a stream is known exactly while
/// audio streams, and frames are counted only then.
pub proof fn lemma_step_keeps_wf(s: Session, m: ProtocolModel, event: SessionEventView)
    ensures
        s.wf() ==> s.step(m, event).session.wf(),
        m.wf() ==> s.step(m, event).protocol.wf(),
{
    if m.wf() {
        match event {
            SessionEventView::Control(data) => {
                match m.ctl(data) {
                    CtlEventView::AudioSync(sync) => {
                        lemma_protocol_stays_wf(m, arbitrary(), seq![], sync);
                    },
                    CtlEventView::CapsResp(caps) => {
                        lemma_protocol_stays_wf(m, caps, seq![], arbitrary());
                    },
                    _ => {},
                }
            },
            SessionEventView::Audio(data) => {
                lemma_protocol_stays_wf(m, arbitrary(), data, arbitrary());
            },
            _ => {},
        }
    }
}

/// What a string of events leads to, one after the other.
pub open spec fn run(s: Session, m: ProtocolModel, events: Seq<SessionEventView>) -> Step
    decreases events.len(),
{
    if events.len() == 0 {
        s.idle_step(m)
    } else {
        let before = run(s, m, events.drop_last());
        let step = before.session.step(before.protocol, events.last());
        Step { actions: before.actions + step.actions, ..step }
    }
}

/// The state that observers believe in once a list of actions is done: the last one
/// published.
pub open spec fn observed(before: State, actions: Seq<ActionView>) -> State
    decreases actions.len(),
{
    if actions.len() == 0 {
        before
    } else {
        match actions.last() {
            ActionView::Publish(state) => state,
            _ => observed(before, actions.drop_last()),
        }
    }
}

/// The action writes `data` to the remote.
pub open spec fn writes(action: ActionView, data: Seq<u8>) -> bool {
    action == ActionView::Send(data) || action == ActionView::TrySend(data)
}

/// Whatever happens, and in whatever order, the session and the protocol stay valid, and
/// a session that has started never goes back to `Init`.
pub proof fn lemma_session_stays_wf(s: Session, m: ProtocolModel, events: Seq<SessionEventView>)
    requires
        s.wf(),
        m.wf(),
    ensures
        run(s, m, events).session.wf(),
        run(s, m, events).protocol.wf(),
        s.state != State::Init ==> run(s, m, events).session.state != State::Init,
    decreases events.len(),
{
    if events.len() > 0 {
        lemma_session_stays_wf(s, m, events.drop_last());
        let before = run(s, m, events.drop_last());
        lemma_step_keeps_wf(before.session, before.protocol, events.last());
    }
}

/// No event touches the configuration or a timer: timers only move when `arm` is called.
pub proof fn lemma_step_keeps_configuration(s: Session, m: ProtocolModel, event: SessionEventView)
    ensures
        s.step(m, event).session.mic_mode == s.mic_mode,
        s.step(m, event).session.timeouts == s.timeouts,
        s.step(m, event).session.mic_on_demand == s.mic_on_demand,
        s.step(m, event).session.keepalive_at == s.keepalive_at,
        s.step(m, event).session.frame_at == s.frame_at,
        s.step(m, event).session.idle_at == s.idle_at,
        s.step(m, event).protocol.version() == m.version(),
{
}

/// Observers who knew the state before an event know it after: every change is published.
pub proof fn lemma_state_is_published(s: Session, m: ProtocolModel, event: SessionEventView)
    ensures
        observed(s.state, s.step(m, event).actions) == s.step(m, event).session.state,
{
    reveal_with_fuel(observed, 6);
}

proof fn lemma_observed_in_turn(before: State, a: Seq<ActionView>, b: Seq<ActionView>)
    ensures
        observed(before, a + b) == observed(observed(before, a), b),
    decreases b.len(),
{
    if b.len() == 0 {
        assert(a + b =~= a);
    } else {
        lemma_observed_in_turn(before, a, b.drop_last());
        assert((a + b).drop_last() =~= a + b.drop_last());
    }
}

/// Observers know the state after any string of events.
pub proof fn lemma_observers_know_the_state(
    s: Session,
    m: ProtocolModel,
    events: Seq<SessionEventView>,
)
    ensures
        observed(s.state, run(s, m, events).actions) == run(s, m, events).session.state,
    decreases events.len(),
{
    if events.len() > 0 {
        let before = run(s, m, events.drop_last());
        let step = before.session.step(before.protocol, events.last());
        lemma_observers_know_the_state(s, m, events.drop_last());
        lemma_state_is_published(before.session, before.protocol, events.last());
        lemma_observed_in_turn(s.state, before.actions, step.actions);
    }
}

/// A session that starts asks for capabilities first, and is then ready.
pub proof fn lemma_begin_asks_for_caps(s: Session, m: ProtocolModel)
    ensures
        s.begin_step(m).actions[0] == ActionView::Send(m.caps_bytes()),
        s.begin_step(m).session.state == State::Ready,
        s.begin_step(m).session.wf(),
        observed(s.state, s.begin_step(m).actions) == State::Ready,
{
    reveal_with_fuel(observed, 6);
}

/// Frames are passed on only while audio streams, and only those that the protocol
/// decodes from what arrived.
pub proof fn lemma_frames_pass_only_while_streaming(
    s: Session,
    m: ProtocolModel,
    event: SessionEventView,
    i: int,
    frame: AudioFrameView,
)
    requires
        0 <= i < s.step(m, event).actions.len(),
        s.step(m, event).actions[i] == ActionView::Deliver(frame),
    ensures
        s.state == State::Streaming,
        event matches SessionEventView::Audio(data) && m.audio(data) == Some(frame),
{
}

/// While audio streams, every frame that the protocol decodes is passed on, last of all.
pub proof fn lemma_every_frame_passes(
    s: Session,
    m: ProtocolModel,
    data: Seq<u8>,
    frame: AudioFrameView,
)
    requires
        s.state == State::Streaming,
        m.audio(data) == Some(frame),
    ensures
        s.step(m, SessionEventView::Audio(data)).actions.last() == ActionView::Deliver(frame),
        s.step(m, SessionEventView::Audio(data)).session.last_seq == Some(frame.seq),
{
}

/// The frames that a list of actions passes on, in order.
pub open spec fn delivered(actions: Seq<ActionView>) -> Seq<AudioFrameView>
    decreases actions.len(),
{
    if actions.len() == 0 {
        seq![]
    } else {
        match actions.last() {
            ActionView::Deliver(frame) => delivered(actions.drop_last()).push(frame),
            _ => delivered(actions.drop_last()),
        }
    }
}

/// What a protocol makes of a string of audio notifications: the frames that it decodes
/// from them, in order, and what becomes of it.
pub open spec fn decoded(m: ProtocolModel, packets: Seq<Seq<u8>>) -> (
    Seq<AudioFrameView>,
    ProtocolModel,
)
    decreases packets.len(),
{
    if packets.len() == 0 {
        (seq![], m)
    } else {
        let (frames, n) = decoded(m, packets.drop_last());
        match n.audio(packets.last()) {
            Some(frame) => (frames.push(frame), n.after_audio(packets.last())),
            None => (frames, n.after_audio(packets.last())),
        }
    }
}

/// Audio notifications, as events.
pub open spec fn audio_events(packets: Seq<Seq<u8>>) -> Seq<SessionEventView> {
    packets.map_values(|data: Seq<u8>| SessionEventView::Audio(data))
}

proof fn lemma_delivered_in_turn(a: Seq<ActionView>, b: Seq<ActionView>)
    ensures
        delivered(a + b) == delivered(a) + delivered(b),
    decreases b.len(),
{
    if b.len() == 0 {
        assert(a + b =~= a);
        assert(delivered(a) + delivered(b) =~= delivered(a));
    } else {
        lemma_delivered_in_turn(a, b.drop_last());
        assert((a + b).drop_last() =~= a + b.drop_last());
        assert(delivered(a + b) =~= delivered(a) + delivered(b));
    }
}

/// While audio streams, a string of audio notifications ends no stream, and the frames
/// passed on are those that the protocol decodes from them: all of them, in order.
pub proof fn lemma_audio_passes_through(s: Session, m: ProtocolModel, packets: Seq<Seq<u8>>)
    requires
        s.state == State::Streaming,
    ensures
        run(s, m, audio_events(packets)).session.state == State::Streaming,
        run(s, m, audio_events(packets)).session.stream_id == s.stream_id,
        run(s, m, audio_events(packets)).protocol == decoded(m, packets).1,
        delivered(run(s, m, audio_events(packets)).actions) == decoded(m, packets).0,
    decreases packets.len(),
{
    if packets.len() > 0 {
        let events = audio_events(packets);
        assert(events.drop_last() =~= audio_events(packets.drop_last()));
        lemma_audio_passes_through(s, m, packets.drop_last());
        let before = run(s, m, events.drop_last());
        let step = before.session.step(before.protocol, events.last());
        lemma_delivered_in_turn(before.actions, step.actions);
        reveal_with_fuel(delivered, 5);
        match before.protocol.audio(packets.last()) {
            Some(frame) => {
                assert(delivered(step.actions) =~= seq![frame]);
                assert(delivered(before.actions) + seq![frame] =~= decoded(m, packets).0);
            },
            None => {
                assert(delivered(before.actions) + delivered(step.actions) =~= delivered(
                    before.actions,
                ));
            },
        }
    }
}

/// A frame that follows the one before it is not reported, and one that does not is
/// reported with the number of frames between them. The first frame of a stream is never
/// reported.
pub proof fn lemma_gaps_are_reported(s: Session, seq: u16)
    ensures
        s.last_seq is None ==> s.gap_report(seq) == Seq::<ActionView>::empty(),
        s.last_seq matches Some(last) ==> {
            let report = s.gap_report(seq);
            if seq == next_seq(last) {
                report == Seq::<ActionView>::empty()
            } else {
                &&& report.len() == 1
                &&& report[0] matches ActionView::ReportGap { expected, got, dropped } && {
                    &&& expected == next_seq(last)
                    &&& got == seq
                    &&& dropped > 0
                    &&& (expected + dropped) % 0x1_0000 == got
                }
            }
        },
{
}

/// The remote counts anew on every AUDIO_START: the next frame is reported by no gap.
pub proof fn lemma_start_counts_anew(s: Session, m: ProtocolModel, id: StreamId, seq: u16)
    ensures
        s.start_step(m, id).session.gap_report(seq) == Seq::<ActionView>::empty(),
        s.start_step(m, id).session.target() == id,
{
}

/// In toggle mode the second press of the mic button undoes the first: the remote is told
/// to open and then to close its microphone, and the session is as it was.
pub proof fn lemma_toggle_twice(s: Session, m: ProtocolModel)
    requires
        s.wf(),
        s.state == State::Ready,
        s.mic_mode == MicMode::Toggle,
    ensures
        s.search_step(m).session.state == State::Opening,
        s.search_step(m).actions.contains(ActionView::Send(m.open_bytes())),
        s.search_step(m).session.search_step(m).session == s,
        s.search_step(m).session.search_step(m).actions.contains(
            ActionView::Send(m.close_bytes(StreamId(0x00))),
        ),
{
    let first = s.search_step(m);
    let second = first.session.search_step(m);
    let at: int = if s.is_enabled(Timer::Idle) {
        1
    } else {
        0
    };
    assert(first.actions[at] == ActionView::Send(m.open_bytes()));
    assert(second.actions[at] == ActionView::Send(m.close_bytes(StreamId(0x00))));
}

/// In toggle mode a press of the mic button closes the microphone where it is open, and
/// opens it where it is not.
pub proof fn lemma_toggle_press(s: Session, m: ProtocolModel)
    requires
        s.mic_mode == MicMode::Toggle,
    ensures
        s.state.is_open() ==> s.search_step(m).session == s.closed_mic()
            && s.search_step(m).actions.contains(ActionView::Send(m.close_bytes(s.target())))
            && !s.search_step(m).actions.contains(ActionView::Send(m.open_bytes())),
        !s.state.is_open() ==> s.search_step(m).session == s.opening_mic()
            && s.search_step(m).actions.contains(ActionView::Send(m.open_bytes()))
            && !s.search_step(m).actions.contains(ActionView::Send(m.close_bytes(s.target()))),
{
    let actions = s.search_step(m).actions;
    let at: int = if s.is_enabled(Timer::Idle) {
        1
    } else {
        0
    };
    // The two commands differ in their first byte.
    assert(m.open_bytes()[0] != m.close_bytes(s.target())[0]);
    if s.state.is_open() {
        assert(actions[at] == ActionView::Send(m.close_bytes(s.target())));
    } else {
        assert(actions[at] == ActionView::Send(m.open_bytes()));
    }
}

/// In hold mode every press of the mic button asks for a new stream; one that is open is
/// closed before.
pub proof fn lemma_hold_reopens(s: Session, m: ProtocolModel)
    requires
        s.mic_mode == MicMode::Hold,
    ensures
        s.search_step(m).session.state == State::Opening,
        s.search_step(m).actions.contains(ActionView::Send(m.open_bytes())),
        s.state.is_open() ==> s.search_step(m).actions.contains(
            ActionView::Send(m.close_bytes(s.target())),
        ),
{
    let actions = s.search_step(m).actions;
    let at: int = if s.is_enabled(Timer::Idle) {
        1
    } else {
        0
    };
    if s.state.is_open() {
        assert(actions[at] == ActionView::Send(m.close_bytes(s.target())));
        assert(actions[at + 1] == ActionView::Send(m.open_bytes()));
    } else {
        assert(actions[at] == ActionView::Send(m.open_bytes()));
    }
}

/// The microphone is on its way to open only once the remote was told so.
pub proof fn lemma_opening_is_sent(s: Session, m: ProtocolModel, event: SessionEventView)
    requires
        s.step(m, event).session.state == State::Opening,
        s.state != State::Opening,
    ensures
        s.step(m, event).actions.contains(ActionView::Send(m.open_bytes())),
{
    let actions = s.step(m, event).actions;
    assert(actions.len() >= 2);
    assert(actions[0] == ActionView::Send(m.open_bytes()) || actions[1] == ActionView::Send(
        m.open_bytes(),
    ) || actions[2] == ActionView::Send(m.open_bytes()));
}

/// When a stream ends, the remote is told to close its microphone. Only where the user's
/// release of the button ended it the remote knows already.
pub proof fn lemma_end_of_stream_is_sent(s: Session, m: ProtocolModel, event: SessionEventView)
    requires
        s.state == State::Streaming,
        s.step(m, event).session.state != State::Streaming,
    ensures
        ({
            ||| exists|i: int|
                0 <= i < s.step(m, event).actions.len() && writes(
                    #[trigger] s.step(m, event).actions[i],
                    m.close_bytes(s.target()),
                )
            ||| event matches SessionEventView::Control(data) && m.ctl(data) == CtlEventView::AudioStop {
                reason: AudioStopReason::HttButtonRelease,
            }
        }),
{
    let actions = s.step(m, event).actions;
    let close = m.close_bytes(s.target());
    assert(actions.len() >= 1);
    if actions.len() >= 2 {
        assert(writes(actions[0], close) || writes(actions[1], close));
    }
}

/// MicToggle is MicClose while the microphone is open and MicOpen while it is not.
pub proof fn lemma_toggle_is_open_or_close(s: Session, m: ProtocolModel)
    ensures
        s.command_step(m, ExternalCommand::MicToggle) == (if s.state.is_open() {
            s.command_step(m, ExternalCommand::MicClose)
        } else {
            s.command_step(m, ExternalCommand::MicOpen)
        }),
{
}

/// A command given twice does no more than once: the second one has no effect. (MicToggle
/// is the exception.)
pub proof fn lemma_commands_are_idempotent(s: Session, m: ProtocolModel, command: ExternalCommand)
    requires
        command != ExternalCommand::MicToggle,
    ensures
        ({
            let once = s.command_step(m, command);
            once.session.command_step(once.protocol, command) == once.session.idle_step(
                once.protocol,
            )
        }),
{
}

/// From a session that is ready, MicOpen leads to `Opening` and MicClose back.
pub proof fn lemma_close_undoes_open(s: Session, m: ProtocolModel)
    requires
        s.wf(),
        s.state == State::Ready,
    ensures
        s.command_step(m, ExternalCommand::MicOpen).session.state == State::Opening,
        s.command_step(m, ExternalCommand::MicOpen).session.command_step(
            m,
            ExternalCommand::MicClose,
        ).session == s,
{
}

/// A timer that was started at `now` goes off when its timeout has passed and no earlier,
/// provided that it counts. Starting it leaves the other timers alone.
pub proof fn lemma_timer_waits(s: Session, timer: Timer, now: u128, later: u128)
    requires
        now + s.timeout(timer) <= u128::MAX,
    ensures
        s.with_timer(timer, now).is_due(timer, later) <==> s.is_armed(timer) && later >= now
            + s.timeout(timer),
        forall|other: Timer|
            other != timer ==> s.with_timer(timer, now).is_due(other, later) == s.is_due(
                other,
                later,
            ),
        s.with_timer(timer, now).state == s.state,
{
}

/// No timer goes off while the session is ready, whatever the time, and none that is late
/// does anything.
pub proof fn lemma_ready_session_has_no_timers(
    s: Session,
    m: ProtocolModel,
    timer: Timer,
    now: u128,
)
    requires
        s.state == State::Ready,
    ensures
        !s.is_due(timer, now),
        s.elapsed_step(m, timer) == s.idle_step(m),
{
}

/// Once the remote has fallen silent and the microphone was closed on that account, or for
/// want of a press of the button, the next press opens it: one press is enough.
pub proof fn lemma_press_after_timeout_opens(s: Session, m: ProtocolModel, timer: Timer)
    requires
        timer != Timer::Keepalive,
        s.is_armed(timer),
    ensures
        ({
            let closed = s.elapsed_step(m, timer);
            let pressed = closed.session.search_step(closed.protocol);
            &&& closed.session == s.closed_mic()
            &&& closed.actions[0] == ActionView::TrySend(m.close_bytes(s.target()))
            &&& pressed.session.state == State::Opening
            &&& pressed.actions.contains(ActionView::Send(m.open_bytes()))
        }),
{
    let pressed = s.closed_mic().search_step(m);
    let at: int = if s.is_enabled(Timer::Idle) {
        1
    } else {
        0
    };
    assert(pressed.actions[at] == ActionView::Send(m.open_bytes()));
}

/// While audio streams, the keepalive timer has the running stream kept open and starts
/// over. Nothing else changes.
pub proof fn lemma_keepalive_repeats(s: Session, m: ProtocolModel)
    requires
        s.state == State::Streaming,
        s.is_enabled(Timer::Keepalive),
    ensures
        s.elapsed_step(m, Timer::Keepalive).session == s,
        s.elapsed_step(m, Timer::Keepalive).protocol == m,
        s.elapsed_step(m, Timer::Keepalive).actions == seq![
            ActionView::TrySend(m.keepalive_bytes(s.target())),
            ActionView::Arm(Timer::Keepalive),
        ],
{
}

/// A remote that refuses to open its microphone leaves the session as it was before.
pub proof fn lemma_refused_open_undoes_open(
    s: Session,
    m: ProtocolModel,
    code: MicOpenErrorCode,
)
    requires
        s.wf(),
        s.state == State::Ready,
    ensures
        s.open_step(m).session.ctl_step(m, CtlEventView::MicOpenError(code)).session == s,
{
}

/// A timer whose timeout is 0 is never started by an event and never does anything.
pub proof fn lemma_disabled_timer_is_silent(
    s: Session,
    m: ProtocolModel,
    timer: Timer,
    event: SessionEventView,
    now: u128,
)
    requires
        s.timeout(timer) == 0,
    ensures
        !s.step(m, event).actions.contains(ActionView::Arm(timer)),
        !s.is_due(timer, now),
        s.elapsed_step(m, timer) == s.idle_step(m),
{
}

/// The idle timer is started again by the mic button and by nothing else.
pub proof fn lemma_button_resets_idle_timer(s: Session, m: ProtocolModel, event: SessionEventView)
    ensures
        s.step(m, event).actions.contains(ActionView::Arm(Timer::Idle)) <==> {
            &&& s.timeouts.idle_timeout != 0
            &&& event matches SessionEventView::Control(data) && m.ctl(data)
                == CtlEventView::StartSearch
        },
{
    if s.timeouts.idle_timeout != 0 && (event matches SessionEventView::Control(data) && m.ctl(data)
        == CtlEventView::StartSearch) {
        assert(s.step(m, event).actions[0] == ActionView::Arm(Timer::Idle));
    }
}

/// The frame timer is started again by every frame that is passed on, whenever the
/// microphone is asked to open and whenever it opens unasked, and by nothing else.
pub proof fn lemma_frames_reset_frame_timer(s: Session, m: ProtocolModel, event: SessionEventView)
    ensures
        s.step(m, event).actions.contains(ActionView::Arm(Timer::Frame)) <==> {
            &&& s.timeouts.frame_timeout != 0
            &&& {
                ||| event matches SessionEventView::Audio(data) && s.state == State::Streaming
                    && m.audio(data) is Some
                ||| s.step(m, event).actions.contains(ActionView::Publish(State::Opening))
                ||| !s.state.is_open() && s.step(m, event).session.state.is_open()
            }
        },
{
    let actions = s.step(m, event).actions;
    let arm = ActionView::Arm(Timer::Frame);
    let n = actions.len() as int;
    if s.timeouts.frame_timeout != 0 {
        if actions.contains(ActionView::Publish(State::Opening)) {
            assert(actions[n - 1] == arm);
        } else if event is Audio && actions.len() > 0 {
            assert(actions[0] == arm);
        } else if !s.state.is_open() && s.step(m, event).session.state.is_open() {
            assert(actions[n - 1] == arm);
        }
    }
    if actions.contains(arm) && !(event is Audio) {
        if s.step(m, event).session.state == State::Opening {
            assert(actions[n - 2] == ActionView::Publish(State::Opening));
        }
    }
}

/// However the microphone opens, the frame timer starts with it: it goes off no earlier
/// than a whole timeout later, whenever it was started before.
pub proof fn lemma_open_mic_has_its_time(
    s: Session,
    m: ProtocolModel,
    event: SessionEventView,
    now: u128,
    later: u128,
)
    requires
        s.timeouts.frame_timeout != 0,
        !s.state.is_open(),
        s.step(m, event).session.state.is_open(),
        now + s.timeouts.frame_timeout <= u128::MAX,
    ensures
        s.step(m, event).actions.contains(ActionView::Arm(Timer::Frame)),
        s.step(m, event).session.with_timer(Timer::Frame, now).is_due(Timer::Frame, later)
            <==> later >= now + s.timeouts.frame_timeout,
{
    lemma_frames_reset_frame_timer(s, m, event);
    lemma_step_keeps_configuration(s, m, event);
    lemma_timer_waits(s.step(m, event).session, Timer::Frame, now, later);
}

/// With the microphone on demand, the first listener opens it and the last one to leave
/// closes it again.
pub proof fn lemma_mic_on_demand(s: Session, m: ProtocolModel, total: u32)
    requires
        s.wf(),
        s.mic_on_demand,
        s.consumers == 0,
        total > 0,
        s.state == State::Ready,
    ensures
        s.consumer_step(m, total).session.state == State::Opening,
        s.consumer_step(m, total).session.consumer_step(m, 0).session == s,
        s.consumer_step(m, total).session.consumer_step(m, 0).actions
            == s.consumer_step(m, total).session.close_actions(m),
{
}

/// Unless the microphone is on demand, listeners are counted and nothing else happens.
pub proof fn lemma_listeners_are_only_counted(s: Session, m: ProtocolModel, total: u32)
    requires
        !s.mic_on_demand,
    ensures
        s.consumer_step(m, total) == (Session { consumers: total, ..s }).idle_step(m),
{
}

/// A session ends when the device is gone or nothing can arrive any more, and on no other
/// event.
pub proof fn lemma_session_ends_on_disconnect(s: Session, m: ProtocolModel, event: SessionEventView)
    ensures
        s.step(m, event).actions.contains(ActionView::Finish) <==> {
            ||| event is Connection
            ||| event is StreamsEnded
        },
{
    if event is Connection || event is StreamsEnded {
        assert(s.step(m, event).actions[0] == ActionView::Finish);
    }
}

/// What a press of the mic button does, action by action. The idle timer starts over. Where the
/// microphone is not open, the remote is told to open it and the frame timer starts. Where it
/// is, toggle mode has the remote close it, and hold mode has it close and open it again.
pub proof fn lemma_press_of_the_button(s: Session, m: ProtocolModel, data: Seq<u8>)
    requires
        m.ctl(data) == CtlEventView::StartSearch,
    ensures
        ({
            let step = s.step(m, SessionEventView::Control(data));
            let idle = if s.timeouts.idle_timeout > 0 {
                seq![ActionView::Arm(Timer::Idle)]
            } else {
                seq![]
            };
            let frame = if s.timeouts.frame_timeout > 0 {
                seq![ActionView::Arm(Timer::Frame)]
            } else {
                seq![]
            };
            let close = m.close_bytes(
                if s.stream_id is Some {
                    s.stream_id->Some_0
                } else {
                    StreamId(0)
                },
            );
            let open = m.open_bytes();
            &&& step.protocol == m
            &&& if s.state == State::Init || s.state == State::Ready {
                &&& step.session == (Session { state: State::Opening, ..s })
                &&& step.actions == idle + seq![
                    ActionView::Send(open),
                    ActionView::Publish(State::Opening),
                ] + frame
            } else if s.mic_mode == MicMode::Toggle {
                &&& step.session == (Session {
                    state: State::Ready,
                    last_seq: None,
                    stream_id: None,
                    ..s
                })
                &&& step.actions == idle + seq![
                    ActionView::Send(close),
                    ActionView::Publish(State::Ready),
                ]
            } else {
                &&& step.session == (Session {
                    state: State::Opening,
                    last_seq: None,
                    stream_id: None,
                    ..s
                })
                &&& step.actions == idle + seq![
                    ActionView::Send(close),
                    ActionView::Send(open),
                    ActionView::Publish(State::Opening),
                ] + frame
            }
        }),
{
    let step = s.step(m, SessionEventView::Control(data));
    let idle = if s.timeouts.idle_timeout > 0 {
        seq![ActionView::Arm(Timer::Idle)]
    } else {
        seq![]
    };
    let frame = if s.timeouts.frame_timeout > 0 {
        seq![ActionView::Arm(Timer::Frame)]
    } else {
        seq![]
    };
    let close = m.close_bytes(
        if s.stream_id is Some {
            s.stream_id->Some_0
        } else {
            StreamId(0)
        },
    );
    let open = m.open_bytes();
    if s.state == State::Init || s.state == State::Ready {
        assert(step.actions =~= idle + seq![
            ActionView::Send(open),
            ActionView::Publish(State::Opening),
        ] + frame);
    } else if s.mic_mode == MicMode::Toggle {
        assert(step.actions =~= idle + seq![
            ActionView::Send(close),
            ActionView::Publish(State::Ready),
        ]);
    } else {
        assert(step.actions =~= idle + seq![
            ActionView::Send(close),
            ActionView::Send(open),
            ActionView::Publish(State::Opening),
        ] + frame);
    }
}

/// What AUDIO_STOP does, action by action: the session is ready, and while audio streams the
/// remote is told to close its microphone, unless the user's release of the button is why it
/// stopped.
pub proof fn lemma_end_of_audio(
    s: Session,
    m: ProtocolModel,
    data: Seq<u8>,
    reason: AudioStopReason,
)
    requires
        m.ctl(data) == (CtlEventView::AudioStop { reason }),
    ensures
        ({
            let step = s.step(m, SessionEventView::Control(data));
            let close = m.close_bytes(
                if s.stream_id is Some {
                    s.stream_id->Some_0
                } else {
                    StreamId(0)
                },
            );
            &&& step.protocol == m
            &&& step.session == (Session {
                state: State::Ready,
                last_seq: None,
                stream_id: None,
                ..s
            })
            &&& s.state == State::Streaming && reason != AudioStopReason::HttButtonRelease
                ==> step.actions == seq![ActionView::Send(close), ActionView::Publish(State::Ready)]
            &&& s.state != State::Streaming || reason == AudioStopReason::HttButtonRelease
                ==> step.actions == seq![ActionView::Publish(State::Ready)]
        }),
{
    let step = s.step(m, SessionEventView::Control(data));
    let close = m.close_bytes(
        if s.stream_id is Some {
            s.stream_id->Some_0
        } else {
            StreamId(0)
        },
    );
    if s.state == State::Streaming && reason != AudioStopReason::HttButtonRelease {
        assert(step.actions =~= seq![ActionView::Send(close), ActionView::Publish(State::Ready)]);
    } else {
        assert(step.actions =~= seq![ActionView::Publish(State::Ready)]);
    }
}

/// What AUDIO_START does, action by action: audio streams, its stream is known, frames are
/// counted anew, the keepalive timer starts, and the frame timer too where the microphone was
/// not open.
pub proof fn lemma_begin_of_audio(
    s: Session,
    m: ProtocolModel,
    data: Seq<u8>,
    stream_id: StreamId,
)
    requires
        m.ctl(data) matches CtlEventView::AudioStart { stream_id: id, .. } && id == stream_id,
    ensures
        ({
            let step = s.step(m, SessionEventView::Control(data));
            let keepalive = if s.timeouts.keepalive > 0 {
                seq![ActionView::Arm(Timer::Keepalive)]
            } else {
                seq![]
            };
            let frame = if s.timeouts.frame_timeout > 0 && (s.state == State::Init || s.state
                == State::Ready) {
                seq![ActionView::Arm(Timer::Frame)]
            } else {
                seq![]
            };
            &&& step.protocol == m
            &&& step.session == (Session {
                state: State::Streaming,
                last_seq: None,
                stream_id: Some(stream_id),
                ..s
            })
            &&& step.actions == seq![ActionView::Publish(State::Streaming)] + keepalive + frame
        }),
{
    let step = s.step(m, SessionEventView::Control(data));
    let keepalive = if s.timeouts.keepalive > 0 {
        seq![ActionView::Arm(Timer::Keepalive)]
    } else {
        seq![]
    };
    let frame = if s.timeouts.frame_timeout > 0 && (s.state == State::Init || s.state
        == State::Ready) {
        seq![ActionView::Arm(Timer::Frame)]
    } else {
        seq![]
    };
    assert(step.actions =~= seq![ActionView::Publish(State::Streaming)] + keepalive + frame);
}

/// What the other notifications do. AUDIO_SYNC and CAPS_RESP reach the protocol and leave the
/// session alone; of CAPS_RESP it is reported which codec came of it. A refusal to open the
/// microphone makes a session that waits for it ready. What is not understood does nothing.
pub proof fn lemma_other_notifications(s: Session, m: ProtocolModel, data: Seq<u8>)
    ensures
        ({
            let step = s.step(m, SessionEventView::Control(data));
            match m.ctl(data) {
                CtlEventView::AudioSync(sync) => {
                    &&& step.session == s
                    &&& step.protocol == m.after_sync(sync)
                    &&& step.actions.len() == 0
                },
                CtlEventView::CapsResp(caps) => {
                    &&& step.session == s
                    &&& step.protocol == m.after_caps(caps)
                    &&& step.actions == seq![ActionView::ReportCodec(best_codec(caps.codecs))]
                },
                CtlEventView::MicOpenError(_) => {
                    &&& step.protocol == m
                    &&& s.state == State::Opening ==> {
                        &&& step.session == (Session { state: State::Ready, stream_id: None, ..s })
                        &&& step.actions == seq![ActionView::Publish(State::Ready)]
                    }
                    &&& s.state != State::Opening ==> step.session == s && step.actions.len() == 0
                },
                CtlEventView::Unknown(_) => {
                    &&& step.session == s
                    &&& step.protocol == m
                    &&& step.actions.len() == 0
                },
                _ => true,
            }
        }),
{
}

/// What a v0.4 remote announces is what the session goes by from then on, byte by byte: once a
/// CAPS_RESP with a known codec has come, a press of the button opens the microphone with the
/// best of its codecs, and notifications of the announced size, and no others, are audio.
pub proof fn lemma_v04_capabilities_count(
    s: Session,
    m: V04Model,
    caps: Seq<u8>,
    packet: Seq<u8>,
)
    requires
        caps.len() >= 9,
        caps[0] == 0x0B,
        caps[4] % 4 != 0,
        s.state == State::Ready,
    ensures
        ({
            let heard = s.step(ProtocolModel::V04(m), SessionEventView::Control(caps));
            let pressed = heard.session.step(
                heard.protocol,
                SessionEventView::Control(seq![0x08u8]),
            );
            &&& pressed.session.state == State::Opening
            &&& pressed.actions.contains(
                ActionView::Send(
                    seq![0x0Cu8, 0x00, if (caps[4] / 2) % 2 == 1 {
                        2u8
                    } else {
                        1u8
                    }],
                ),
            )
            &&& heard.protocol.audio(packet) is Some <==> packet.len() == 256 * caps[5] + caps[6]
                && packet.len() >= 6
            &&& heard.actions == seq![
                ActionView::ReportCodec(
                    Ok(
                        if (caps[4] / 2) % 2 == 1 {
                            Codec::Adpcm16kHz
                        } else {
                            Codec::Adpcm8kHz
                        },
                    ),
                ),
            ]
        }),
{
    let p = ProtocolModel::V04(m);
    lemma_v04_notifications(m, caps);
    let announced = p.ctl(caps)->CapsResp_0;
    lemma_other_notifications(s, p, caps);
    lemma_v04_goes_by_capabilities(m, announced, packet);
    lemma_best_codec_by_bits(announced.codecs);
    assert((caps[4] % 4 / 2) % 2 == (caps[4] / 2) % 2);
    let heard = s.step(p, SessionEventView::Control(caps));
    let after = match heard.protocol {
        ProtocolModel::V04(after) => after,
        _ => m,
    };
    lemma_v04_notifications(after, seq![0x08u8]);
    lemma_press_of_the_button(heard.session, heard.protocol, seq![0x08u8]);
    let pressed = heard.session.step(heard.protocol, SessionEventView::Control(seq![0x08u8]));
    let at: int = if s.timeouts.idle_timeout > 0 {
        1
    } else {
        0
    };
    assert(pressed.actions[at] == ActionView::Send(heard.protocol.open_bytes()));
}

/// What a v1.0 remote announces is what the session goes by from then on, byte by byte: once a
/// CAPS_RESP with a known codec has come and audio streams, a notification of the announced
/// size is passed on as a frame of the best codec with two samples a byte, and no other is.
pub proof fn lemma_v10_capabilities_count(
    s: Session,
    p: ProtocolV10,
    caps: Seq<u8>,
    packet: Seq<u8>,
)
    requires
        caps.len() >= 7,
        caps[0] == 0x0B,
        caps[3] % 4 != 0,
        s.state == State::Streaming,
    ensures
        ({
            let heard = s.step(ProtocolModel::V10(p), SessionEventView::Control(caps));
            let played = heard.session.step(heard.protocol, SessionEventView::Audio(packet));
            if packet.len() == 256 * caps[5] + caps[6] {
                played.actions.last() matches ActionView::Deliver(frame) && {
                    &&& frame.samples.len() == 2 * packet.len()
                    &&& frame.seq == p.frame_seq
                    &&& frame.codec == (if (caps[3] / 2) % 2 == 1 {
                        Codec::Adpcm16kHz
                    } else {
                        Codec::Adpcm8kHz
                    })
                }
            } else {
                played.actions.len() == 0
            }
        }),
{
    let m = ProtocolModel::V10(p);
    lemma_v10_notifications(p, caps);
    let announced = m.ctl(caps)->CapsResp_0;
    lemma_other_notifications(s, m, caps);
    lemma_v10_goes_by_capabilities(p, announced, packet);
    assert((caps[3] % 4 / 2) % 2 == (caps[3] / 2) % 2);
}

/// What an audio notification does, action by action. Unless audio streams it is dropped, and
/// the protocol does not see it. A frame starts the frame timer again, is reported as out of
/// turn where its number is not the one after the last, and is passed on.
pub proof fn lemma_audio_notification(s: Session, m: ProtocolModel, data: Seq<u8>)
    ensures
        ({
            let step = s.step(m, SessionEventView::Audio(data));
            if s.state != State::Streaming {
                &&& step.session == s
                &&& step.protocol == m
                &&& step.actions.len() == 0
            } else {
                &&& step.protocol == m.after_audio(data)
                &&& match m.audio(data) {
                    None => step.session == s && step.actions.len() == 0,
                    Some(frame) => {
                        let timer = if s.timeouts.frame_timeout > 0 {
                            seq![ActionView::Arm(Timer::Frame)]
                        } else {
                            seq![]
                        };
                        let gap = match s.last_seq {
                            None => seq![],
                            Some(last) => {
                                let expected = if last == 65535 {
                                    0
                                } else {
                                    last + 1
                                };
                                if frame.seq == expected {
                                    seq![]
                                } else {
                                    seq![
                                        ActionView::ReportGap {
                                            expected: expected as u16,
                                            got: frame.seq,
                                            dropped: (if frame.seq > expected {
                                                frame.seq - expected
                                            } else {
                                                frame.seq - expected + 65536
                                            }) as u16,
                                        },
                                    ]
                                }
                            },
                        };
                        &&& step.session == (Session { last_seq: Some(frame.seq), ..s })
                        &&& step.actions == timer + gap + seq![ActionView::Deliver(frame)]
                    },
                }
            }
        }),
{
    let step = s.step(m, SessionEventView::Audio(data));
    if s.state == State::Streaming {
        if let Some(frame) = m.audio(data) {
            let timer = if s.timeouts.frame_timeout > 0 {
                seq![ActionView::Arm(Timer::Frame)]
            } else {
                seq![]
            };
            let gap = match s.last_seq {
                None => seq![],
                Some(last) => {
                    let expected = if last == 65535 {
                        0
                    } else {
                        last + 1
                    };
                    if frame.seq == expected {
                        seq![]
                    } else {
                        seq![
                            ActionView::ReportGap {
                                expected: expected as u16,
                                got: frame.seq,
                                dropped: (if frame.seq > expected {
                                    frame.seq - expected
                                } else {
                                    frame.seq - expected + 65536
                                }) as u16,
                            },
                        ]
                    }
                },
            };
            assert(step.actions =~= timer + gap + seq![ActionView::Deliver(frame)]);
        }
    }
}

/// What commands from outside do, action by action: MicOpen opens a microphone of a session
/// that is ready, MicClose closes one that is open or opening, MicToggle does one or the other,
/// and nothing else happens.
pub proof fn lemma_commands(s: Session, m: ProtocolModel, command: ExternalCommand)
    ensures
        ({
            let step = s.step(m, SessionEventView::Command(command));
            let frame = if s.timeouts.frame_timeout > 0 {
                seq![ActionView::Arm(Timer::Frame)]
            } else {
                seq![]
            };
            let close = m.close_bytes(
                if s.stream_id is Some {
                    s.stream_id->Some_0
                } else {
                    StreamId(0)
                },
            );
            &&& step.protocol == m
            &&& if s.state == State::Ready && (command == ExternalCommand::MicOpen || command
                == ExternalCommand::MicToggle) {
                &&& step.session == (Session { state: State::Opening, ..s })
                &&& step.actions == seq![
                    ActionView::Send(m.open_bytes()),
                    ActionView::Publish(State::Opening),
                ] + frame
            } else if (s.state == State::Opening || s.state == State::Streaming) && (command
                == ExternalCommand::MicClose || command == ExternalCommand::MicToggle) {
                &&& step.session == (Session {
                    state: State::Ready,
                    last_seq: None,
                    stream_id: None,
                    ..s
                })
                &&& step.actions == seq![
                    ActionView::Send(close),
                    ActionView::Publish(State::Ready),
                ]
            } else {
                &&& step.session == s
                &&& step.actions.len() == 0
            }
        }),
{
    let step = s.step(m, SessionEventView::Command(command));
    let frame = if s.timeouts.frame_timeout > 0 {
        seq![ActionView::Arm(Timer::Frame)]
    } else {
        seq![]
    };
    if step.session.state == State::Opening && s.state == State::Ready {
        assert(step.actions =~= seq![
            ActionView::Send(m.open_bytes()),
            ActionView::Publish(State::Opening),
        ] + frame);
    }
}

/// What a change in the number of listeners does, action by action. It is noted. With the
/// microphone on demand, more of them open it where the session is ready, and the last one that
/// leaves closes it where it is open or opening.
pub proof fn lemma_listeners(s: Session, m: ProtocolModel, total: u32)
    ensures
        ({
            let step = s.step(m, SessionEventView::Consumer(ConsumerEvent::Changed(total)));
            let frame = if s.timeouts.frame_timeout > 0 {
                seq![ActionView::Arm(Timer::Frame)]
            } else {
                seq![]
            };
            let close = m.close_bytes(
                if s.stream_id is Some {
                    s.stream_id->Some_0
                } else {
                    StreamId(0)
                },
            );
            &&& step.protocol == m
            &&& if s.mic_on_demand && total > s.consumers && s.state == State::Ready {
                &&& step.session == (Session { state: State::Opening, consumers: total, ..s })
                &&& step.actions == seq![
                    ActionView::Send(m.open_bytes()),
                    ActionView::Publish(State::Opening),
                ] + frame
            } else if s.mic_on_demand && total == 0 && s.consumers > 0 && (s.state == State::Opening
                || s.state == State::Streaming) {
                &&& step.session == (Session {
                    state: State::Ready,
                    last_seq: None,
                    stream_id: None,
                    consumers: 0,
                    ..s
                })
                &&& step.actions == seq![
                    ActionView::Send(close),
                    ActionView::Publish(State::Ready),
                ]
            } else {
                &&& step.session == (Session { consumers: total, ..s })
                &&& step.actions.len() == 0
            }
        }),
{
    let step = s.step(m, SessionEventView::Consumer(ConsumerEvent::Changed(total)));
    let frame = if s.timeouts.frame_timeout > 0 {
        seq![ActionView::Arm(Timer::Frame)]
    } else {
        seq![]
    };
    if step.session.state == State::Opening && s.state == State::Ready {
        assert(step.actions =~= seq![
            ActionView::Send(m.open_bytes()),
            ActionView::Publish(State::Opening),
        ] + frame);
    }
}

/// When a timer counts, and when it goes off, in numbers. Keepalive counts while audio streams,
/// the other two while the microphone is open or opening, and none whose timeout is 0.
pub proof fn lemma_timers_in_numbers(s: Session, now: u128)
    ensures
        s.is_armed(Timer::Keepalive) <==> s.timeouts.keepalive > 0 && s.state == State::Streaming,
        s.is_armed(Timer::Frame) <==> s.timeouts.frame_timeout > 0 && (s.state == State::Opening
            || s.state == State::Streaming),
        s.is_armed(Timer::Idle) <==> s.timeouts.idle_timeout > 0 && (s.state == State::Opening
            || s.state == State::Streaming),
        s.is_due(Timer::Keepalive, now) <==> s.is_armed(Timer::Keepalive) && now
            >= s.keepalive_at,
        s.is_due(Timer::Frame, now) <==> s.is_armed(Timer::Frame) && now >= s.frame_at,
        s.is_due(Timer::Idle, now) <==> s.is_armed(Timer::Idle) && now >= s.idle_at,
        s.deadline(Timer::Keepalive) == s.keepalive_at,
        s.deadline(Timer::Frame) == s.frame_at,
        s.deadline(Timer::Idle) == s.idle_at,
{
}

/// What starting a timer does, in numbers: its time is a timeout from now, or the end of all
/// time where that lies beyond. Nothing else changes.
pub proof fn lemma_starting_a_timer(s: Session, now: u128)
    ensures
        s.with_timer(Timer::Keepalive, now) == (Session {
            keepalive_at: s.with_timer(Timer::Keepalive, now).keepalive_at,
            ..s
        }),
        s.with_timer(Timer::Frame, now) == (Session {
            frame_at: s.with_timer(Timer::Frame, now).frame_at,
            ..s
        }),
        s.with_timer(Timer::Idle, now) == (Session {
            idle_at: s.with_timer(Timer::Idle, now).idle_at,
            ..s
        }),
        now + s.timeouts.keepalive <= u128::MAX ==> s.with_timer(Timer::Keepalive, now).keepalive_at
            == now + s.timeouts.keepalive,
        now + s.timeouts.keepalive > u128::MAX ==> s.with_timer(Timer::Keepalive, now).keepalive_at
            == u128::MAX,
        now + s.timeouts.frame_timeout <= u128::MAX ==> s.with_timer(Timer::Frame, now).frame_at
            == now + s.timeouts.frame_timeout,
        now + s.timeouts.frame_timeout > u128::MAX ==> s.with_timer(Timer::Frame, now).frame_at
            == u128::MAX,
        now + s.timeouts.idle_timeout <= u128::MAX ==> s.with_timer(Timer::Idle, now).idle_at == now
            + s.timeouts.idle_timeout,
        now + s.timeouts.idle_timeout > u128::MAX ==> s.with_timer(Timer::Idle, now).idle_at
            == u128::MAX,
{
}

/// What a timer does when it goes off, action by action. Keepalive keeps the stream open and
/// starts over. The other two close the microphone. One that does not count does nothing.
pub proof fn lemma_timers_going_off(s: Session, m: ProtocolModel, timer: Timer)
    ensures
        ({
            let step = s.step(m, SessionEventView::Elapsed(timer));
            let open = s.state == State::Opening || s.state == State::Streaming;
            let target = if s.stream_id is Some {
                s.stream_id->Some_0
            } else {
                StreamId(0)
            };
            &&& step.protocol == m
            &&& if timer == Timer::Keepalive && s.timeouts.keepalive > 0 && s.state
                == State::Streaming {
                &&& step.session == s
                &&& step.actions == seq![
                    ActionView::TrySend(m.keepalive_bytes(target)),
                    ActionView::Arm(Timer::Keepalive),
                ]
            } else if open && ((timer == Timer::Frame && s.timeouts.frame_timeout > 0) || (timer
                == Timer::Idle && s.timeouts.idle_timeout > 0)) {
                &&& step.session == (Session {
                    state: State::Ready,
                    last_seq: None,
                    stream_id: None,
                    ..s
                })
                &&& step.actions == seq![
                    ActionView::TrySend(m.close_bytes(target)),
                    ActionView::Publish(State::Ready),
                ]
            } else {
                &&& step.session == s
                &&& step.actions.len() == 0
            }
        }),
{
}

/// What the end of the connection, and of the notifications, does: the session ends, and
/// nothing else happens.
pub proof fn lemma_end_of_the_session(s: Session, m: ProtocolModel)
    ensures
        ({
            let gone = s.step(m, SessionEventView::Connection(DeviceConnectionEvent::Disconnected));
            let ended = s.step(m, SessionEventView::StreamsEnded);
            &&& gone.session == s && ended.session == s
            &&& gone.protocol == m && ended.protocol == m
            &&& gone.actions == seq![ActionView::Finish]
            &&& ended.actions == seq![ActionView::Finish]
        }),
{
}

/// What the start of a session does, action by action: the remote is asked for its
/// capabilities, the session is ready, and all timers start.
pub proof fn lemma_start_of_the_session(s: Session, m: ProtocolModel)
    ensures
        s.begin_step(m).protocol == m,
        s.begin_step(m).session == (Session {
            state: State::Ready,
            last_seq: None,
            stream_id: None,
            ..s
        }),
        s.begin_step(m).actions == seq![
            ActionView::Send(m.caps_bytes()),
            ActionView::Publish(State::Ready),
            ActionView::Arm(Timer::Keepalive),
            ActionView::Arm(Timer::Frame),
            ActionView::Arm(Timer::Idle),
        ],
{
}

/// A session is valid where its stream is known exactly while audio streams, and no frame is
/// counted otherwise.
pub proof fn lemma_valid_sessions(s: Session)
    ensures
        s.wf() <==> {
            &&& s.state == State::Streaming ==> s.stream_id is Some
            &&& s.state != State::Streaming ==> s.stream_id is None && s.last_seq is None
        },
{
}

/// Events and actions say what they hold, in the order in which they stand.
pub proof fn lemma_views_hold(data: Vec<u8>, actions: Seq<Action>, i: int)
    requires
        0 <= i < actions.len(),
    ensures
        SessionEvent::Control(data)@ == SessionEventView::Control(data@),
        SessionEvent::Audio(data)@ == SessionEventView::Audio(data@),
        Action::Send(data)@ == ActionView::Send(data@),
        Action::TrySend(data)@ == ActionView::TrySend(data@),
        views(actions).len() == actions.len(),
        views(actions)[i] == actions[i]@,
        actions[i] matches Action::Publish(state) ==> views(actions)[i] == ActionView::Publish(state),
        actions[i] matches Action::Arm(timer) ==> views(actions)[i] == ActionView::Arm(timer),
        actions[i] is Finish ==> views(actions)[i] is Finish,
        actions[i] matches Action::Deliver(frame) ==> views(actions)[i] == ActionView::Deliver(
            AudioFrameView { seq: frame.seq, codec: frame.codec, samples: frame.samples@ },
        ),
        actions[i] matches Action::ReportCodec(r) ==> views(actions)[i] == ActionView::ReportCodec(r),
        actions[i] matches Action::ReportGap { expected, got, dropped } ==> views(actions)[i] == (
        ActionView::ReportGap { expected, got, dropped }),
{
}

} // verus!
