use atvvoice::atvv::{
    Action, DeviceConnectionEvent, ExternalCommand, MicMode, Session, SessionEvent,
    SessionTimeouts, State, Timer,
};
use atvvoice::consumer::ConsumerEvent;
use atvvoice::protocol::types::{Codec, Codecs, NoCommonCodec, ProtocolVersion, StreamId};
use atvvoice::protocol::v04::ProtocolV04;
use atvvoice::protocol::v10::ProtocolV10;
use atvvoice::protocol::{create_protocol, Protocol};

const MS: u128 = 1_000_000;

/// v0.4 expected command bytes (for test assertions)
const V04_GET_CAPS: &[u8] = &[0x0A, 0x00, 0x04, 0x00, 0x03];
const V04_MIC_OPEN: &[u8] = &[0x0C, 0x00, 0x01];
const V04_MIC_CLOSE: &[u8] = &[0x0D];

/// CTL opcodes for test injection
const CTL_AUDIO_STOP: u8 = 0x00;
const CTL_AUDIO_START: u8 = 0x04;
const CTL_START_SEARCH: u8 = 0x08;

/// A session with a clock of its own and a remote that notes what it is told.
struct Rig<P: Protocol> {
    session: Session,
    protocol: P,
    now: u128,
    commands: Vec<Vec<u8>>,
    state: State,
    frames: Vec<u16>,
    gaps: Vec<(u16, u16, u16)>,
    codecs: Vec<Result<Codec, NoCommonCodec>>,
    finished: bool,
}

impl<P: Protocol> Rig<P> {
    fn start(
        protocol: P,
        mic_mode: MicMode,
        timeouts: SessionTimeouts,
        mic_on_demand: bool,
    ) -> Rig<P> {
        let mut rig = Rig {
            session: Session::new(mic_mode, timeouts, mic_on_demand),
            protocol,
            now: 1_000 * MS,
            commands: Vec::new(),
            state: State::Init,
            frames: Vec::new(),
            gaps: Vec::new(),
            codecs: Vec::new(),
            finished: false,
        };
        let actions = rig.session.begin(&rig.protocol);
        rig.perform(actions);
        rig
    }

    fn perform(&mut self, actions: Vec<Action>) {
        for action in actions {
            match action {
                Action::Send(data) => self.commands.push(data),
                Action::TrySend(data) => self.commands.push(data),
                Action::Publish(state) => self.state = state,
                Action::Arm(timer) => self.session.arm(timer, self.now),
                Action::Deliver(frame) => self.frames.push(frame.seq),
                Action::ReportGap {
                    expected,
                    got,
                    dropped,
                } => self.gaps.push((expected, got, dropped)),
                Action::ReportCodec(result) => self.codecs.push(result),
                Action::Finish => self.finished = true,
            }
        }
        assert_eq!(self.state, self.session.state);
    }

    fn event(&mut self, event: SessionEvent) {
        let actions = self.session.handle(&mut self.protocol, event);
        self.perform(actions);
    }

    fn ctl(&mut self, data: &[u8]) {
        self.event(SessionEvent::Control(data.to_vec()));
    }

    fn audio(&mut self, data: Vec<u8>) {
        self.event(SessionEvent::Audio(data));
    }

    fn command(&mut self, command: ExternalCommand) {
        self.event(SessionEvent::Command(command));
    }

    fn listeners(&mut self, total: u32) {
        self.event(SessionEvent::Consumer(ConsumerEvent::Changed(total)));
    }

    fn advance(&mut self, ms: u64) {
        for _ in 0..ms {
            self.now += MS;
            for timer in [Timer::Keepalive, Timer::Frame, Timer::Idle] {
                if self.session.due(timer, self.now) {
                    self.event(SessionEvent::Elapsed(timer));
                }
            }
        }
    }

    fn drain(&mut self) -> Vec<Vec<u8>> {
        std::mem::take(&mut self.commands)
    }

    fn disconnect(&mut self) {
        self.event(SessionEvent::Connection(DeviceConnectionEvent::Disconnected));
        assert!(self.finished);
    }
}

fn timeouts_ms(frame: u128, idle: u128, keepalive: u128) -> SessionTimeouts {
    SessionTimeouts {
        frame_timeout: frame * MS,
        idle_timeout: idle * MS,
        keepalive: keepalive * MS,
    }
}

fn v04(mic_mode: MicMode, timeouts: SessionTimeouts) -> Rig<ProtocolV04> {
    Rig::start(ProtocolV04::new(), mic_mode, timeouts, false)
}

fn v10(timeouts: SessionTimeouts) -> Rig<ProtocolV10> {
    Rig::start(ProtocolV10::new(), MicMode::Toggle, timeouts, false)
}

/// A fake 134-byte audio frame with a given sequence ID.
/// Uses v0.4 format: 6-byte header + 128 ADPCM bytes.
fn make_audio_frame(seq: u16) -> Vec<u8> {
    let mut frame = vec![0u8; 134];
    let seq_bytes = seq.to_be_bytes();
    frame[0] = seq_bytes[0];
    frame[1] = seq_bytes[1];
    frame
}

#[test]
fn test_frame_timeout_reset_regression() {
    let mut rig = v04(MicMode::Toggle, timeouts_ms(100, 0, 0));

    rig.advance(1);
    let cmds = rig.drain();
    assert_eq!(cmds.len(), 1);
    assert_eq!(cmds[0], V04_GET_CAPS);
    assert_eq!(rig.state, State::Ready);

    // START_SEARCH -> Opening
    rig.ctl(&[CTL_START_SEARCH]);
    rig.advance(1);
    assert_eq!(rig.state, State::Opening);
    rig.drain(); // MIC_OPEN

    // AUDIO_START -> Streaming
    rig.ctl(&[CTL_AUDIO_START]);
    rig.advance(1);
    assert_eq!(rig.state, State::Streaming);

    // Send audio frames for 200ms (resets timer each time)
    for i in 0..6 {
        rig.audio(make_audio_frame(i));
        rig.advance(33);
    }
    // State should still be Streaming
    assert_eq!(rig.state, State::Streaming);

    // START_SEARCH -> toggle off -> Ready
    rig.ctl(&[CTL_START_SEARCH]);
    rig.advance(1);
    assert_eq!(rig.state, State::Ready);
    rig.drain(); // MIC_CLOSE

    // Wait 200ms - the timer does not count in Ready
    rig.advance(200);
    assert_eq!(rig.state, State::Ready);

    // START_SEARCH -> Opening again
    rig.ctl(&[CTL_START_SEARCH]);
    rig.advance(1);
    assert_eq!(rig.state, State::Opening);
    rig.drain(); // MIC_OPEN

    // Frame timeout does NOT fire immediately (wait 50ms, should still be Opening)
    rig.advance(50);
    assert_eq!(rig.state, State::Opening);

    // Frame timeout DOES fire after the full 100ms from the new Opening
    rig.advance(60);
    assert_eq!(rig.state, State::Ready);

    rig.disconnect();
}

#[test]
fn test_toggle_mode_state_transitions() {
    let mut rig = v04(MicMode::Toggle, timeouts_ms(0, 0, 0));

    rig.advance(1);
    rig.drain(); // GET_CAPS
    assert_eq!(rig.state, State::Ready);

    // START_SEARCH from Ready -> Opening, MIC_OPEN sent
    rig.ctl(&[CTL_START_SEARCH]);
    rig.advance(1);
    assert_eq!(rig.state, State::Opening);
    assert_eq!(rig.drain(), vec![V04_MIC_OPEN.to_vec()]);

    // AUDIO_START -> Streaming
    rig.ctl(&[CTL_AUDIO_START]);
    rig.advance(1);
    assert_eq!(rig.state, State::Streaming);

    // START_SEARCH from Streaming -> Ready (toggle off), MIC_CLOSE sent (NOT MIC_OPEN)
    rig.ctl(&[CTL_START_SEARCH]);
    rig.advance(1);
    assert_eq!(rig.state, State::Ready);
    assert_eq!(rig.drain(), vec![V04_MIC_CLOSE.to_vec()]);

    // START_SEARCH from Ready -> Opening, MIC_OPEN sent again
    rig.ctl(&[CTL_START_SEARCH]);
    rig.advance(1);
    assert_eq!(rig.state, State::Opening);
    assert_eq!(rig.drain(), vec![V04_MIC_OPEN.to_vec()]);

    rig.disconnect();
}

#[test]
fn test_hold_mode_state_transitions() {
    let mut rig = v04(MicMode::Hold, timeouts_ms(0, 0, 0));

    rig.advance(1);
    rig.drain(); // GET_CAPS
    assert_eq!(rig.state, State::Ready);

    // START_SEARCH from Ready -> Opening, MIC_OPEN sent
    rig.ctl(&[CTL_START_SEARCH]);
    rig.advance(1);
    assert_eq!(rig.state, State::Opening);
    assert_eq!(rig.drain(), vec![V04_MIC_OPEN.to_vec()]);

    // AUDIO_START -> Streaming
    rig.ctl(&[CTL_AUDIO_START]);
    rig.advance(1);
    assert_eq!(rig.state, State::Streaming);

    // START_SEARCH from Streaming in hold mode -> MIC_CLOSE then MIC_OPEN, state=Opening
    rig.ctl(&[CTL_START_SEARCH]);
    rig.advance(1);
    assert_eq!(rig.state, State::Opening);
    assert_eq!(
        rig.drain(),
        vec![V04_MIC_CLOSE.to_vec(), V04_MIC_OPEN.to_vec()]
    );

    rig.disconnect();
}

#[test]
fn test_disconnect_detection() {
    let mut rig = v04(MicMode::Toggle, timeouts_ms(0, 0, 0));
    rig.advance(1);
    assert!(!rig.finished);
    rig.disconnect();
}

#[test]
fn test_external_commands() {
    let mut rig = v04(MicMode::Toggle, timeouts_ms(0, 0, 0));

    rig.advance(1);
    rig.drain(); // GET_CAPS
    assert_eq!(rig.state, State::Ready);

    // MicOpen from Ready -> Opening
    rig.command(ExternalCommand::MicOpen);
    rig.advance(1);
    assert_eq!(rig.state, State::Opening);
    assert_eq!(rig.drain(), vec![V04_MIC_OPEN.to_vec()]);

    // Transition to Streaming for close test
    rig.ctl(&[CTL_AUDIO_START]);
    rig.advance(1);
    assert_eq!(rig.state, State::Streaming);

    // MicClose from Streaming -> Ready
    rig.command(ExternalCommand::MicClose);
    rig.advance(1);
    assert_eq!(rig.state, State::Ready);
    assert_eq!(rig.drain(), vec![V04_MIC_CLOSE.to_vec()]);

    // MicToggle from Ready -> Opening
    rig.command(ExternalCommand::MicToggle);
    rig.advance(1);
    assert_eq!(rig.state, State::Opening);
    assert_eq!(rig.drain(), vec![V04_MIC_OPEN.to_vec()]);

    // Transition to Streaming
    rig.ctl(&[CTL_AUDIO_START]);
    rig.advance(1);
    assert_eq!(rig.state, State::Streaming);

    // MicToggle from Streaming -> Ready
    rig.command(ExternalCommand::MicToggle);
    rig.advance(1);
    assert_eq!(rig.state, State::Ready);
    assert_eq!(rig.drain(), vec![V04_MIC_CLOSE.to_vec()]);

    rig.disconnect();
}

#[test]
fn test_idle_timeout_reset() {
    let mut rig = v04(MicMode::Toggle, timeouts_ms(0, 100, 0));

    rig.advance(1);
    rig.drain(); // GET_CAPS
    assert_eq!(rig.state, State::Ready);

    // START_SEARCH -> Opening (resets idle timer)
    rig.ctl(&[CTL_START_SEARCH]);
    rig.advance(1);
    assert_eq!(rig.state, State::Opening);
    rig.drain();

    // AUDIO_START -> Streaming
    rig.ctl(&[CTL_AUDIO_START]);
    rig.advance(1);
    assert_eq!(rig.state, State::Streaming);

    // Wait 50ms, then toggle off (resets idle timer)
    rig.advance(50);
    rig.ctl(&[CTL_START_SEARCH]);
    rig.advance(1);
    assert_eq!(rig.state, State::Ready);
    rig.drain();

    // Wait 50ms, then START_SEARCH again -> Opening (resets idle timer)
    rig.advance(50);
    rig.ctl(&[CTL_START_SEARCH]);
    rig.advance(1);
    assert_eq!(rig.state, State::Opening);
    rig.drain();

    // Idle timer hasn't fired (was reset each time). Still Opening after 50ms.
    rig.advance(50);
    assert_eq!(rig.state, State::Opening);

    // But it DOES fire at the full 100ms from the last reset
    rig.advance(60);
    assert_eq!(rig.state, State::Ready);

    rig.disconnect();
}

#[test]
fn state_names() {
    assert_eq!(State::Init.as_str(), "init");
    assert_eq!(State::Ready.as_str(), "ready");
    assert_eq!(State::Opening.as_str(), "opening");
    assert_eq!(State::Streaming.as_str(), "streaming");
}

#[test]
fn timeouts_from_seconds() {
    let timeouts = SessionTimeouts::from_secs(5, 0, 10);
    assert_eq!(timeouts.frame_timeout, 5_000 * MS);
    assert_eq!(timeouts.idle_timeout, 0);
    assert_eq!(timeouts.keepalive, 10_000 * MS);
    assert_eq!(
        SessionTimeouts::from_secs(u64::MAX, 0, 0).frame_timeout,
        u64::MAX as u128 * 1_000_000_000
    );
}

#[test]
fn new_session_is_in_init() {
    let session = Session::new(MicMode::Hold, timeouts_ms(1, 2, 3), true);
    assert_eq!(session.state, State::Init);
    assert_eq!(session.last_seq, None);
    assert_eq!(session.stream_id, None);
    assert_eq!(session.consumers, 0);
    assert!(session.mic_on_demand);
}

#[test]
fn begin_asks_for_caps_and_starts_timers() {
    let mut session = Session::new(MicMode::Toggle, timeouts_ms(0, 0, 0), false);
    let actions = session.begin(&ProtocolV04::new());
    assert_eq!(
        actions,
        vec![
            Action::Send(V04_GET_CAPS.to_vec()),
            Action::Publish(State::Ready),
            Action::Arm(Timer::Keepalive),
            Action::Arm(Timer::Frame),
            Action::Arm(Timer::Idle),
        ]
    );
    assert_eq!(session.state, State::Ready);
}

#[test]
fn press_actions_come_in_order() {
    let mut protocol = ProtocolV04::new();
    let mut session = Session::new(MicMode::Hold, timeouts_ms(1, 1, 1), false);
    session.begin(&protocol);
    let press = |session: &mut Session, protocol: &mut ProtocolV04| {
        session.handle(protocol, SessionEvent::Control(vec![CTL_START_SEARCH]))
    };
    assert_eq!(
        press(&mut session, &mut protocol),
        vec![
            Action::Arm(Timer::Idle),
            Action::Send(V04_MIC_OPEN.to_vec()),
            Action::Publish(State::Opening),
            Action::Arm(Timer::Frame),
        ]
    );
    assert_eq!(
        press(&mut session, &mut protocol),
        vec![
            Action::Arm(Timer::Idle),
            Action::Send(V04_MIC_CLOSE.to_vec()),
            Action::Send(V04_MIC_OPEN.to_vec()),
            Action::Publish(State::Opening),
            Action::Arm(Timer::Frame),
        ]
    );
}

#[test]
fn audio_start_restarts_keepalive() {
    let mut protocol = ProtocolV04::new();
    let mut session = Session::new(MicMode::Toggle, timeouts_ms(0, 0, 7), false);
    session.begin(&protocol);
    let actions = session.handle(&mut protocol, SessionEvent::Control(vec![CTL_AUDIO_START]));
    assert_eq!(
        actions,
        vec![
            Action::Publish(State::Streaming),
            Action::Arm(Timer::Keepalive),
        ]
    );
}

#[test]
fn frames_are_dropped_unless_streaming() {
    let mut rig = v04(MicMode::Toggle, timeouts_ms(0, 0, 0));
    rig.audio(make_audio_frame(1));
    rig.ctl(&[CTL_START_SEARCH]);
    rig.audio(make_audio_frame(2));
    assert!(rig.frames.is_empty());
    rig.ctl(&[CTL_AUDIO_START]);
    rig.audio(make_audio_frame(3));
    assert_eq!(rig.frames, vec![3]);
    rig.ctl(&[CTL_AUDIO_STOP]);
    rig.audio(make_audio_frame(4));
    assert_eq!(rig.frames, vec![3]);
}

#[test]
fn frames_of_the_wrong_size_are_dropped() {
    let mut rig = v04(MicMode::Toggle, timeouts_ms(100, 0, 0));
    rig.ctl(&[CTL_AUDIO_START]);
    rig.advance(60);
    rig.audio(vec![0; 133]);
    assert!(rig.frames.is_empty());
    // They do not hold off the frame timeout either.
    rig.advance(60);
    assert_eq!(rig.state, State::Ready);
}

#[test]
fn gaps_in_the_sequence_are_reported() {
    let mut rig = v04(MicMode::Toggle, timeouts_ms(0, 0, 0));
    rig.ctl(&[CTL_AUDIO_START]);
    for seq in [65_534, 65_535, 0, 1] {
        rig.audio(make_audio_frame(seq));
    }
    assert!(rig.gaps.is_empty());
    rig.audio(make_audio_frame(5));
    assert_eq!(rig.gaps, vec![(2, 5, 3)]);
    // A repeated frame counts as a gap that goes all the way round.
    rig.audio(make_audio_frame(5));
    assert_eq!(rig.gaps[1], (6, 5, 65_535));
    assert_eq!(rig.frames, vec![65_534, 65_535, 0, 1, 5, 5]);
}

#[test]
fn audio_start_counts_frames_anew() {
    let mut rig = v04(MicMode::Toggle, timeouts_ms(0, 0, 0));
    rig.ctl(&[CTL_AUDIO_START]);
    rig.audio(make_audio_frame(900));
    rig.ctl(&[CTL_AUDIO_START]);
    rig.audio(make_audio_frame(0));
    assert!(rig.gaps.is_empty());
}

#[test]
fn audio_stop_closes_the_mic_while_streaming() {
    let mut rig = v04(MicMode::Toggle, timeouts_ms(0, 0, 0));
    rig.ctl(&[CTL_START_SEARCH]);
    rig.ctl(&[CTL_AUDIO_START]);
    rig.drain();
    rig.ctl(&[CTL_AUDIO_STOP]);
    assert_eq!(rig.drain(), vec![V04_MIC_CLOSE.to_vec()]);
    assert_eq!(rig.state, State::Ready);
    // Without a stream there is nothing to close.
    rig.ctl(&[CTL_AUDIO_STOP]);
    assert!(rig.drain().is_empty());
    assert_eq!(rig.state, State::Ready);
}

#[test]
fn audio_stop_by_button_release_sends_nothing() {
    let mut rig = v10(timeouts_ms(0, 0, 0));
    rig.ctl(&[CTL_AUDIO_START, 0x03, 0x01, 0x07]);
    assert_eq!(rig.session.stream_id, Some(StreamId(0x07)));
    rig.drain();
    // HTT button release
    rig.ctl(&[CTL_AUDIO_STOP, 0x02]);
    assert!(rig.drain().is_empty());
    assert_eq!(rig.state, State::Ready);
}

#[test]
fn commands_name_the_running_stream() {
    let mut rig = v10(timeouts_ms(0, 0, 50));
    rig.ctl(&[CTL_AUDIO_START, 0x03, 0x01, 0x07]);
    rig.drain();
    rig.advance(50);
    // MIC_EXTEND
    assert_eq!(rig.drain(), vec![vec![0x0E, 0x07]]);
    rig.command(ExternalCommand::MicClose);
    assert_eq!(rig.drain(), vec![vec![0x0D, 0x07]]);
    // Opening: no stream yet
    rig.command(ExternalCommand::MicOpen);
    rig.drain();
    rig.command(ExternalCommand::MicClose);
    assert_eq!(rig.drain(), vec![vec![0x0D, 0x00]]);
}

#[test]
fn keepalive_repeats_while_streaming() {
    let mut rig = v04(MicMode::Toggle, timeouts_ms(0, 0, 50));
    rig.drain();
    rig.advance(120);
    assert!(rig.drain().is_empty());
    rig.ctl(&[CTL_AUDIO_START]);
    rig.advance(49);
    assert!(rig.drain().is_empty());
    rig.advance(1);
    assert_eq!(rig.drain(), vec![V04_MIC_OPEN.to_vec()]);
    rig.advance(100);
    assert_eq!(rig.drain().len(), 2);
    assert_eq!(rig.state, State::Streaming);
    rig.ctl(&[CTL_AUDIO_STOP]);
    rig.drain();
    rig.advance(100);
    assert!(rig.drain().is_empty());
}

#[test]
fn frame_timeout_closes_the_mic() {
    let mut rig = v04(MicMode::Toggle, timeouts_ms(100, 0, 0));
    rig.ctl(&[CTL_START_SEARCH]);
    rig.drain();
    rig.advance(99);
    assert_eq!(rig.state, State::Opening);
    rig.advance(1);
    assert_eq!(rig.state, State::Ready);
    assert_eq!(rig.drain(), vec![V04_MIC_CLOSE.to_vec()]);
}

#[test]
fn timers_that_do_not_count_do_nothing() {
    let mut protocol = ProtocolV04::new();
    let mut session = Session::new(MicMode::Toggle, timeouts_ms(1, 1, 1), false);
    session.begin(&protocol);
    for timer in [Timer::Keepalive, Timer::Frame, Timer::Idle] {
        assert_eq!(session.armed_until(timer), None);
        assert!(!session.due(timer, u128::MAX));
        let actions = session.handle(&mut protocol, SessionEvent::Elapsed(timer));
        assert!(actions.is_empty());
    }
    assert_eq!(session.state, State::Ready);
}

#[test]
fn armed_timers_tell_their_time() {
    let mut protocol = ProtocolV04::new();
    let mut session = Session::new(MicMode::Toggle, timeouts_ms(5, 0, 7), false);
    session.begin(&protocol);
    session.handle(&mut protocol, SessionEvent::Control(vec![CTL_AUDIO_START]));
    session.arm(Timer::Keepalive, 100);
    session.arm(Timer::Frame, 200);
    assert_eq!(session.armed_until(Timer::Keepalive), Some(100 + 7 * MS));
    assert_eq!(session.armed_until(Timer::Frame), Some(200 + 5 * MS));
    assert_eq!(session.armed_until(Timer::Idle), None);
    assert!(!session.due(Timer::Frame, 199 + 5 * MS));
    assert!(session.due(Timer::Frame, 200 + 5 * MS));
    // The clock does not run over.
    session.arm(Timer::Frame, u128::MAX - 1);
    assert_eq!(session.armed_until(Timer::Frame), Some(u128::MAX));
}

#[test]
fn caps_resp_is_reported() {
    let mut rig = v10(timeouts_ms(0, 0, 0));
    // v1.0, 8 kHz and 16 kHz, on-request, 120-byte frames
    rig.ctl(&[0x0B, 0x01, 0x00, 0x03, 0x00, 0x00, 0x78]);
    assert_eq!(rig.codecs, vec![Ok(Codec::Adpcm16kHz)]);
    rig.ctl(&[0x0B, 0x01, 0x00, 0x00, 0x00, 0x00, 0x78]);
    assert_eq!(
        rig.codecs[1],
        Err(NoCommonCodec {
            remote: Codecs { bits: 0 },
            ours: Codecs { bits: 3 }
        })
    );
    assert_eq!(rig.state, State::Ready);
}

#[test]
fn mic_open_error_returns_to_ready() {
    let mut rig = v10(timeouts_ms(0, 0, 0));
    rig.ctl(&[0x0C, 0x0F, 0x01]);
    assert_eq!(rig.state, State::Ready);
    rig.ctl(&[CTL_START_SEARCH]);
    assert_eq!(rig.state, State::Opening);
    rig.ctl(&[0x0C, 0x0F, 0x01]);
    assert_eq!(rig.state, State::Ready);
    // It does not end a stream that runs.
    rig.ctl(&[CTL_AUDIO_START, 0x00, 0x01, 0x00]);
    rig.ctl(&[0x0C, 0x0F, 0x01]);
    assert_eq!(rig.state, State::Streaming);
}

#[test]
fn unknown_and_empty_notifications_do_nothing() {
    let mut rig = v04(MicMode::Toggle, timeouts_ms(1, 1, 1));
    rig.drain();
    rig.ctl(&[]);
    rig.ctl(&[0xEE, 0x01]);
    assert!(rig.drain().is_empty());
    assert_eq!(rig.state, State::Ready);
}

#[test]
fn audio_sync_reaches_the_decoder() {
    let mut rig = v10(timeouts_ms(0, 0, 0));
    rig.ctl(&[CTL_AUDIO_START, 0x00, 0x01, 0x00]);
    // codec, sequence 0x0102, predictor, step index
    rig.ctl(&[0x0A, 0x01, 0x01, 0x02, 0x10, 0x00, 0x05]);
    rig.audio(vec![0; 20]);
    assert_eq!(rig.frames, vec![0x0102]);
}

#[test]
fn commands_given_twice_act_once() {
    let mut rig = v04(MicMode::Toggle, timeouts_ms(0, 0, 0));
    rig.drain();
    rig.command(ExternalCommand::MicClose);
    assert!(rig.drain().is_empty());
    rig.command(ExternalCommand::MicOpen);
    rig.command(ExternalCommand::MicOpen);
    assert_eq!(rig.drain(), vec![V04_MIC_OPEN.to_vec()]);
    rig.command(ExternalCommand::MicClose);
    rig.command(ExternalCommand::MicClose);
    assert_eq!(rig.drain(), vec![V04_MIC_CLOSE.to_vec()]);
}

#[test]
fn commands_before_the_start_do_nothing() {
    let mut protocol = create_protocol(ProtocolVersion::V0_4);
    let mut session = Session::new(MicMode::Toggle, timeouts_ms(0, 0, 0), false);
    for command in [
        ExternalCommand::MicOpen,
        ExternalCommand::MicClose,
        ExternalCommand::MicToggle,
    ] {
        let actions = session.handle(&mut protocol, SessionEvent::Command(command));
        assert!(actions.is_empty());
    }
    assert_eq!(session.state, State::Init);
}

#[test]
fn mic_opens_and_closes_with_its_listeners() {
    let mut rig = Rig::start(
        ProtocolV04::new(),
        MicMode::Toggle,
        timeouts_ms(0, 0, 0),
        true,
    );
    rig.drain();
    rig.listeners(1);
    assert_eq!(rig.state, State::Opening);
    assert_eq!(rig.drain(), vec![V04_MIC_OPEN.to_vec()]);
    rig.ctl(&[CTL_AUDIO_START]);
    rig.listeners(2);
    rig.listeners(1);
    assert_eq!(rig.state, State::Streaming);
    assert!(rig.drain().is_empty());
    rig.listeners(0);
    assert_eq!(rig.state, State::Ready);
    assert_eq!(rig.drain(), vec![V04_MIC_CLOSE.to_vec()]);
    // Opened by button, with nobody listening: an update without a change closes nothing.
    rig.ctl(&[CTL_START_SEARCH]);
    rig.listeners(0);
    assert_eq!(rig.state, State::Opening);
}

#[test]
fn listeners_are_only_counted_unless_on_demand() {
    let mut rig = v04(MicMode::Toggle, timeouts_ms(0, 0, 0));
    rig.drain();
    rig.listeners(3);
    assert_eq!(rig.state, State::Ready);
    assert_eq!(rig.session.consumers, 3);
    rig.ctl(&[CTL_START_SEARCH]);
    rig.listeners(0);
    assert_eq!(rig.state, State::Opening);
}

#[test]
fn session_ends_with_its_streams() {
    let mut rig = v04(MicMode::Toggle, timeouts_ms(0, 0, 0));
    rig.event(SessionEvent::StreamsEnded);
    assert!(rig.finished);
}

#[test]
fn decoded_frames_pass_in_order() {
    let packets: Vec<Vec<u8>> = (0..5u8).map(|i| vec![i * 51; 20]).collect();
    let mut expected = Vec::new();
    let mut alone = ProtocolV10::new();
    for packet in &packets {
        expected.push(alone.decode_audio(packet).unwrap());
    }
    let mut protocol = ProtocolV10::new();
    let mut session = Session::new(MicMode::Toggle, timeouts_ms(0, 0, 0), false);
    session.begin(&protocol);
    session.handle(
        &mut protocol,
        SessionEvent::Control(vec![CTL_AUDIO_START, 0x00, 0x01, 0x00]),
    );
    let mut delivered = Vec::new();
    for packet in packets {
        for action in session.handle(&mut protocol, SessionEvent::Audio(packet)) {
            match action {
                Action::Deliver(frame) => delivered.push(frame),
                other => panic!("unexpected action {:?}", other),
            }
        }
    }
    assert_eq!(delivered, expected);
    assert_eq!(session.state, State::Streaming);
}

#[test]
fn unasked_stream_gets_its_time() {
    let mut rig = v10(timeouts_ms(100, 0, 0));
    rig.drain();
    rig.advance(500);
    // Press-to-talk: the remote starts by itself.
    rig.ctl(&[CTL_AUDIO_START, 0x01, 0x01, 0x01]);
    assert_eq!(rig.state, State::Streaming);
    assert!(!rig.session.due(Timer::Frame, rig.now));
    rig.advance(99);
    assert_eq!(rig.state, State::Streaming);
    assert!(rig.drain().is_empty());
    rig.advance(1);
    assert_eq!(rig.state, State::Ready);
    assert_eq!(rig.drain(), vec![vec![0x0D, 0x01]]);
    // One that comes late, after the timeout, gets its time as well.
    rig.advance(300);
    rig.ctl(&[CTL_AUDIO_START, 0x00, 0x01, 0x02]);
    rig.advance(99);
    assert_eq!(rig.state, State::Streaming);
    rig.advance(1);
    assert_eq!(rig.state, State::Ready);
}

#[test]
fn audio_start_after_opening_starts_no_new_silence() {
    let mut protocol = ProtocolV04::new();
    let mut session = Session::new(MicMode::Toggle, timeouts_ms(100, 0, 7), false);
    session.begin(&protocol);
    let unasked = session.handle(&mut protocol, SessionEvent::Control(vec![CTL_AUDIO_START]));
    assert_eq!(
        unasked,
        vec![
            Action::Publish(State::Streaming),
            Action::Arm(Timer::Keepalive),
            Action::Arm(Timer::Frame),
        ]
    );
    // The microphone is open already: the time runs on.
    let again = session.handle(&mut protocol, SessionEvent::Control(vec![CTL_AUDIO_START]));
    assert_eq!(
        again,
        vec![
            Action::Publish(State::Streaming),
            Action::Arm(Timer::Keepalive),
        ]
    );
}
