//! What the D-Bus control interface shows of the daemon.

use crate::atvv::State;
use vstd::prelude::*;

verus! {

/// D-Bus object path for the daemon interface.
pub const DBUS_OBJECT_PATH: &'static str = "/org/atvvoice/Daemon";

/// Capacity for the external command channel (D-Bus to session).
pub const COMMAND_CHANNEL_CAPACITY: usize = 16;

/// Static info about the daemon, set at startup.
#[derive(Debug, Clone)]
pub struct DaemonInfo {
    pub device_address: String,
    pub node_name: String,
}

/// Which states to signal. An update that changes nothing is not signalled.
#[derive(Debug, Clone, Copy, PartialEq, Eq, Structural)]
pub struct StateSignals {
    /// The state that was signalled last, or was there at the start.
    pub previous: State,
}

impl StateSignals {
    pub fn new(initial: State) -> (r: StateSignals)
        ensures
            r.previous == initial,
    {
        StateSignals { previous: initial }
    }

    /// The state was updated. Returns the text to signal, if it changed.
    pub fn update(&mut self, state: State) -> (r: Option<&'static str>)
        ensures
            final(self).previous == state,
            match r {
                Some(text) => old(self).previous != state && text@ == state.name(),
                None => old(self).previous == state,
            },
    {
        if state != self.previous {
            self.previous = state;
            Some(state.as_str())
        } else {
            None
        }
    }
}

/// The states that are signalled when the state, first `initial`, is updated to each of
/// `updates` in turn.
pub open spec fn signalled(initial: State, updates: Seq<State>) -> Seq<State>
    decreases updates.len(),
{
    if updates.len() == 0 {
        seq![]
    } else {
        let before = updates.drop_last();
        let previous = if before.len() == 0 {
            initial
        } else {
            before.last()
        };
        if updates.last() == previous {
            signalled(initial, before)
        } else {
            signalled(initial, before).push(updates.last())
        }
    }
}

/// Whoever follows the signals knows the state at any time, and no signal repeats the one
/// before it.
pub proof fn lemma_signals_tell_the_state(initial: State, updates: Seq<State>)
    ensures
        ({
            let signals = seq![initial] + signalled(initial, updates);
            &&& signals.last() == (seq![initial] + updates).last()
            &&& forall|i: int|
                0 < i < signals.len() ==> #[trigger] signals[i] != signals[i - 1]
        }),
    decreases updates.len(),
{
    if updates.len() > 0 {
        let before = updates.drop_last();
        lemma_signals_tell_the_state(initial, before);
        let old_signals = seq![initial] + signalled(initial, before);
        let signals = seq![initial] + signalled(initial, updates);
        let previous = if before.len() == 0 {
            initial
        } else {
            before.last()
        };
        assert((seq![initial] + before).last() == previous);
        assert((seq![initial] + updates).last() == updates.last());
        if updates.last() != previous {
            assert(signals =~= old_signals.push(updates.last()));
        }
    }
}

/// What is signalled when the state is updated once more: the new state where it differs from
/// the one before, and nothing where it does not.
pub proof fn lemma_signals_on_change(initial: State, updates: Seq<State>, next: State)
    ensures
        signalled(initial, seq![]).len() == 0,
        (seq![initial] + updates).last() == next ==> signalled(initial, updates.push(next))
            == signalled(initial, updates),
        (seq![initial] + updates).last() != next ==> signalled(initial, updates.push(next))
            == signalled(initial, updates).push(next),
{
    assert(updates.push(next).drop_last() =~= updates);
    if updates.len() > 0 {
        assert((seq![initial] + updates).last() == updates.last());
    }
}

/// Each state has a name of its own.
pub proof fn lemma_state_names(state: State)
    ensures
        state == State::Init ==> state.name() == "init"@,
        state == State::Ready ==> state.name() == "ready"@,
        state == State::Opening ==> state.name() == "opening"@,
        state == State::Streaming ==> state.name() == "streaming"@,
{
}

} // verus!
