//! The samples on their way to the virtual microphone.
//!
//! PipeWire asks for samples at its own pace. Those that have arrived wait in a queue; where
//! too few have, silence takes their place, and where too many have, the oldest are dropped.

use crate::wire::{be_i16, i16_to_le, le_bytes, lemma_le_round_trip};
use vstd::prelude::*;

verus! {

/// Number of audio channels (mono).
pub const CHANNELS: u32 = 1;

/// Size of one sample in bytes (i16 = 2 bytes).
pub const SAMPLE_SIZE: usize = 2;

/// Maximum pending samples before overflow truncation (~500ms at 16kHz).
pub const MAX_PENDING: usize = 8000;

/// Signal to shut down the PipeWire source cleanly.
#[derive(Debug)]
pub struct Shutdown;

/// The part of a buffer that was filled, as PipeWire wants it described.
#[derive(Debug, Clone, Copy, PartialEq, Eq, Structural)]
pub struct Chunk {
    pub offset: u32,
    pub stride: i32,
    pub size: u32,
}

/// The number of samples that go into a buffer of `capacity` bytes: as many as requested,
/// or as fit if that is fewer or nothing in particular was requested.
pub open spec fn samples_wanted(capacity: nat, requested: nat) -> nat {
    let room = capacity / 2;
    if 0 < requested < room {
        requested
    } else {
        room
    }
}

/// The number of samples that are there to be handed out.
pub open spec fn samples_taken(pending: nat, wanted: nat) -> nat {
    if pending < wanted {
        pending
    } else {
        wanted
    }
}

/// The buffer `out` with `wanted` samples written to its start, as little-endian bytes:
/// those that are pending and then silence. What lies behind is untouched.
pub open spec fn filled(pending: Seq<i16>, out: Seq<u8>, wanted: nat) -> Seq<u8> {
    Seq::new(
        out.len(),
        |i: int|
            if i >= 2 * wanted {
                out[i]
            } else if i / 2 < pending.len() {
                le_bytes(pending[i / 2])[i % 2]
            } else {
                0
            },
    )
}

/// The samples that remain when the oldest are dropped until at most `MAX_PENDING` are left.
pub open spec fn bounded(pending: Seq<i16>) -> Seq<i16> {
    if pending.len() > MAX_PENDING {
        pending.skip(pending.len() - MAX_PENDING)
    } else {
        pending
    }
}

/// Samples that have not been handed out yet, the oldest first.
#[derive(Debug)]
pub struct PcmQueue {
    pub pending: Vec<i16>,
}

impl View for PcmQueue {
    type V = Seq<i16>;

    open spec fn view(&self) -> Seq<i16> {
        self.pending@
    }
}

impl PcmQueue {
    /// An empty queue.
    pub fn new() -> (r: PcmQueue)
        ensures
            r@ == Seq::<i16>::empty(),
    {
        PcmQueue { pending: Vec::new() }
    }

    /// Append the samples of a frame.
    pub fn push(&mut self, frame: &[i16])
        ensures
            final(self)@ == old(self)@ + frame@,
    {
        self.pending.extend_from_slice(frame);
        assert(self.pending@ =~= old(self)@ + frame@);
    }

    /// Bound the queue to prevent unbounded growth under backpressure. Returns the number of
    /// samples that were dropped.
    pub fn bound(&mut self) -> (r: usize)
        ensures
            final(self)@ == bounded(old(self)@),
            r == old(self)@.len() - final(self)@.len(),
    {
        if self.pending.len() > MAX_PENDING {
            let dropped: usize = self.pending.len() - MAX_PENDING;
            self.pending = self.pending.split_off(dropped);
            assert(self.pending@ =~= bounded(old(self)@));
            dropped
        } else {
            0
        }
    }

    /// Hand out samples: write as many as are wanted to `out` and drop them from the queue.
    pub fn fill(&mut self, out: &mut [u8], requested: usize) -> (r: Chunk)
        ensures
            ({
                let wanted = samples_wanted(old(out)@.len(), requested as nat);
                let taken = samples_taken(old(self)@.len(), wanted);
                &&& final(out)@ == filled(old(self)@, old(out)@, wanted)
                &&& final(self)@ == old(self)@.skip(taken as int)
                &&& r == (Chunk { offset: 0, stride: 2, size: (2 * wanted) as u32 })
            }),
    {
        let len: usize = out.len();
        let room: usize = len / SAMPLE_SIZE;
        let max_samples: usize = if requested > 0 && requested < room {
            requested
        } else {
            room
        };
        let available: usize = if self.pending.len() < max_samples {
            self.pending.len()
        } else {
            max_samples
        };
        let ghost pending = self.pending@;
        let ghost before = out@;
        // Copy i16 samples to the output buffer as little-endian bytes.
        for k in 0..available
            invariant
                out@.len() == before.len() == len,
                available <= pending.len(),
                2 * available <= len,
                self.pending@ == pending,
                forall|i: int|
                    0 <= i < len ==> out@[i] == (if i < 2 * k {
                        le_bytes(pending[i / 2])[i % 2]
                    } else {
                        before[i]
                    }),
        {
            let (lo, hi) = i16_to_le(self.pending[k]);
            assert(seq![lo, hi][0] == lo && seq![lo, hi][1] == hi);
            out[2 * k] = lo;
            out[2 * k + 1] = hi;
        }
        // Zero remaining buffer bytes (silence).
        for j in 2 * available..2 * max_samples
            invariant
                out@.len() == before.len() == len,
                2 * available <= j <= 2 * max_samples <= len,
                forall|i: int|
                    0 <= i < len ==> out@[i] == (if i < 2 * available {
                        le_bytes(pending[i / 2])[i % 2]
                    } else if i < j {
                        0
                    } else {
                        before[i]
                    }),
        {
            out[j] = 0;
        }
        assert(out@ =~= filled(pending, before, max_samples as nat));
        if available > 0 {
            self.pending = self.pending.split_off(available);
        }
        assert(self.pending@ =~= pending.skip(available as int));
        Chunk { offset: 0, stride: SAMPLE_SIZE as i32, size: (max_samples * SAMPLE_SIZE) as u32 }
    }
}

/// What is written to a buffer can be read back: the pending samples in order, and silence
/// after them.
pub proof fn lemma_buffer_holds_samples(pending: Seq<i16>, out: Seq<u8>, wanted: nat, k: int)
    requires
        2 * wanted <= out.len(),
        0 <= k < wanted,
    ensures
        be_i16(filled(pending, out, wanted)[2 * k + 1], filled(pending, out, wanted)[2 * k]) == (
        if k < pending.len() {
            pending[k]
        } else {
            0
        }),
{
    if k < pending.len() {
        lemma_le_round_trip(pending[k]);
    }
}

/// Samples leave the queue in the order in which they came, and none is lost or repeated:
/// what two buffers take, one after the other, is what one that wants as much as both
/// would have taken.
pub proof fn lemma_samples_leave_in_order(pending: Seq<i16>, first: nat, second: nat)
    ensures
        ({
            let a = samples_taken(pending.len(), first) as int;
            let rest = pending.skip(a);
            let b = samples_taken(rest.len(), second) as int;
            let both = samples_taken(pending.len(), first + second) as int;
            &&& pending.take(a) + rest == pending
            &&& pending.take(a) + rest.take(b) == pending.take(both)
            &&& rest.skip(b) == pending.skip(both)
        }),
{
    let a = samples_taken(pending.len(), first) as int;
    let rest = pending.skip(a);
    let b = samples_taken(rest.len(), second) as int;
    let both = samples_taken(pending.len(), first + second) as int;
    assert(pending.take(a) + rest =~= pending);
    assert(pending.take(a) + rest.take(b) =~= pending.take(both));
    assert(rest.skip(b) =~= pending.skip(both));
}

/// A bounded queue holds at most `MAX_PENDING` samples, and they are the newest: only as
/// many are dropped as are too many, and bounding again drops none.
pub proof fn lemma_newest_samples_stay(pending: Seq<i16>)
    ensures
        bounded(pending).len() <= MAX_PENDING,
        pending.len() <= MAX_PENDING ==> bounded(pending) == pending,
        pending.len() > MAX_PENDING ==> bounded(pending).len() == MAX_PENDING,
        bounded(pending) == pending.skip(pending.len() - bounded(pending).len()),
        bounded(bounded(pending)) == bounded(pending),
{
    assert(pending.skip(0) =~= pending);
}

/// How many samples are wanted, in numbers: they fit into the buffer at two bytes each, they
/// are no more than requested where anything is, and there is no reason to want fewer.
pub proof fn lemma_samples_wanted(capacity: nat, requested: nat)
    ensures
        ({
            let wanted = samples_wanted(capacity, requested);
            &&& 2 * wanted <= capacity
            &&& requested > 0 ==> wanted <= requested
            &&& wanted == requested || capacity < 2 * wanted + 2
            &&& requested == 0 ==> capacity < 2 * wanted + 2
        }),
{
}

/// As many samples leave the queue as are wanted, or all of them where fewer are there.
pub proof fn lemma_samples_taken(pending: nat, wanted: nat)
    ensures
        wanted <= pending ==> samples_taken(pending, wanted) == wanted,
        wanted > pending ==> samples_taken(pending, wanted) == pending,
{
}

/// What a buffer holds, in numbers: each of the wanted samples takes two bytes, the low one
/// first, silence is zeros, and the bytes after them are those that were there.
pub proof fn lemma_buffer_bytes(pending: Seq<i16>, out: Seq<u8>, wanted: nat, k: int)
    requires
        2 * wanted <= out.len(),
        0 <= k < out.len(),
    ensures
        filled(pending, out, wanted).len() == out.len(),
        k >= 2 * wanted ==> filled(pending, out, wanted)[k] == out[k],
        k < wanted ==> {
            let value = filled(pending, out, wanted)[2 * k] + 256 * filled(
                pending,
                out,
                wanted,
            )[2 * k + 1];
            if k >= pending.len() {
                value == 0
            } else if pending[k] >= 0 {
                value == pending[k]
            } else {
                value == pending[k] + 65536
            }
        },
{
    if k < wanted && k < pending.len() {
        crate::wire::lemma_bytes_by_value(0, pending[k]);
    }
}

/// What two buffers in a row hold, read back: the samples of the queue in order, each of them
/// once, and silence after the last. What neither took is still there.
pub proof fn lemma_two_buffers_hold_the_queue(
    pending: Seq<i16>,
    first: Seq<u8>,
    second: Seq<u8>,
    requested: (nat, nat),
    k: int,
)
    requires
        k >= 0,
    ensures
        ({
            let wanted = (
                samples_wanted(first.len(), requested.0),
                samples_wanted(second.len(), requested.1),
            );
            let a = filled(pending, first, wanted.0);
            let rest = pending.skip(samples_taken(pending.len(), wanted.0) as int);
            let b = filled(rest, second, wanted.1);
            let left = rest.skip(samples_taken(rest.len(), wanted.1) as int);
            let sample = if k < wanted.0 {
                a[2 * k] + 256 * a[2 * k + 1]
            } else {
                b[2 * (k - wanted.0)] + 256 * b[2 * (k - wanted.0) + 1]
            };
            &&& k < wanted.0 + wanted.1 ==> sample == (if k >= pending.len() {
                0
            } else if pending[k] >= 0 {
                pending[k] as int
            } else {
                pending[k] + 65536
            })
            &&& pending.len() >= wanted.0 + wanted.1 ==> left == pending.skip(
                (wanted.0 + wanted.1) as int,
            )
            &&& pending.len() < wanted.0 + wanted.1 ==> left.len() == 0
        }),
{
    let w0 = samples_wanted(first.len(), requested.0);
    let w1 = samples_wanted(second.len(), requested.1);
    lemma_samples_wanted(first.len(), requested.0);
    lemma_samples_wanted(second.len(), requested.1);
    lemma_samples_taken(pending.len(), w0);
    let rest = pending.skip(samples_taken(pending.len(), w0) as int);
    lemma_samples_taken(rest.len(), w1);
    if k < w0 {
        lemma_buffer_bytes(pending, first, w0, k);
    } else if k < w0 + w1 {
        lemma_buffer_bytes(rest, second, w1, k - w0);
    }
    if pending.len() >= w0 + w1 {
        assert(rest.skip(w1 as int) =~= pending.skip((w0 + w1) as int));
    }
}

/// A queue of more than 8000 samples is cut to its last 8000, and one that holds no more is
/// left alone.
pub proof fn lemma_bound_in_numbers(pending: Seq<i16>, k: int)
    ensures
        pending.len() <= 8000 ==> bounded(pending) == pending,
        pending.len() > 8000 ==> bounded(pending).len() == 8000,
        pending.len() > 8000 && 0 <= k < 8000 ==> bounded(pending)[k] == pending[pending.len() - 8000
            + k],
{
}

} // verus!
