//! IMA/DVI ADPCM decoding and the clean-up of decoded samples.

use crate::wire::{be_i16, be_u16, i16_from_be, u16_from_be};
use vstd::prelude::*;

verus! {

/// IMA/DVI ADPCM step size table (89 entries).
pub const STEP_TABLE: [i32; 89] = [
    7, 8, 9, 10, 11, 12, 13, 14, 16, 17, 19, 21, 23, 25, 28, 31, 34, 37,
    41, 45, 50, 55, 60, 66, 73, 80, 88, 97, 107, 118, 130, 143, 157, 173,
    190, 209, 230, 253, 279, 307, 337, 371, 408, 449, 494, 544, 598, 658,
    724, 796, 876, 963, 1060, 1166, 1282, 1411, 1552, 1707, 1878, 2066,
    2272, 2499, 2749, 3024, 3327, 3660, 4026, 4428, 4871, 5358, 5894,
    6484, 7132, 7845, 8630, 9493, 10442, 11487, 12635, 13899, 15289,
    16818, 18500, 20350, 22385, 24623, 27086, 29794, 32767,
];

/// IMA/DVI ADPCM index adjustment table.
pub const INDEX_TABLE: [i32; 8] = [-1, -1, -1, -1, 2, 4, 6, 8];

/// ATVV audio frame size in bytes.
pub const FRAME_SIZE: usize = 134;

/// Number of PCM samples decoded from one frame.
/// 1 (predictor) + 256 (128 bytes x 2 nibbles).
pub const SAMPLES_PER_FRAME: usize = 257;

/// Minimum amplitude jump to consider a sample a click spike.
/// Empirically tuned for the G20S Pro electret microphone output.
pub const DECLIP_THRESHOLD: i32 = 1000;

/// The number of `lo..=hi` that is closest to `x`.
pub open spec fn clamped(x: int, lo: int, hi: int) -> int {
    if x < lo {
        lo
    } else if x > hi {
        hi
    } else {
        x
    }
}

/// The distance between two numbers.
pub open spec fn distance(a: int, b: int) -> int {
    if a < b {
        b - a
    } else {
        a - b
    }
}

/// `x / 2`, rounded towards zero.
pub open spec fn half(x: int) -> int {
    if x >= 0 {
        x / 2
    } else {
        -((-x) / 2)
    }
}

/// How far a nibble moves the predictor at a given step size: an eighth of the step,
/// and a quarter, a half and the whole of it for the three low bits that are set.
/// The high bit is the sign.
pub open spec fn nibble_delta(step: int, nibble: u8) -> int {
    let size = step / 8 + (if nibble % 2 == 1 {
        step / 4
    } else {
        0
    }) + (if (nibble / 2) % 2 == 1 {
        step / 2
    } else {
        0
    }) + (if (nibble / 4) % 2 == 1 {
        step
    } else {
        0
    });
    if (nibble / 8) % 2 == 1 {
        -size
    } else {
        size
    }
}

/// The nibbles of a byte string, the high one of each byte first.
pub open spec fn nibbles_of(bytes: Seq<u8>) -> Seq<u8> {
    Seq::new(
        2 * bytes.len(),
        |i: int|
            if i % 2 == 0 {
                bytes[i / 2] / 16
            } else {
                bytes[i / 2] % 16
            },
    )
}

proof fn lemma_step_table(i: int)
    requires
        0 <= i < 89,
    ensures
        7 <= STEP_TABLE[i] <= 32767,
{
}

/// ADPCM decoder state, which carries over from one call to the next.
#[derive(Debug, Clone, Copy, PartialEq, Eq, Structural)]
pub struct AdpcmDecoder {
    /// The last sample.
    pub predictor: i16,
    /// Position in the step size table.
    pub step_index: u8,
}

impl AdpcmDecoder {
    /// The step index lies in the table.
    pub open spec fn wf(self) -> bool {
        self.step_index <= 88
    }

    /// The state that a header sets.
    pub open spec fn from_header(predictor: i16, step_index: u8) -> AdpcmDecoder {
        AdpcmDecoder { predictor, step_index: clamped(step_index as int, 0, 88) as u8 }
    }

    /// The state after one more nibble. Its predictor is the nibble's sample.
    pub open spec fn after(self, nibble: u8) -> AdpcmDecoder {
        let step = STEP_TABLE[self.step_index as int] as int;
        AdpcmDecoder {
            predictor: clamped(self.predictor + nibble_delta(step, nibble), -32768, 32767) as i16,
            step_index: clamped(self.step_index + INDEX_TABLE[(nibble % 8) as int], 0, 88) as u8,
        }
    }

    /// The state after a string of nibbles.
    pub open spec fn after_all(self, nibbles: Seq<u8>) -> AdpcmDecoder
        decreases nibbles.len(),
    {
        if nibbles.len() == 0 {
            self
        } else {
            self.after_all(nibbles.drop_last()).after(nibbles.last())
        }
    }

    /// The samples that a string of nibbles decodes to: one for each.
    pub open spec fn samples(self, nibbles: Seq<u8>) -> Seq<i16> {
        Seq::new(nibbles.len(), |i: int| self.after_all(nibbles.take(i + 1)).predictor)
    }

    /// A decoder at rest.
    pub fn new() -> (r: AdpcmDecoder)
        ensures
            r == AdpcmDecoder::from_header(0, 0),
            r.wf(),
    {
        AdpcmDecoder { predictor: 0, step_index: 0 }
    }

    /// Start over from a header. A step index beyond the table counts as its last.
    pub fn reset(&mut self, predictor: i16, step_index: u8)
        ensures
            *final(self) == AdpcmDecoder::from_header(predictor, step_index),
            final(self).wf(),
    {
        self.predictor = predictor;
        self.step_index = if step_index > 88 {
            88
        } else {
            step_index
        };
    }

    /// Decode one nibble into one sample.
    pub fn decode_nibble(&mut self, nibble: u8) -> (r: i16)
        requires
            old(self).wf(),
            nibble < 16,
        ensures
            *final(self) == old(self).after(nibble),
            final(self).wf(),
            r == final(self).predictor,
    {
        proof {
            lemma_step_table(self.step_index as int);
        }
        let step: i32 = STEP_TABLE[self.step_index as usize];
        assert(nibble < 16 ==> ((nibble & 1 != 0) == (nibble % 2 == 1)) && ((nibble & 2 != 0) == ((
        nibble / 2) % 2 == 1)) && ((nibble & 4 != 0) == ((nibble / 4) % 2 == 1)) && ((nibble & 8
            != 0) == ((nibble / 8) % 2 == 1)) && nibble & 7 == nibble % 8) by (bit_vector);
        assert(0 <= step ==> step >> 3 == step / 8 && step >> 2 == step / 4 && step >> 1 == step
            / 2) by (bit_vector);
        let mut diff: i32 = step >> 3;
        if nibble & 1 != 0 {
            diff += step >> 2;
        }
        if nibble & 2 != 0 {
            diff += step >> 1;
        }
        if nibble & 4 != 0 {
            diff += step;
        }
        let mut predictor: i32 = self.predictor as i32;
        if nibble & 8 != 0 {
            predictor -= diff;
        } else {
            predictor += diff;
        }
        let adjust: i32 = INDEX_TABLE[(nibble & 7) as usize];
        assert(-1 <= adjust <= 8);
        let step_index: i32 = self.step_index as i32 + adjust;
        self.predictor = clamp_sample(predictor);
        self.step_index = if step_index < 0 {
            0
        } else if step_index > 88 {
            88
        } else {
            step_index as u8
        };
        self.predictor
    }

    /// Decode ADPCM bytes, two samples each, high nibble first.
    pub fn decode_bytes(&mut self, bytes: &[u8]) -> (r: Vec<i16>)
        requires
            old(self).wf(),
        ensures
            r@ == old(self).samples(nibbles_of(bytes@)),
            *final(self) == old(self).after_all(nibbles_of(bytes@)),
            final(self).wf(),
    {
        let mut samples: Vec<i16> = Vec::new();
        let ghost start = *self;
        let ghost nibbles = nibbles_of(bytes@);
        for i in 0..bytes.len()
            invariant
                self.wf(),
                nibbles == nibbles_of(bytes@),
                start == *old(self),
                *self == start.after_all(nibbles.take(2 * i)),
                samples@ == start.samples(nibbles.take(2 * i)),
        {
            let byte: u8 = bytes[i];
            assert((byte >> 4) & 0x0F == byte / 16 && byte & 0x0F == byte % 16) by (bit_vector);
            assert(nibbles[2 * i] == byte / 16 && nibbles[2 * i + 1] == byte % 16);
            assert(nibbles.take(2 * i + 1).drop_last() =~= nibbles.take(2 * i));
            let high: i16 = self.decode_nibble((byte >> 4) & 0x0F);
            samples.push(high);
            assert(*self == start.after_all(nibbles.take(2 * i + 1)));
            assert(nibbles.take(2 * i + 2).drop_last() =~= nibbles.take(2 * i + 1));
            let low: i16 = self.decode_nibble(byte & 0x0F);
            samples.push(low);
            assert(*self == start.after_all(nibbles.take(2 * i + 2)));
            proof {
                let done = nibbles.take(2 * i);
                let next = nibbles.take(2 * i + 2);
                assert forall|j: int| 0 <= j < samples@.len() implies samples@[j] == start.samples(
                    next,
                )[j] by {
                    assert(next.take(j + 1) =~= nibbles.take(j + 1));
                    if j < 2 * i {
                        assert(done.take(j + 1) =~= nibbles.take(j + 1));
                    }
                }
                assert(samples@ =~= start.samples(next));
            }
        }
        assert(nibbles.take(2 * bytes@.len() as int) =~= nibbles);
        samples
    }
}

/// The 16-bit sample closest to a wider one.
pub fn clamp_sample(x: i32) -> (r: i16)
    ensures
        r == clamped(x as int, -32768, 32767),
{
    if x < -32768 {
        -32768
    } else if x > 32767 {
        32767
    } else {
        x as i16
    }
}

/// The samples of an audio frame with a header: the predictor, then what the bytes
/// after the header decode to from there.
///
/// Frame layout:
///   Bytes 0-1: Sequence ID (big-endian)
///   Byte 2:    padding
///   Bytes 3-4: DVI predictor (big-endian, signed 16-bit)
///   Byte 5:    DVI step table index (0-88)
///   Bytes 6..: IMA ADPCM (high nibble first)
pub open spec fn frame_samples(frame: Seq<u8>) -> Seq<i16> {
    let predictor = be_i16(frame[3], frame[4]);
    seq![predictor] + AdpcmDecoder::from_header(predictor, frame[5]).samples(
        nibbles_of(frame.skip(6)),
    )
}

/// Decode one 134-byte ATVV audio frame into PCM samples.
///
/// Returns (sequence_number, pcm_samples).
pub fn decode_frame(frame: &[u8; FRAME_SIZE]) -> (r: (u16, [i16; SAMPLES_PER_FRAME]))
    ensures
        r.0 == be_u16(frame[0], frame[1]),
        r.1@ == frame_samples(frame@),
{
    let seq: u16 = u16_from_be(frame[0], frame[1]);
    let predictor: i16 = i16_from_be(frame[3], frame[4]);
    let mut decoder = AdpcmDecoder::new();
    decoder.reset(predictor, frame[5]);
    let data = &frame[6..134];
    assert(data@ =~= frame@.skip(6));
    let decoded: Vec<i16> = decoder.decode_bytes(data);

    let mut samples = [0i16; 257];
    samples[0] = predictor;
    for i in 0..decoded.len()
        invariant
            decoded@.len() == 256,
            samples@.len() == 257,
            samples@[0] == predictor,
            forall|j: int| 0 <= j < i ==> samples@[j + 1] == decoded@[j],
    {
        samples[i + 1] = decoded[i];
    }
    assert(samples@ =~= seq![predictor] + decoded@);
    (seq, samples)
}

/// A sample that jumps away from both neighbours by more than the threshold and by
/// more than twice what the neighbours are apart.
pub open spec fn is_spike(prev: i16, cur: i16, next: i16) -> bool {
    let dp = distance(cur as int, prev as int);
    let dn = distance(cur as int, next as int);
    let apart = distance(next as int, prev as int);
    &&& dp > DECLIP_THRESHOLD
    &&& dn > DECLIP_THRESHOLD
    &&& dp > apart * 2
    &&& dn > apart * 2
}

/// The sample at position `i` once spikes are gone: a spike, seen against the repaired
/// sample before it and the sample after it, gives way to the middle of the two. The
/// first and the last sample stay.
pub open spec fn declipped(s: Seq<i16>, i: int) -> i16
    decreases i,
{
    if 0 < i < s.len() - 1 {
        let prev = declipped(s, i - 1);
        if is_spike(prev, s[i], s[i + 1]) {
            half(prev + s[i + 1]) as i16
        } else {
            s[i]
        }
    } else {
        s[i]
    }
}

/// All samples once spikes are gone.
pub open spec fn declip_all(s: Seq<i16>) -> Seq<i16> {
    Seq::new(s.len(), |i: int| declipped(s, i))
}

fn abs_diff(a: i32, b: i32) -> (r: i32)
    requires
        -32768 <= a <= 32767,
        -32768 <= b <= 32767,
    ensures
        r == distance(a as int, b as int),
{
    if a < b {
        b - a
    } else {
        a - b
    }
}

/// Remove single-sample click spikes by interpolation.
pub fn declip(samples: &mut [i16])
    ensures
        final(samples)@ == declip_all(old(samples)@),
{
    let n: usize = samples.len();
    let ghost before = samples@;
    if n >= 2 {
        for i in 1..n - 1
            invariant
                n >= 2,
                before.len() == n,
                samples@.len() == n,
                forall|j: int| 0 <= j < i ==> samples@[j] == declipped(before, j),
                forall|j: int| i <= j < n ==> samples@[j] == before[j],
        {
            let prev: i32 = samples[i - 1] as i32;
            let cur: i32 = samples[i] as i32;
            let nxt: i32 = samples[i + 1] as i32;
            let dp: i32 = abs_diff(cur, prev);
            let dn: i32 = abs_diff(cur, nxt);
            let neighbor_diff: i32 = abs_diff(nxt, prev);
            assert(prev == declipped(before, i - 1) && nxt == before[i + 1]);
            if dp > DECLIP_THRESHOLD && dn > DECLIP_THRESHOLD && dp > neighbor_diff * 2 && dn
                > neighbor_diff * 2 {
                samples[i] = ((prev + nxt) / 2) as i16;
            }
            assert(samples@[i as int] == declipped(before, i as int));
        }
    }
    assert(samples@ =~= declip_all(before));
}

/// The sample at position `i` after the filter: a quarter of each neighbour and half of
/// the sample itself, rounded down. The first and the last sample pass through.
pub open spec fn smoothed(s: Seq<i16>, i: int) -> i16 {
    if 0 < i < s.len() - 1 {
        ((s[i - 1] + 2 * s[i] + s[i + 1]) / 4) as i16
    } else {
        s[i]
    }
}

/// All samples after the filter.
pub open spec fn lowpass_all(s: Seq<i16>) -> Seq<i16> {
    Seq::new(s.len(), |i: int| smoothed(s, i))
}

/// Apply 3-tap triangle low-pass filter \[0.25, 0.5, 0.25\].
///
/// Note: first and last samples pass through unfiltered. This is intentional
/// for per-frame processing - the predictor at sample\[0\] provides continuity.
pub fn lowpass(samples: &mut [i16])
    ensures
        final(samples)@ == lowpass_all(old(samples)@),
{
    let n: usize = samples.len();
    let ghost before = samples@;
    if n < 3 {
        assert(samples@ =~= lowpass_all(before));
        return;
    }
    let mut prev: i32 = samples[0] as i32;
    for i in 1..n - 1
        invariant
            n >= 3,
            before.len() == n,
            samples@.len() == n,
            prev == before[i - 1],
            forall|j: int| 0 <= j < i ==> samples@[j] == smoothed(before, j),
            forall|j: int| i <= j < n ==> samples@[j] == before[j],
    {
        let cur: i32 = samples[i] as i32;
        let nxt: i32 = samples[i + 1] as i32;
        let sum: i32 = prev + 2 * cur + nxt;
        assert(sum >> 2 == sum / 4) by (bit_vector);
        samples[i] = (sum >> 2) as i16;
        prev = cur;
    }
    assert(samples@ =~= lowpass_all(before));
}

/// Decoding a string of nibbles in two parts, with the state carried over, gives what
/// decoding it at once gives, and leaves the decoder in the same state.
pub proof fn lemma_decoding_continues(d: AdpcmDecoder, a: Seq<u8>, b: Seq<u8>)
    ensures
        d.after_all(a + b) == d.after_all(a).after_all(b),
        d.samples(a + b) == d.samples(a) + d.after_all(a).samples(b),
{
    lemma_state_continues(d, a, b);
    let joined = d.samples(a) + d.after_all(a).samples(b);
    assert forall|i: int| 0 <= i < (a + b).len() implies d.samples(a + b)[i] == joined[i] by {
        if i < a.len() {
            assert((a + b).take(i + 1) =~= a.take(i + 1));
        } else {
            let k = i - a.len();
            assert((a + b).take(i + 1) =~= a + b.take(k + 1));
            lemma_state_continues(d, a, b.take(k + 1));
        }
    }
    assert(d.samples(a + b) =~= joined);
}

proof fn lemma_state_continues(d: AdpcmDecoder, a: Seq<u8>, b: Seq<u8>)
    ensures
        d.after_all(a + b) == d.after_all(a).after_all(b),
    decreases b.len(),
{
    if b.len() == 0 {
        assert(a + b =~= a);
    } else {
        assert((a + b).drop_last() =~= a + b.drop_last());
        lemma_state_continues(d, a, b.drop_last());
    }
}

/// The nibbles of two byte strings in a row are the nibbles of the first, then those of
/// the second.
pub proof fn lemma_nibbles_concat(a: Seq<u8>, b: Seq<u8>)
    ensures
        nibbles_of(a + b) == nibbles_of(a) + nibbles_of(b),
{
    assert forall|i: int| 0 <= i < 2 * (a + b).len() implies nibbles_of(a + b)[i] == (nibbles_of(a)
        + nibbles_of(b))[i] by {
        if i >= 2 * a.len() {
            assert((i - 2 * a.len()) / 2 == i / 2 - a.len());
        }
    }
    assert(nibbles_of(a + b) =~= nibbles_of(a) + nibbles_of(b));
}

/// Whatever nibbles arrive, a decoder whose step index lies in the table keeps it there.
pub proof fn lemma_decoder_stays_wf(d: AdpcmDecoder, nibbles: Seq<u8>)
    requires
        d.wf(),
    ensures
        d.after_all(nibbles).wf(),
    decreases nibbles.len(),
{
    if nibbles.len() > 0 {
        lemma_decoder_stays_wf(d, nibbles.drop_last());
    }
}

/// The nibble that an encoder picks to move the predictor by `diff` at a given step size: the
/// sign, and for the whole, the half and the quarter of the step whether what is left of the
/// distance still holds it.
pub open spec fn encoded_nibble(step: int, diff: int) -> u8 {
    let size = distance(diff, 0);
    let whole = size >= step;
    let rest = if whole {
        size - step
    } else {
        size
    };
    let with_half = rest >= step / 2;
    let last = if with_half {
        rest - step / 2
    } else {
        rest
    };
    let with_quarter = last >= step / 4;
    ((if diff < 0 {
        8int
    } else {
        0
    }) + (if whole {
        4int
    } else {
        0
    }) + (if with_half {
        2int
    } else {
        0
    }) + (if with_quarter {
        1int
    } else {
        0
    })) as u8
}

/// The nibbles that an encoder picks for a signal. It follows the decoder, which starts
/// in state `d`.
pub open spec fn encoded(d: AdpcmDecoder, signal: Seq<i16>) -> Seq<u8>
    decreases signal.len(),
{
    if signal.len() == 0 {
        seq![]
    } else {
        let before = encoded(d, signal.drop_last());
        let now = d.after_all(before);
        before.push(
            encoded_nibble(
                STEP_TABLE[now.step_index as int] as int,
                signal.last() - now.predictor,
            ),
        )
    }
}

/// How far from the sample `x` the decoded sample may lie when `x` is encoded in state `before`.
/// Where `x` is less than two steps away, an eighth of the step and 2, for what the divisions
/// leave. Where it is farther away, the distance gets shorter by a step.
pub open spec fn tolerance(before: AdpcmDecoder, x: i16) -> int {
    let step = STEP_TABLE[before.step_index as int] as int;
    let away = distance(x as int, before.predictor as int);
    if away < 2 * step {
        step / 8 + 2
    } else {
        away - step
    }
}

/// `sample`, decoded in state `before`, is as close to the sample `x` that was encoded as it
/// has to be.
pub open spec fn follows(before: AdpcmDecoder, x: i16, sample: i16) -> bool {
    distance(x as int, sample as int) <= tolerance(before, x)
}

/// The bits of the nibble that an encoder picks, and how far it moves the predictor.
proof fn lemma_encoded_nibble_delta(step: int, diff: int)
    requires
        step > 0,
    ensures
        encoded_nibble(step, diff) < 16,
        diff < 0 ==> nibble_delta(step, encoded_nibble(step, diff)) <= 0,
        diff >= 0 ==> nibble_delta(step, encoded_nibble(step, diff)) >= 0,
        ({
            let moved = distance(nibble_delta(step, encoded_nibble(step, diff)), 0);
            let size = distance(diff, 0);
            if size < 2 * step {
                distance(size, moved) <= step / 8 + 2
            } else {
                step <= moved <= size
            }
        }),
{
    let nibble = encoded_nibble(step, diff);
    let size = distance(diff, 0);
    let whole = size >= step;
    let rest = if whole {
        size - step
    } else {
        size
    };
    let with_half = rest >= step / 2;
    let last = if with_half {
        rest - step / 2
    } else {
        rest
    };
    let with_quarter = last >= step / 4;
    assert((nibble / 8) % 2 == 1 <==> diff < 0);
    assert((nibble / 4) % 2 == 1 <==> whole);
    assert((nibble / 2) % 2 == 1 <==> with_half);
    assert(nibble % 2 == 1 <==> with_quarter);
    let moved = step / 8 + (if with_quarter {
        step / 4
    } else {
        0
    }) + (if with_half {
        step / 2
    } else {
        0
    }) + (if whole {
        step
    } else {
        0
    });
    assert(distance(nibble_delta(step, nibble), 0) == moved);
}

/// One nibble, picked by the encoding rule, takes the predictor to the sample or towards it.
pub proof fn lemma_nibble_follows_sample(d: AdpcmDecoder, x: i16)
    requires
        d.wf(),
    ensures
        ({
            let step = STEP_TABLE[d.step_index as int] as int;
            let nibble = encoded_nibble(step, x - d.predictor);
            &&& nibble < 16
            &&& follows(d, x, d.after(nibble).predictor)
        }),
{
    lemma_step_table(d.step_index as int);
    let step = STEP_TABLE[d.step_index as int] as int;
    let diff = x - d.predictor;
    lemma_encoded_nibble_delta(step, diff);
    let delta = nibble_delta(step, encoded_nibble(step, diff));
    // Clamping to the range of samples does not take the predictor away from one of them.
    let moved = d.predictor + delta;
    assert(distance(x as int, clamped(moved, -32768, 32767)) <= distance(x as int, moved));
}

/// Decoding follows an encoded signal: there is a sample for each of the signal's, and each is
/// as close to it as the step size at that place allows.
pub proof fn lemma_decoding_follows_signal(d: AdpcmDecoder, signal: Seq<i16>, i: int)
    requires
        d.wf(),
        0 <= i < signal.len(),
    ensures
        encoded(d, signal).len() == signal.len(),
        d.samples(encoded(d, signal)).len() == signal.len(),
        follows(
            d.after_all(encoded(d, signal).take(i)),
            signal[i],
            d.samples(encoded(d, signal))[i],
        ),
    decreases signal.len(),
{
    let nibbles = encoded(d, signal);
    let before = encoded(d, signal.drop_last());
    lemma_encoded_len(d, signal);
    lemma_encoded_len(d, signal.drop_last());
    if i == signal.len() - 1 {
        lemma_decoder_stays_wf(d, before);
        lemma_nibble_follows_sample(d.after_all(before), signal[i]);
        assert(nibbles.take(i) =~= before);
        assert(nibbles.take(i + 1) =~= nibbles);
        assert(nibbles.drop_last() =~= before);
    } else {
        lemma_decoding_follows_signal(d, signal.drop_last(), i);
        assert(nibbles.take(i) =~= before.take(i));
        assert(nibbles.take(i + 1) =~= before.take(i + 1));
    }
}

proof fn lemma_encoded_len(d: AdpcmDecoder, signal: Seq<i16>)
    ensures
        encoded(d, signal).len() == signal.len(),
    decreases signal.len(),
{
    if signal.len() > 0 {
        lemma_encoded_len(d, signal.drop_last());
    }
}

/// A frame that an encoder made of a signal, with the first sample as its predictor, decodes
/// to as many samples. The first is met exactly, and decoding follows the others.
pub proof fn lemma_frame_follows_signal(frame: Seq<u8>, signal: Seq<i16>, i: int)
    requires
        0 <= i < signal.len(),
        be_i16(frame[3], frame[4]) == signal[0],
        nibbles_of(frame.skip(6)) == encoded(
            AdpcmDecoder::from_header(signal[0], frame[5]),
            signal.skip(1),
        ),
    ensures
        frame_samples(frame).len() == signal.len(),
        frame_samples(frame)[0] == signal[0],
        i > 0 ==> follows(
            AdpcmDecoder::from_header(signal[0], frame[5]).after_all(
                nibbles_of(frame.skip(6)).take(i - 1),
            ),
            signal[i],
            frame_samples(frame)[i],
        ),
{
    let d = AdpcmDecoder::from_header(signal[0], frame[5]);
    lemma_encoded_len(d, signal.skip(1));
    if i > 0 {
        lemma_decoding_follows_signal(d, signal.skip(1), i - 1);
    }
}

/// `x` squared.
pub open spec fn square(x: int) -> int {
    x * x
}

/// The energy of a signal: the sum of its squares.
pub open spec fn energy(signal: Seq<i16>) -> int
    decreases signal.len(),
{
    if signal.len() == 0 {
        0
    } else {
        energy(signal.drop_last()) + square(signal.last() as int)
    }
}

/// The energy of the noise in `samples`: the sum of the squares of what they differ from the
/// signal by.
pub open spec fn noise(signal: Seq<i16>, samples: Seq<i16>) -> int
    decreases signal.len(),
{
    if signal.len() == 0 {
        0
    } else {
        noise(signal.drop_last(), samples.drop_last()) + square(signal.last() - samples.last())
    }
}

/// The most energy that the noise can have when a signal is encoded for a decoder in state
/// `d`.
pub open spec fn tolerated_noise(d: AdpcmDecoder, signal: Seq<i16>) -> int
    decreases signal.len(),
{
    if signal.len() == 0 {
        0
    } else {
        tolerated_noise(d, signal.drop_last()) + square(
            tolerance(d.after_all(encoded(d, signal.drop_last())), signal.last()),
        )
    }
}

/// The noise of decoding an encoded signal stays within what is tolerated.
pub proof fn lemma_noise_is_bounded(d: AdpcmDecoder, signal: Seq<i16>)
    requires
        d.wf(),
    ensures
        noise(signal, d.samples(encoded(d, signal))) <= tolerated_noise(d, signal),
    decreases signal.len(),
{
    if signal.len() > 0 {
        let nibbles = encoded(d, signal);
        let before = encoded(d, signal.drop_last());
        let n = signal.len() as int;
        lemma_noise_is_bounded(d, signal.drop_last());
        lemma_encoded_len(d, signal);
        lemma_encoded_len(d, signal.drop_last());
        lemma_decoding_follows_signal(d, signal, n - 1);
        assert(nibbles.take(n - 1) =~= before);
        assert forall|i: int| 0 <= i < n - 1 implies d.samples(nibbles)[i] == d.samples(
            before,
        )[i] by {
            assert(nibbles.take(i + 1) =~= before.take(i + 1));
        }
        assert(d.samples(nibbles).drop_last() =~= d.samples(before));
        let off = signal.last() - d.samples(nibbles).last();
        let most = tolerance(d.after_all(before), signal.last());
        assert(off * off <= most * most) by (nonlinear_arith)
            requires
                -most <= off <= most,
        ;
    }
}

proof fn lemma_noise_from_the_front(signal: Seq<i16>, samples: Seq<i16>)
    requires
        signal.len() > 0,
        samples.len() == signal.len(),
    ensures
        noise(signal, samples) == square(signal[0] - samples[0]) + noise(
            signal.skip(1),
            samples.skip(1),
        ),
    decreases signal.len(),
{
    if signal.len() == 1 {
        reveal_with_fuel(noise, 2);
        assert(signal.skip(1) =~= seq![]);
    } else {
        lemma_noise_from_the_front(signal.drop_last(), samples.drop_last());
        assert(signal.drop_last().skip(1) =~= signal.skip(1).drop_last());
        assert(samples.drop_last().skip(1) =~= samples.skip(1).drop_last());
    }
}

/// The signal-to-noise ratio of a frame that an encoder made of a signal: the noise of the
/// decoded samples stays within what is tolerated, so that a signal with more than `ratio`
/// times that energy has more than `ratio` times the energy of the noise. A ratio of 100 is
/// 20 dB.
pub proof fn lemma_frame_signal_to_noise(frame: Seq<u8>, signal: Seq<i16>, ratio: nat)
    requires
        signal.len() > 0,
        be_i16(frame[3], frame[4]) == signal[0],
        nibbles_of(frame.skip(6)) == encoded(
            AdpcmDecoder::from_header(signal[0], frame[5]),
            signal.skip(1),
        ),
    ensures
        ({
            let d = AdpcmDecoder::from_header(signal[0], frame[5]);
            let samples = frame_samples(frame);
            &&& samples.len() == signal.len()
            &&& noise(signal, samples) <= tolerated_noise(d, signal.skip(1))
            &&& ratio * tolerated_noise(d, signal.skip(1)) < energy(signal) ==> ratio * noise(
                signal,
                samples,
            ) < energy(signal)
        }),
{
    let d = AdpcmDecoder::from_header(signal[0], frame[5]);
    let samples = frame_samples(frame);
    lemma_encoded_len(d, signal.skip(1));
    lemma_noise_is_bounded(d, signal.skip(1));
    assert(samples.skip(1) =~= d.samples(nibbles_of(frame.skip(6))));
    lemma_noise_from_the_front(signal, samples);
    let actual = noise(signal, samples);
    let most = tolerated_noise(d, signal.skip(1));
    assert(ratio * actual <= ratio * most) by (nonlinear_arith)
        requires
            actual <= most,
            ratio >= 0,
    ;
}

/// A signal in which no sample differs from the one before it by more than the threshold
/// passes the click removal unchanged.
pub proof fn lemma_declip_keeps_gradual(s: Seq<i16>)
    requires
        forall|i: int| 0 < i < s.len() ==> distance(#[trigger] s[i] as int, s[i - 1] as int)
            <= DECLIP_THRESHOLD,
    ensures
        declip_all(s) == s,
{
    assert forall|i: int| 0 <= i < s.len() implies declipped(s, i) == s[i] by {
        lemma_declip_keeps_gradual_at(s, i);
    }
    assert(declip_all(s) =~= s);
}

proof fn lemma_declip_keeps_gradual_at(s: Seq<i16>, i: int)
    requires
        forall|i: int| 0 < i < s.len() ==> distance(#[trigger] s[i] as int, s[i - 1] as int)
            <= DECLIP_THRESHOLD,
        0 <= i < s.len(),
    ensures
        declipped(s, i) == s[i],
    decreases i,
{
    if 0 < i < s.len() - 1 {
        lemma_declip_keeps_gradual_at(s, i - 1);
        assert(distance(s[i] as int, s[i - 1] as int) <= DECLIP_THRESHOLD);
    }
}

/// The click removal either keeps a sample or puts one in its place that lies between the
/// repaired sample before it and the sample after it.
pub proof fn lemma_declip_interpolates(s: Seq<i16>, i: int)
    requires
        0 <= i < s.len(),
    ensures
        declip_all(s).len() == s.len(),
        declip_all(s)[i] == s[i] || {
            let prev = declip_all(s)[i - 1];
            let next = s[i + 1];
            &&& 0 < i < s.len() - 1
            &&& is_spike(prev, s[i], next)
            &&& (prev <= declip_all(s)[i] <= next || next <= declip_all(s)[i] <= prev)
        },
        i == 0 || i == s.len() - 1 ==> declip_all(s)[i] == s[i],
{
}

/// A single spike between equal neighbours is replaced by the neighbours' value.
pub proof fn lemma_declip_removes_spike(s: Seq<i16>, i: int)
    requires
        0 < i < s.len() - 1,
        declip_all(s)[i - 1] == s[i + 1],
        distance(s[i] as int, s[i + 1] as int) > DECLIP_THRESHOLD,
    ensures
        declip_all(s)[i] == s[i + 1],
{
}

/// A constant signal passes the filter unchanged.
pub proof fn lemma_lowpass_keeps_constant(s: Seq<i16>, c: i16)
    requires
        forall|i: int| 0 <= i < s.len() ==> s[i] == c,
    ensures
        lowpass_all(s) == s,
{
    assert(lowpass_all(s) =~= s);
}

/// The filter leaves every sample within the range of the signal.
pub proof fn lemma_lowpass_within_range(s: Seq<i16>, lo: i16, hi: i16)
    requires
        forall|i: int| 0 <= i < s.len() ==> lo <= #[trigger] s[i] <= hi,
    ensures
        forall|i: int| 0 <= i < s.len() ==> lo <= #[trigger] lowpass_all(s)[i] <= hi,
{
    assert forall|i: int| 0 <= i < s.len() implies lo <= #[trigger] lowpass_all(s)[i] <= hi by {
        assert(lo <= s[i] <= hi);
        if 0 < i < s.len() - 1 {
            assert(lo <= s[i - 1] <= hi);
            assert(lo <= s[i + 1] <= hi);
        }
    }
}

/// The filter leaves the first and the last sample, and signals of less than three
/// samples, as they are.
pub proof fn lemma_lowpass_keeps_ends(s: Seq<i16>)
    ensures
        lowpass_all(s).len() == s.len(),
        s.len() > 0 ==> lowpass_all(s)[0] == s[0] && lowpass_all(s).last() == s.last(),
        s.len() < 3 ==> lowpass_all(s) == s,
{
    if s.len() < 3 {
        assert(lowpass_all(s) =~= s);
    }
}

/// A sample in place of a number that does not fit: the number itself within the range of
/// samples, and else the end of the range on its side.
pub proof fn lemma_clamped_to_samples(x: int)
    ensures
        -32768 <= x <= 32767 ==> clamped(x, -32768, 32767) == x,
        x > 32767 ==> clamped(x, -32768, 32767) == 32767,
        x < -32768 ==> clamped(x, -32768, 32767) == -32768,
{
}

/// The step sizes start at 7 and end at 32767, and each but the last is a tenth more than the
/// one before, but for 1 of rounding.
pub proof fn lemma_step_sizes_grow_by_a_tenth(i: int)
    requires
        0 <= i < 87,
    ensures
        STEP_TABLE[0] == 7,
        STEP_TABLE[88] == 32767,
        -10 <= 10 * STEP_TABLE[i + 1] - 11 * STEP_TABLE[i] <= 10,
{
}

/// The step sizes, one by one.
pub proof fn lemma_step_sizes()
    ensures
        STEP_TABLE@ == seq![
            7i32, 8, 9, 10, 11, 12, 13, 14, 16, 17, 19, 21, 23, 25, 28, 31, 34, 37, 41, 45, 50, 55,
            60, 66, 73, 80, 88, 97, 107, 118, 130, 143, 157, 173, 190, 209, 230, 253, 279, 307, 337,
            371, 408, 449, 494, 544, 598, 658, 724, 796, 876, 963, 1060, 1166, 1282, 1411, 1552,
            1707, 1878, 2066, 2272, 2499, 2749, 3024, 3327, 3660, 4026, 4428, 4871, 5358, 5894, 6484,
            7132, 7845, 8630, 9493, 10442, 11487, 12635, 13899, 15289, 16818, 18500, 20350, 22385,
            24623, 27086, 29794, 32767
        ],
{
}

/// How the step index moves: a nibble of magnitude 4, 5, 6 or 7 raises it by 2, 4, 6 or 8, and
/// a smaller one lowers it by 1, up to the ends of the table. Its sign plays no part.
pub proof fn lemma_step_index_moves(d: AdpcmDecoder, nibble: u8)
    requires
        d.wf(),
        nibble < 16,
    ensures
        ({
            let magnitude = if nibble >= 8 {
                nibble - 8
            } else {
                nibble as int
            };
            let before = d.step_index as int;
            let after = d.after(nibble).step_index as int;
            &&& magnitude <= 3 && before > 0 ==> after == before - 1
            &&& magnitude <= 3 && before == 0 ==> after == 0
            &&& magnitude >= 4 && before + 2 * magnitude - 6 <= 88 ==> after == before + 2
                * magnitude - 6
            &&& magnitude >= 4 && before + 2 * magnitude - 6 > 88 ==> after == 88
        }),
{
    let magnitude = if nibble >= 8 {
        nibble - 8
    } else {
        nibble as int
    };
    assert(nibble % 8 == magnitude);
    assert(INDEX_TABLE[0] == -1 && INDEX_TABLE[1] == -1 && INDEX_TABLE[2] == -1 && INDEX_TABLE[3]
        == -1);
    assert(INDEX_TABLE[4] == 2 && INDEX_TABLE[5] == 4 && INDEX_TABLE[6] == 6 && INDEX_TABLE[7]
        == 8);
}

/// How the predictor moves: up for a nibble below 8 and down for the others, by an eighth of
/// the step, and by the whole, a half and a quarter of it as its magnitude counts fours, twos
/// and ones, each rounded down. A sample that would leave the range stops at its end.
pub proof fn lemma_predictor_moves(d: AdpcmDecoder, nibble: u8)
    requires
        d.wf(),
        nibble < 16,
    ensures
        ({
            let magnitude = if nibble >= 8 {
                nibble - 8
            } else {
                nibble as int
            };
            let step = STEP_TABLE[d.step_index as int] as int;
            let size = step / 8 + (if magnitude >= 4 {
                step
            } else {
                0
            }) + (if magnitude == 2 || magnitude == 3 || magnitude == 6 || magnitude == 7 {
                step / 2
            } else {
                0
            }) + (if magnitude == 1 || magnitude == 3 || magnitude == 5 || magnitude == 7 {
                step / 4
            } else {
                0
            });
            let there = if nibble >= 8 {
                d.predictor - size
            } else {
                d.predictor + size
            };
            let after = d.after(nibble).predictor as int;
            &&& there > 32767 ==> after == 32767
            &&& there < -32768 ==> after == -32768
            &&& -32768 <= there <= 32767 ==> after == there
        }),
{
    lemma_step_table(d.step_index as int);
    let step = STEP_TABLE[d.step_index as int] as int;
    lemma_predictor_move(step, nibble);
}

proof fn lemma_predictor_move(step: int, nibble: u8)
    requires
        step >= 0,
        nibble < 16,
    ensures
        ({
            let magnitude = if nibble >= 8 {
                nibble - 8
            } else {
                nibble as int
            };
            let size = step / 8 + (if magnitude >= 4 {
                step
            } else {
                0
            }) + (if magnitude == 2 || magnitude == 3 || magnitude == 6 || magnitude == 7 {
                step / 2
            } else {
                0
            }) + (if magnitude == 1 || magnitude == 3 || magnitude == 5 || magnitude == 7 {
                step / 4
            } else {
                0
            });
            &&& nibble_delta(step, nibble) == (if nibble >= 8 {
                -size
            } else {
                size
            })
        }),
{
    if nibble >= 8 {
        assert((nibble / 8) % 2 == 1);
    } else {
        assert((nibble / 8) % 2 == 0);
    }
}

/// What a single nibble decodes to, and an empty string: together with the law on decoding in
/// parts this says what any string decodes to.
pub proof fn lemma_decoding_nibble_by_nibble(d: AdpcmDecoder, nibble: u8)
    ensures
        d.after_all(seq![]) == d,
        d.samples(seq![]) == Seq::<i16>::empty(),
        d.after_all(seq![nibble]) == d.after(nibble),
        d.samples(seq![nibble]) == seq![d.after(nibble).predictor],
{
    reveal_with_fuel(AdpcmDecoder::after_all, 2);
    assert(seq![nibble].drop_last() =~= seq![]);
    assert(seq![nibble].take(1) =~= seq![nibble]);
    assert(d.samples(seq![nibble]) =~= seq![d.after(nibble).predictor]);
    assert(d.samples(seq![]) =~= Seq::<i16>::empty());
}

/// A byte is its two nibbles, the high one first.
pub proof fn lemma_nibbles_make_bytes(bytes: Seq<u8>, i: int)
    requires
        0 <= i < bytes.len(),
    ensures
        nibbles_of(bytes).len() == 2 * bytes.len(),
        nibbles_of(bytes)[2 * i] < 16,
        nibbles_of(bytes)[2 * i + 1] < 16,
        16 * nibbles_of(bytes)[2 * i] + nibbles_of(bytes)[2 * i + 1] == bytes[i],
{
}

/// A header sets the predictor as it is, and a step index beyond the table counts as 88.
pub proof fn lemma_header_sets_state(predictor: i16, step_index: u8)
    ensures
        AdpcmDecoder::from_header(predictor, step_index).predictor == predictor,
        step_index <= 88 ==> AdpcmDecoder::from_header(predictor, step_index).step_index
            == step_index,
        step_index > 88 ==> AdpcmDecoder::from_header(predictor, step_index).step_index == 88,
{
}

/// An encoder of the IMA/DVI ADPCM standard. It keeps a predictor and a step index of its own.
pub struct ImaEncoder {
    pub predictor: int,
    pub step_index: int,
}

impl ImaEncoder {
    /// The nibble for the sample `x`.
    pub open spec fn pick(self, x: int) -> int {
        let step = STEP_TABLE[self.step_index] as int;
        let size = if x < self.predictor {
            self.predictor - x
        } else {
            x - self.predictor
        };
        let four = if size >= step {
            4int
        } else {
            0
        };
        let after_four = if size >= step {
            size - step
        } else {
            size
        };
        let two = if after_four >= step / 2 {
            2int
        } else {
            0
        };
        let after_two = if after_four >= step / 2 {
            after_four - step / 2
        } else {
            after_four
        };
        let one = if after_two >= step / 4 {
            1int
        } else {
            0
        };
        (if x < self.predictor {
            8int
        } else {
            0
        }) + four + two + one
    }

    /// The encoder once it has sent a nibble.
    pub open spec fn sent(self, nibble: int) -> ImaEncoder {
        let step = STEP_TABLE[self.step_index] as int;
        let magnitude = if nibble >= 8 {
            nibble - 8
        } else {
            nibble
        };
        let size = step / 8 + (if magnitude >= 4 {
            step
        } else {
            0
        }) + (if magnitude == 2 || magnitude == 3 || magnitude == 6 || magnitude == 7 {
            step / 2
        } else {
            0
        }) + (if magnitude == 1 || magnitude == 3 || magnitude == 5 || magnitude == 7 {
            step / 4
        } else {
            0
        });
        let there = if nibble >= 8 {
            self.predictor - size
        } else {
            self.predictor + size
        };
        let index = if magnitude >= 4 {
            self.step_index + 2 * magnitude - 6
        } else {
            self.step_index - 1
        };
        ImaEncoder {
            predictor: if there > 32767 {
                32767
            } else if there < -32768 {
                -32768
            } else {
                there
            },
            step_index: if index > 88 {
                88
            } else if index < 0 {
                0
            } else {
                index
            },
        }
    }

    /// The nibbles for a signal.
    pub open spec fn nibbles(self, signal: Seq<i16>) -> Seq<u8>
        decreases signal.len(),
    {
        if signal.len() == 0 {
            seq![]
        } else {
            let nibble = self.pick(signal[0] as int);
            seq![nibble as u8] + self.sent(nibble).nibbles(signal.skip(1))
        }
    }

    /// The encoder once it has sent a signal.
    pub open spec fn after(self, signal: Seq<i16>) -> ImaEncoder
        decreases signal.len(),
    {
        if signal.len() == 0 {
            self
        } else {
            self.sent(self.pick(signal[0] as int)).after(signal.skip(1))
        }
    }

    /// The predictor of the encoder after each sample: the samples that it takes the decoder to
    /// give.
    pub open spec fn expected(self, signal: Seq<i16>) -> Seq<i16>
        decreases signal.len(),
    {
        if signal.len() == 0 {
            seq![]
        } else {
            let next = self.sent(self.pick(signal[0] as int));
            seq![next.predictor as i16] + next.expected(signal.skip(1))
        }
    }
}

/// The decoder keeps step with an encoder of the standard: whatever the signal, it ends in the
/// encoder's state and gives the samples that the encoder takes it to give. The nibbles are
/// those that the decoder's own state calls for.
pub proof fn lemma_decoder_keeps_step(d: AdpcmDecoder, signal: Seq<i16>)
    requires
        d.wf(),
    ensures
        ({
            let e = ImaEncoder { predictor: d.predictor as int, step_index: d.step_index as int };
            let nibbles = e.nibbles(signal);
            let after = d.after_all(nibbles);
            &&& e.after(signal) == (ImaEncoder {
                predictor: after.predictor as int,
                step_index: after.step_index as int,
            })
            &&& d.samples(nibbles) == e.expected(signal)
            &&& nibbles.len() == signal.len()
        }),
    decreases signal.len(),
{
    let e = ImaEncoder { predictor: d.predictor as int, step_index: d.step_index as int };
    if signal.len() == 0 {
        lemma_decoding_nibble_by_nibble(d, 0);
    } else {
        lemma_step_table(d.step_index as int);
        let nibble = e.pick(signal[0] as int);
        assert(0 <= nibble < 16);
        lemma_encoder_and_decoder_step(d, nibble as u8);
        let next = d.after(nibble as u8);
        assert(e.sent(nibble) == (ImaEncoder {
            predictor: next.predictor as int,
            step_index: next.step_index as int,
        }));
        lemma_decoder_keeps_step(next, signal.skip(1));
        let rest = e.sent(nibble).nibbles(signal.skip(1));
        lemma_decoding_continues(d, seq![nibble as u8], rest);
        lemma_decoding_nibble_by_nibble(d, nibble as u8);
        assert(e.nibbles(signal) == seq![nibble as u8] + rest);
        assert(d.samples(e.nibbles(signal)) =~= e.expected(signal));
    }
}

proof fn lemma_encoder_and_decoder_step(d: AdpcmDecoder, nibble: u8)
    requires
        d.wf(),
        nibble < 16,
    ensures
        (ImaEncoder { predictor: d.predictor as int, step_index: d.step_index as int }).sent(
            nibble as int,
        ) == (ImaEncoder {
            predictor: d.after(nibble).predictor as int,
            step_index: d.after(nibble).step_index as int,
        }),
{
    lemma_predictor_moves(d, nibble);
    lemma_step_index_moves(d, nibble);
}

/// Where a frame keeps what: the first sample is the signed big-endian number in bytes 3 and 4,
/// and the others follow from it, the step index in byte 5 and the nibbles after the header.
/// Bytes 0 to 2 leave the samples alone.
pub proof fn lemma_frame_layout(frame: Seq<u8>, other: Seq<u8>)
    requires
        frame.len() >= 6,
        other.len() == frame.len(),
        other.skip(3) == frame.skip(3),
    ensures
        frame_samples(frame).len() == 1 + 2 * (frame.len() - 6),
        frame_samples(frame)[0] == (if frame[3] >= 128 {
            256 * frame[3] + frame[4] - 65536
        } else {
            256 * frame[3] + frame[4]
        }),
        frame_samples(frame).skip(1) == (AdpcmDecoder {
            predictor: frame_samples(frame)[0],
            step_index: if frame[5] > 88 {
                88
            } else {
                frame[5]
            },
        }).samples(nibbles_of(frame.subrange(6, frame.len() as int))),
        frame_samples(other) == frame_samples(frame),
{
    assert(frame.subrange(6, frame.len() as int) =~= frame.skip(6));
    assert(frame_samples(frame).skip(1) =~= AdpcmDecoder::from_header(
        be_i16(frame[3], frame[4]),
        frame[5],
    ).samples(nibbles_of(frame.skip(6))));
    assert(frame.skip(3)[0] == frame[3] && frame.skip(3)[1] == frame[4] && frame.skip(3)[2]
        == frame[5]);
    assert(other.skip(3)[0] == other[3] && other.skip(3)[1] == other[4] && other.skip(3)[2]
        == other[5]);
    assert(frame.skip(3).skip(3) =~= frame.skip(6));
    assert(other.skip(3).skip(3) =~= other.skip(6));
}

/// What a frame decodes to, sample by sample: each is where one nibble takes the sample before
/// it, so that samples depend on no byte that comes later.
pub proof fn lemma_frame_sample_by_sample(frame: Seq<u8>, k: int)
    requires
        frame.len() >= 6,
        0 <= k < 2 * (frame.len() - 6),
    ensures
        ({
            let start = AdpcmDecoder {
                predictor: frame_samples(frame)[0],
                step_index: if frame[5] > 88 {
                    88
                } else {
                    frame[5]
                },
            };
            let byte = frame[6 + k / 2];
            let nibble = if k % 2 == 0 {
                byte / 16
            } else {
                (byte % 16) as u8
            };
            let before = start.after_all(nibbles_of(frame.skip(6)).take(k));
            &&& frame_samples(frame)[k] == before.predictor
            &&& frame_samples(frame)[k + 1] == before.after(nibble).predictor
            &&& start.after_all(nibbles_of(frame.skip(6)).take(k + 1)) == before.after(nibble)
        }),
{
    let start = AdpcmDecoder::from_header(be_i16(frame[3], frame[4]), frame[5]);
    let nibbles = nibbles_of(frame.skip(6));
    assert(frame.skip(6)[k / 2] == frame[6 + k / 2]);
    assert(nibbles.take(k + 1).drop_last() =~= nibbles.take(k));
    assert(nibbles.take(k + 1).last() == nibbles[k]);
    assert(frame_samples(frame)[k + 1] == start.samples(nibbles)[k]);
    if k == 0 {
        assert(nibbles.take(0) =~= seq![]);
    } else {
        assert(frame_samples(frame)[k] == start.samples(nibbles)[k - 1]);
    }
}

/// What the click removal does to each sample, in numbers. A sample between two others that is
/// more than 1000 away from the repaired one before it and from the one after it, and more
/// than twice as far from each as they are from one another, gives way to the mean of the two,
/// rounded towards zero. Every other sample stays.
pub proof fn lemma_declip_replaces_spikes(s: Seq<i16>, i: int)
    requires
        0 <= i < s.len(),
    ensures
        declip_all(s).len() == s.len(),
        ({
            let abs = |x: int|
                if x < 0 {
                    -x
                } else {
                    x
                };
            let r = declip_all(s)[i] as int;
            if i == 0 || i == s.len() - 1 {
                r == s[i]
            } else {
                let prev = declip_all(s)[i - 1] as int;
                let cur = s[i] as int;
                let next = s[i + 1] as int;
                let apart = abs(next - prev);
                if abs(cur - prev) > 1000 && abs(cur - next) > 1000 && abs(cur - prev) > 2 * apart
                    && abs(cur - next) > 2 * apart {
                    if prev + next >= 0 {
                        2 * r == prev + next || 2 * r == prev + next - 1
                    } else {
                        2 * r == prev + next || 2 * r == prev + next + 1
                    }
                } else {
                    r == cur
                }
            }
        }),
{
}

/// What the filter does to each sample, in numbers: a quarter of the sum of the one before, the
/// one after and twice the sample itself, as they were before the filter, rounded down. The
/// first and the last sample stay.
pub proof fn lemma_lowpass_weighs_neighbours(s: Seq<i16>, i: int)
    requires
        0 <= i < s.len(),
    ensures
        lowpass_all(s).len() == s.len(),
        ({
            let r = lowpass_all(s)[i] as int;
            if i == 0 || i == s.len() - 1 {
                r == s[i]
            } else {
                4 * r <= s[i - 1] + 2 * s[i] + s[i + 1] < 4 * r + 4
            }
        }),
{
}

} // verus!
