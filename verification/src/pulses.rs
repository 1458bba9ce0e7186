//! Mapping bit sequences onto timed high/low pulse pairs.
//!
//! A frame is emitted as one synchronization pulse pair followed by one
//! pulse pair per bit. Durations are protocol constants in microseconds:
//! the sync marker is 1400 high / 800 low, a one bit is 800 high / 300 low,
//! and a zero bit is 300 high / 800 low. The long-high sync pair is not
//! reachable by any data bit, which is what lets a receiver find the frame
//! start. The output peripheral rounds each duration to its nearest
//! hardware tick; receivers decode by thresholds, so that rounding error
//! does not affect which bit a pulse pair names.

use vstd::prelude::*;

verus! {

/// One timed level on the output line: `high` while `micros` elapse.
#[derive(Debug, Clone, Copy, PartialEq, Eq, Structural)]
pub struct Pulse {
    /// Whether the line is held high.
    pub high: bool,
    /// How long the line is held, in microseconds.
    pub micros: u32,
}

/// The pulse pairs used to encode bits.
#[derive(Debug, Clone, Copy, PartialEq, Eq, Structural)]
pub struct Pulses {
    /// High half of the synchronization marker.
    pub sync_high: Pulse,
    /// Low half of the synchronization marker.
    pub sync_low: Pulse,
    /// High half of a one bit.
    pub one_high: Pulse,
    /// Low half of a one bit.
    pub one_low: Pulse,
    /// High half of a zero bit.
    pub zero_high: Pulse,
    /// Low half of a zero bit.
    pub zero_low: Pulse,
}

/// The protocol's pulse set.
pub open spec fn spec_pulses() -> Pulses {
    Pulses {
        sync_high: Pulse { high: true, micros: 1400 },
        sync_low: Pulse { high: false, micros: 800 },
        one_high: Pulse { high: true, micros: 800 },
        one_low: Pulse { high: false, micros: 300 },
        zero_high: Pulse { high: true, micros: 300 },
        zero_low: Pulse { high: false, micros: 800 },
    }
}

/// The pulse train for `bits` under the pulse set `p`: the sync pair, then
/// one (high, low) pair per bit in frame order.
pub open spec fn spec_train(p: Pulses, bits: Seq<bool>) -> Seq<(Pulse, Pulse)> {
    seq![(p.sync_high, p.sync_low)] + Seq::new(
        bits.len(),
        |i: int|
            if bits[i] {
                (p.one_high, p.one_low)
            } else {
                (p.zero_high, p.zero_low)
            },
    )
}

impl Pulses {
    /// Create the protocol's pulse set.
    pub fn new() -> (r: Pulses)
        ensures
            r == spec_pulses(),
    {
        Pulses {
            sync_high: Pulse { high: true, micros: 1400 },
            sync_low: Pulse { high: false, micros: 800 },
            one_high: Pulse { high: true, micros: 800 },
            one_low: Pulse { high: false, micros: 300 },
            zero_high: Pulse { high: true, micros: 300 },
            zero_low: Pulse { high: false, micros: 800 },
        }
    }

    /// Encode a vector of bits into a pulse train: the sync pair followed by
    /// one pair per bit.
    pub fn encode_bits(&self, bits: &Vec<bool>) -> (r: Vec<(Pulse, Pulse)>)
        ensures
            r@ == spec_train(*self, bits@),
            r@.len() == 1 + bits@.len(),
    {
        let mut signal: Vec<(Pulse, Pulse)> = Vec::new();
        signal.push((self.sync_high, self.sync_low));
        for index in 0..bits.len()
            invariant
                signal@ == spec_train(*self, bits@).take(1 + index as int),
        {
            if bits[index] {
                signal.push((self.one_high, self.one_low));
            } else {
                signal.push((self.zero_high, self.zero_low));
            }
            proof {
                assert(signal@ =~= spec_train(*self, bits@).take(1 + index as int + 1));
            }
        }
        proof {
            assert(signal@ =~= spec_train(*self, bits@));
        }
        signal
    }
}

/// The synchronization pair is distinguished: no data bit's pulse pair
/// matches it.
pub proof fn lemma_sync_marker_distinct(bits: Seq<bool>, i: int)
    requires
        0 <= i < bits.len(),
    ensures
        spec_train(spec_pulses(), bits)[1 + i] != spec_train(spec_pulses(), bits)[0],
{
}

} // verus!
