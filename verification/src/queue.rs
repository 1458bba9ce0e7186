//! The transmit queue.
//!
//! The queue holds the backlog of encoded frames and a single
//! "transmission active" flag, and enforces at most one transmission in
//! flight. It is `Idle` (no pending frames, hardware silent) or
//! `Transmitting` (the front frame is the one being emitted). Sending while
//! idle hands the new frame's pulse train straight to the caller to start
//! emitting; sending while transmitting only appends. A completion
//! notification removes the front frame and, when more are pending, hands
//! back the next pulse train to start, so frames go out strictly in send
//! order and no completion is lost.
//!
//! Two contexts touch a queue: producers sending frames, and the
//! peripheral's completion notification. The queue defines the transitions;
//! the embedding must serialize the two contexts through one
//! mutual-exclusion mechanism, and perform each returned "start emitting"
//! action while it still holds that lock.

use vstd::prelude::*;

verus! {

use crate::pulses::{Pulse, Pulses, spec_pulses, spec_train};

/// The transmit queue: pending frames, the in-flight flag, and the pulse
/// set frames are emitted with.
pub struct Queue {
    /// Pending frames, front first; when transmitting, the front frame is
    /// the one in flight.
    pub pending: Vec<Vec<bool>>,
    /// Whether the hardware is currently emitting the front frame.
    pub transmitting: bool,
    /// Pulse encoder.
    pub pulses: Pulses,
}

impl Queue {
    /// The pending frames as bit strings, front first.
    pub open spec fn frames(self) -> Seq<Seq<bool>> {
        self.pending@.map_values(|f: Vec<bool>| f@)
    }

    /// The queue invariant: the hardware is emitting if and only if a front
    /// frame exists to be in flight.
    pub open spec fn wf(self) -> bool {
        self.transmitting <==> self.frames().len() > 0
    }

    /// Create a new, idle queue with the protocol's pulse set.
    pub fn new() -> (r: Queue)
        ensures
            r.wf(),
            r.frames() == Seq::<Seq<bool>>::empty(),
            !r.transmitting,
            r.pulses == spec_pulses(),
    {
        let q = Queue { pending: Vec::new(), transmitting: false, pulses: Pulses::new() };
        proof {
            assert(q.frames() =~= Seq::<Seq<bool>>::empty());
        }
        q
    }

    /// Send a packet: append it to the backlog. If the queue was idle, the
    /// packet becomes the frame in flight and its pulse train is returned
    /// for the caller to start emitting; otherwise the hardware is not
    /// touched.
    pub fn send(&mut self, packet: Vec<bool>) -> (start: Option<Vec<(Pulse, Pulse)>>)
        requires
            old(self).wf(),
        ensures
            final(self).wf(),
            final(self).pulses == old(self).pulses,
            final(self).frames() == old(self).frames().push(packet@),
            final(self).transmitting,
            old(self).transmitting ==> start is None,
            !old(self).transmitting ==> (start matches Some(t) && t@ == spec_train(
                old(self).pulses,
                packet@,
            )),
    {
        let was_transmitting = self.transmitting;
        let ghost packet_bits = packet@;
        self.pending.push(packet);
        proof {
            assert(self.frames() =~= old(self).frames().push(packet_bits));
        }
        if was_transmitting {
            None
        } else {
            self.transmitting = true;
            let train = self.pulses.encode_bits(&self.pending[0]);
            Some(train)
        }
    }

    /// Consume one completion notification: the front frame has finished
    /// emitting and is removed. When more frames are pending, the new front
    /// frame's pulse train is returned for the caller to start emitting;
    /// otherwise the queue falls idle. A notification reaching an idle
    /// queue is ignored.
    pub fn tick(&mut self) -> (start: Option<Vec<(Pulse, Pulse)>>)
        requires
            old(self).wf(),
        ensures
            final(self).wf(),
            final(self).pulses == old(self).pulses,
            !old(self).transmitting ==> *final(self) == *old(self) && start is None,
            old(self).transmitting ==> final(self).frames() == old(self).frames().drop_first(),
            old(self).transmitting && old(self).frames().len() > 1 ==> final(self).transmitting
                && (start matches Some(t) && t@ == spec_train(
                old(self).pulses,
                old(self).frames()[1],
            )),
            old(self).transmitting && old(self).frames().len() == 1 ==> !final(self).transmitting
                && start is None,
    {
        if !self.transmitting {
            return None;
        }
        self.pending.remove(0);
        proof {
            assert(self.frames() =~= old(self).frames().drop_first());
        }
        if self.pending.len() > 0 {
            let train = self.pulses.encode_bits(&self.pending[0]);
            Some(train)
        } else {
            self.transmitting = false;
            None
        }
    }

    /// Whether a transmission is in flight.
    pub fn is_transmitting(&self) -> (r: bool)
        ensures
            r == self.transmitting,
    {
        self.transmitting
    }

    /// How many frames are pending, the one in flight included.
    pub fn len(&self) -> (r: usize)
        ensures
            r == self.frames().len(),
    {
        self.pending.len()
    }
}

} // verus!
