//! The frames that wait to be sent to the client while a stream runs.
//!
//! A piece of the upstream's stream may come to several frames or to none. They go out
//! one by one, in the order in which they came up.

use crate::protocol;
use crate::upstream::labels;
use crate::upstream::usage::RequestTelemetry;
use crate::upstream::usage;
use std::collections::VecDeque;
use vstd::prelude::*;
use vstd::string::*;

verus! {

/// The frames that wait, and whether the upstream is at its end.
pub struct Pump {
    waiting: VecDeque<bytes::Bytes>,
    ended: bool,
}

/// The frames that wait, and whether the upstream is at its end.
#[verifier::ext_equal]
pub struct PumpV {
    pub waiting: Seq<bytes::Bytes>,
    pub ended: bool,
}

impl View for Pump {
    type V = PumpV;

    closed spec fn view(&self) -> PumpV {
        PumpV { waiting: self.waiting@, ended: self.ended }
    }
}

/// What is to be done next: give a frame to the client, ask the upstream, or end.
pub enum PumpStep {
    Give(bytes::Bytes),
    Ask,
    End,
}

/// The frames go out first; then the upstream is asked, until it is at its end.
pub open spec fn pump_step(p: PumpV) -> (PumpV, PumpStep) {
    if p.waiting.len() > 0 {
        (PumpV { waiting: p.waiting.skip(1), ..p }, PumpStep::Give(p.waiting[0]))
    } else if p.ended {
        (p, PumpStep::End)
    } else {
        (p, PumpStep::Ask)
    }
}

impl Pump {
    /// Nothing waits yet.
    pub fn new() -> (r: Pump)
        ensures
            r@ == (PumpV { waiting: Seq::empty(), ended: false }),
    {
        Pump { waiting: VecDeque::new(), ended: false }
    }

    /// What is to be done next.
    pub fn step(&mut self) -> (r: PumpStep)
        ensures
            (final(self)@, r) == pump_step(old(self)@),
    {
        match self.waiting.pop_front() {
            Some(frame) => {
                proof {
                    assert(self.waiting@ =~= old(self)@.waiting.skip(1));
                }
                PumpStep::Give(frame)
            },
            None => {
                proof {
                    assert(self@ =~= old(self)@);
                }
                if self.ended {
                    PumpStep::End
                } else {
                    PumpStep::Ask
                }
            },
        }
    }

    /// Frames that a piece of the stream has come to.
    pub fn add(&mut self, frames: Vec<bytes::Bytes>)
        ensures
            final(self)@ == (PumpV { waiting: old(self)@.waiting + frames@, ..old(self)@ }),
    {
        let ghost before = self.waiting@;
        let mut rest = frames;
        let mut other: VecDeque<bytes::Bytes> = VecDeque::new();
        let ghost all = rest@;
        while rest.len() > 0
            invariant
                rest@ + other@ == all,
            decreases rest@.len(),
        {
            let ghost was = rest@;
            let ghost tail = other@;
            if let Some(frame) = rest.pop() {
                other.push_front(frame);
                proof {
                    assert(rest@ + (seq![frame] + tail) =~= was + tail);
                }
            }
        }
        proof {
            assert(other@ =~= all);
        }
        self.waiting.append(&mut other);
    }

    /// The upstream is at its end; these frames close the stream.
    pub fn end(&mut self, frames: Vec<bytes::Bytes>)
        ensures
            final(self)@ == (PumpV { waiting: old(self)@.waiting + frames@, ended: true }),
    {
        self.add(frames);
        self.ended = true;
    }

    /// The upstream has broken off: what was held back goes out, then the frames that
    /// tell of it and close the stream.
    pub fn break_off(
        &mut self,
        telemetry: &mut RequestTelemetry,
        held_back: Vec<bytes::Bytes>,
        error: &str,
    )
        ensures
            final(telemetry)@ == usage::error_noted(old(telemetry)@, labels::interruption(error@)),
            final(self)@.ended,
            exists|last: Seq<bytes::Bytes>| #[trigger]
                protocol::wire(last, labels::interruption_frames(error@)) && final(self)@.waiting == old(
                    self,
                )@.waiting + held_back@ + last,
    {
        self.add(held_back);
        let last = labels::stream_interrupted(telemetry, error);
        let ghost frames = last@;
        self.end(last);
        assert(protocol::wire(frames, labels::interruption_frames(error@)));
    }
}

/// What the steps of a pump give to the client when nothing more is added: the frames
/// that wait, in their order, and then the upstream is asked or the stream ends.
pub open spec fn drained(p: PumpV) -> Seq<bytes::Bytes>
    decreases p.waiting.len(),
{
    match pump_step(p) {
        (next, PumpStep::Give(frame)) => if next.waiting.len() < p.waiting.len() {
            seq![frame] + drained(next)
        } else {
            Seq::empty()
        },
        _ => Seq::empty(),
    }
}

/// All frames that wait come out, each once and in their order.
pub proof fn frames_come_out_in_order(p: PumpV)
    ensures
        drained(p) == p.waiting,
    decreases p.waiting.len(),
{
    if p.waiting.len() > 0 {
        let next = PumpV { waiting: p.waiting.skip(1), ..p };
        frames_come_out_in_order(next);
        assert(seq![p.waiting[0]] + p.waiting.skip(1) =~= p.waiting);
    } else {
        assert(drained(p) =~= p.waiting);
    }
}

} // verus!
