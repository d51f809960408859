use vstd::prelude::*;

verus! {

/// A filled buffer that the audio callback is part way through.
pub struct PendingBuffer {
    pub buf: Vec<i32>,
    /// How many frames of `buf` have been handed to the device.
    pub consumed: usize,
}

/// The audio callback's side of the buffer exchange: the buffer it is playing, if any.
pub struct Playback {
    pub pending: Option<PendingBuffer>,
}

/// What `fill_from_pending` did: how many frames it wrote, and the buffer it used up,
/// which goes back to the queue of empty buffers.
pub struct FillOutcome {
    pub written: usize,
    pub finished: Option<Vec<i32>>,
}

/// The frames still to play of a pending buffer.
pub open spec fn remaining(p: Option<PendingBuffer>) -> int {
    match p {
        Some(p) => p.buf@.len() - p.consumed,
        None => 0,
    }
}

impl Playback {
    /// A pending buffer always has frames left to play.
    pub open spec fn valid(&self) -> bool {
        match self.pending {
            Some(p) => p.consumed < p.buf@.len(),
            None => true,
        }
    }

    /// A callback with no buffer in hand.
    pub fn new() -> (r: Playback)
        ensures
            r.valid(),
            r.pending is None,
    {
        Playback { pending: None }
    }

    /// Takes a freshly filled buffer as the one to play. An empty buffer has nothing to
    /// play and is handed straight back.
    pub fn start(&mut self, buf: Vec<i32>) -> (r: Option<Vec<i32>>)
        requires
            old(self).pending is None,
        ensures
            final(self).valid(),
            buf@.len() == 0 ==> (final(self).pending is None && (r matches Some(b) && b@ == buf@)),
            buf@.len() > 0 ==> (r is None && (final(self).pending matches Some(p) && p.buf@ == buf@ && p.consumed == 0)),
    {
        if buf.len() == 0 {
            Some(buf)
        } else {
            self.pending = Some(PendingBuffer { buf, consumed: 0 });
            None
        }
    }

    /// Copies the next frames of the pending buffer into `out`, from index `from`, at
    /// most `frames` of them. A buffer played to its end is given back in the outcome;
    /// one with frames left stays pending. With no pending buffer nothing is written.
    pub fn fill_from_pending(&mut self, out: &mut Vec<i32>, from: usize, frames: usize) -> (r: FillOutcome)
        requires
            old(self).valid(),
            from + frames <= old(out)@.len(),
        ensures
            final(self).valid(),
            final(out)@.len() == old(out)@.len(),
            r.written == if remaining(old(self).pending) < frames { remaining(old(self).pending) } else { frames as int },
            forall|i: int| 0 <= i < from || from + r.written <= i < old(out)@.len()
                ==> #[trigger] final(out)@[i] == old(out)@[i],
            old(self).pending matches Some(p) ==> forall|i: int| 0 <= i < r.written
                ==> #[trigger] final(out)@[from + i] == p.buf@[p.consumed + i],
            old(self).pending matches Some(p) ==> if p.consumed + r.written == p.buf@.len() {
                final(self).pending is None && (r.finished matches Some(b) && b@ == p.buf@)
            } else {
                r.finished is None && (final(self).pending matches Some(q) && q.buf@ == p.buf@
                    && q.consumed == p.consumed + r.written)
            },
            old(self).pending is None ==> final(self).pending is None && r.finished is None,
    {
        match self.pending.take() {
            None => FillOutcome { written: 0, finished: None },
            Some(pending) => {
                let left = pending.buf.len() - pending.consumed;
                let count = if left < frames { left } else { frames };
                let mut i: usize = 0;
                while i < count
                    invariant
                        count <= frames,
                        from + frames <= out@.len(),
                        out@.len() == old(out)@.len(),
                        pending.consumed + count <= pending.buf@.len(),
                        i <= count,
                        forall|j: int| 0 <= j < from || from + i <= j < out@.len() ==> #[trigger] out@[j] == old(out)@[j],
                        forall|j: int| 0 <= j < i ==> #[trigger] out@[from + j] == pending.buf@[pending.consumed + j],
                    decreases count - i,
                {
                    let out_len = out.len();
                    let buf_len = pending.buf.len();
                    assert(from + i < out_len);
                    assert(pending.consumed + i < buf_len);
                    out.set(from + i, pending.buf[pending.consumed + i]);
                    i = i + 1;
                }
                let consumed = pending.consumed + count;
                if consumed == pending.buf.len() {
                    FillOutcome { written: count, finished: Some(pending.buf) }
                } else {
                    self.pending = Some(PendingBuffer { buf: pending.buf, consumed });
                    FillOutcome { written: count, finished: None }
                }
            },
        }
    }
}

impl Playback {
    /// Completes a request of `frames` frames once the pending buffer has given the
    /// first `written` of them and is used up: plays the next frames from the buffer
    /// that arrived, if one did, and writes silence over whatever is still missing. The
    /// callback never waits: every frame of the request is written. Returns the
    /// arrived buffer if it was played to its end (or was empty), for the queue of
    /// empty buffers; a buffer with frames left stays pending.
    pub fn finish_request(
        &mut self,
        out: &mut Vec<i32>,
        written: usize,
        frames: usize,
        arrived: Option<Vec<i32>>,
    ) -> (r: Option<Vec<i32>>)
        requires
            old(self).pending is None,
            written <= frames <= old(out)@.len(),
        ensures
            final(self).valid(),
            final(out)@.len() == old(out)@.len(),
            forall|i: int| 0 <= i < written || frames <= i < old(out)@.len() ==> #[trigger] final(out)@[i] == old(out)@[i],
            ({
                let played = match arrived {
                    Some(b) => if b@.len() < frames - written { b@.len() as int } else { frames - written },
                    None => 0,
                };
                &&& forall|i: int| 0 <= i < played ==> #[trigger] final(out)@[written + i] == arrived->Some_0@[i]
                &&& forall|i: int| written + played <= i < frames ==> #[trigger] final(out)@[i] == 0
                &&& match arrived {
                    Some(b) => if played == b@.len() {
                        final(self).pending is None && (r matches Some(back) && back@ == b@)
                    } else {
                        r is None && (final(self).pending matches Some(p) && p.buf@ == b@ && p.consumed == played)
                    },
                    None => r is None && final(self).pending is None,
                }
            }),
    {
        match arrived {
            None => {
                fill_silence(out, written, frames);
                None
            },
            Some(buf) => {
                let ghost b = buf@;
                let returned = self.start(buf);
                match returned {
                    Some(empty) => {
                        fill_silence(out, written, frames);
                        Some(empty)
                    },
                    None => {
                        let outcome = self.fill_from_pending(out, written, frames - written);
                        fill_silence(out, written + outcome.written, frames);
                        outcome.finished
                    },
                }
            },
        }
    }
}

/// What `fill_request` hands back for the queue of empty buffers: the pending buffer if
/// it was played to its end, and the buffer that arrived if it was.
pub struct RequestOutcome {
    pub finished: Option<Vec<i32>>,
    pub arrived_finished: Option<Vec<i32>>,
}

impl Playback {
    /// Whether a request of `frames` frames needs a newly filled buffer: the pending one,
    /// if any, holds fewer frames than that.
    pub open spec fn needs_buffer(&self, frames: int) -> bool {
        remaining(self.pending) < frames
    }

    /// Whether a request of `frames` frames needs a newly filled buffer.
    pub fn needs_buffer_for(&self, frames: usize) -> (r: bool)
        requires
            self.valid(),
        ensures
            r == self.needs_buffer(frames as int),
    {
        match &self.pending {
            Some(p) => p.buf.len() - p.consumed < frames,
            None => 0 < frames,
        }
    }

    /// Answers a request of the device for `frames` frames, written into `out` from
    /// index 0, without waiting for anything: first the frames left in the pending
    /// buffer, then those of the buffer that arrived (offered only when the pending one
    /// falls short), then silence for whatever is still missing. Every frame of the
    /// request is written; the frames after it are left alone.
    pub fn fill_request(&mut self, out: &mut Vec<i32>, frames: usize, arrived: Option<Vec<i32>>) -> (r: RequestOutcome)
        requires
            old(self).valid(),
            frames <= old(out)@.len(),
            arrived is Some ==> old(self).needs_buffer(frames as int),
        ensures
            final(self).valid(),
            final(out)@.len() == old(out)@.len(),
            forall|i: int| frames <= i < old(out)@.len() ==> #[trigger] final(out)@[i] == old(out)@[i],
            ({
                let from_pending = if remaining(old(self).pending) < frames {
                    remaining(old(self).pending)
                } else {
                    frames as int
                };
                let from_arrived = match arrived {
                    Some(b) => if b@.len() < frames - from_pending { b@.len() as int } else { frames - from_pending },
                    None => 0,
                };
                &&& forall|i: int| 0 <= i < from_pending ==> #[trigger] final(out)@[i]
                    == old(self).pending->Some_0.buf@[old(self).pending->Some_0.consumed + i]
                &&& forall|i: int| 0 <= i < from_arrived ==> #[trigger] final(out)@[from_pending + i]
                    == arrived->Some_0@[i]
                &&& forall|i: int| from_pending + from_arrived <= i < frames ==> #[trigger] final(out)@[i] == 0
                &&& (old(self).pending matches Some(p) && p.consumed + from_pending == p.buf@.len())
                    ==> (r.finished matches Some(b) && b@ == old(self).pending->Some_0.buf@)
                &&& (arrived matches Some(b) && from_arrived == b@.len())
                    ==> (r.arrived_finished matches Some(back) && back@ == arrived->Some_0@)
            }),
    {
        let ghost before = self.pending;
        let first = self.fill_from_pending(out, 0, frames);
        proof {
            if before is Some {
                assert forall|i: int| 0 <= i < first.written implies #[trigger] out@[i]
                    == before->Some_0.buf@[before->Some_0.consumed + i] by {
                    assert(out@[0 + i] == before->Some_0.buf@[before->Some_0.consumed + i]);
                }
            }
        }
        if first.written < frames {
            let back = self.finish_request(out, first.written, frames, arrived);
            RequestOutcome { finished: first.finished, arrived_finished: back }
        } else {
            RequestOutcome { finished: first.finished, arrived_finished: None }
        }
    }
}

/// Writes silence into `out` over `[from, to)`, for frames that no buffer was ready for.
pub fn fill_silence(out: &mut Vec<i32>, from: usize, to: usize)
    requires
        from <= to <= old(out)@.len(),
    ensures
        final(out)@.len() == old(out)@.len(),
        forall|i: int| from <= i < to ==> #[trigger] final(out)@[i] == 0,
        forall|i: int| 0 <= i < from || to <= i < old(out)@.len() ==> #[trigger] final(out)@[i] == old(out)@[i],
{
    let mut i: usize = from;
    while i < to
        invariant
            from <= i <= to <= out@.len(),
            out@.len() == old(out)@.len(),
            forall|j: int| from <= j < i ==> #[trigger] out@[j] == 0,
            forall|j: int| 0 <= j < from || i <= j < out@.len() ==> #[trigger] out@[j] == old(out)@[j],
        decreases to - i,
    {
        out.set(i, 0);
        i = i + 1;
    }
}

/// How a bounded, non-blocking send went.
#[derive(Clone, Copy, Debug, PartialEq, Eq, Structural)]
pub enum SendOutcome {
    Sent,
    Full,
    Disconnected,
}

/// What a loop does next.
#[derive(Clone, Copy, Debug, PartialEq, Eq, Structural)]
pub enum LoopAction {
    /// Go on with the next request.
    Continue,
    /// The other side has shut down: leave the loop quietly.
    Exit,
    /// A queue that the pool size keeps from filling was full: an invariant is broken.
    Fail,
}

/// The render thread after handing a filled buffer on: a full queue of filled buffers
/// cannot happen while the pool holds no more buffers than the queue does, so it is
/// fatal; a closed queue means shutdown.
pub fn after_filled_send(outcome: SendOutcome) -> (r: LoopAction)
    ensures
        outcome == SendOutcome::Sent ==> r == LoopAction::Continue,
        outcome == SendOutcome::Full ==> r == LoopAction::Fail,
        outcome == SendOutcome::Disconnected ==> r == LoopAction::Exit,
{
    match outcome {
        SendOutcome::Sent => LoopAction::Continue,
        SendOutcome::Full => LoopAction::Fail,
        SendOutcome::Disconnected => LoopAction::Exit,
    }
}

/// The event source after offering a note event: a full queue drops the event and the
/// source goes on, for it must never wait on the renderer; a closed queue means
/// shutdown.
pub fn after_event_send(outcome: SendOutcome) -> (r: LoopAction)
    ensures
        outcome == SendOutcome::Disconnected ==> r == LoopAction::Exit,
        outcome != SendOutcome::Disconnected ==> r == LoopAction::Continue,
{
    match outcome {
        SendOutcome::Disconnected => LoopAction::Exit,
        _ => LoopAction::Continue,
    }
}

} // verus!
