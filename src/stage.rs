use vstd::prelude::*;
use bytes::Bytes;

verus! {

/// Declares `bytes::Bytes`, the chunk type that the sockets' codec yields.
/// Nothing is assumed of it: the stages never look inside a chunk, they hand
/// it on as it came.
#[verifier::external_type_specification]
#[verifier::external_body]
pub struct ExBytes(Bytes);

/// What a toxic stage observes next.
#[derive(Debug)]
pub enum StageEvent {
    /// A chunk of bytes arrived on the input.
    Chunk(Bytes),
    /// The input has ended.
    InputEnded,
    /// The stage's cancellation signal fired.
    Stopped,
    /// Writing the last forwarded chunk to the output failed.
    WriteFailed,
}

/// What the driver of a stage does next.
#[derive(Debug)]
pub enum StageAction {
    /// Write this chunk to the output, then wait for the next event.
    Forward(Bytes),
    /// Wait `delay_ms` milliseconds, then report completion: an error when
    /// `failed`, success otherwise.
    Complete { delay_ms: u64, failed: bool },
}

/// The pass-through stage's answer to one event.
pub open spec fn noop_action(ev: StageEvent) -> StageAction {
    match ev {
        StageEvent::Chunk(c) => StageAction::Forward(c),
        _ => StageAction::Complete { delay_ms: 0, failed: false },
    }
}

/// The pass-through stage forwards each chunk unchanged; it completes at once,
/// with success, when its input ends, when its output can no longer be
/// written, or when its cancellation signal fires.
pub fn noop_step(event: StageEvent) -> (r: StageAction)
    ensures
        r == noop_action(event),
{
    match event {
        StageEvent::Chunk(c) => StageAction::Forward(c),
        StageEvent::Stopped => StageAction::Complete { delay_ms: 0, failed: false },
        StageEvent::InputEnded => StageAction::Complete { delay_ms: 0, failed: false },
        StageEvent::WriteFailed => StageAction::Complete { delay_ms: 0, failed: false },
    }
}

/// The delayed-close stage: it forwards chunks unchanged and, once its input
/// ends, it is stopped or a write fails, waits `delay` milliseconds before
/// completing.
#[derive(Debug, Clone, Copy, PartialEq, Eq, Structural)]
pub struct SlowClose {
    /// Milliseconds to wait before completing.
    pub delay: u64,
    /// Whether a write to the output has failed so far.
    pub write_failed: bool,
}

/// The delayed-close stage's answer to one event, from the state `s`.
pub open spec fn slow_close_action(s: SlowClose, ev: StageEvent) -> StageAction {
    match ev {
        StageEvent::Chunk(c) => StageAction::Forward(c),
        StageEvent::WriteFailed => StageAction::Complete { delay_ms: s.delay, failed: true },
        _ => StageAction::Complete { delay_ms: s.delay, failed: s.write_failed },
    }
}

/// The delayed-close stage's state after one event: a failed write is recorded.
pub open spec fn slow_close_next(s: SlowClose, ev: StageEvent) -> SlowClose {
    match ev {
        StageEvent::WriteFailed => SlowClose { delay: s.delay, write_failed: true },
        _ => s,
    }
}

impl SlowClose {
    /// A stage that delays its completion by `delay` milliseconds.
    pub fn new(delay: u64) -> (r: Self)
        ensures
            r == (SlowClose { delay, write_failed: false }),
    {
        SlowClose { delay, write_failed: false }
    }

    /// Answers one event. The end of the input, the stop signal and a failed
    /// write all end forwarding and lead to the delay; a failed write is
    /// recorded and makes the completion an error.
    pub fn step(&mut self, event: StageEvent) -> (r: StageAction)
        ensures
            r == slow_close_action(*old(self), event),
            *final(self) == slow_close_next(*old(self), event),
    {
        match event {
            StageEvent::Chunk(c) => StageAction::Forward(c),
            StageEvent::WriteFailed => {
                self.write_failed = true;
                StageAction::Complete { delay_ms: self.delay, failed: true }
            },
            StageEvent::InputEnded => StageAction::Complete { delay_ms: self.delay, failed: self.write_failed },
            StageEvent::Stopped => StageAction::Complete { delay_ms: self.delay, failed: self.write_failed },
        }
    }
}

/// What a stage has produced after a run of events.
pub struct StageRun {
    /// The chunks written to the output, in order.
    pub forwarded: Seq<Bytes>,
    /// The completion reported, as (delay in milliseconds, failed), if any.
    pub completion: Option<(u64, bool)>,
}

/// Adds `c` in front of what `r` forwarded.
pub open spec fn forwarded_first(c: Bytes, r: StageRun) -> StageRun {
    StageRun { forwarded: seq![c] + r.forwarded, completion: r.completion }
}

/// Feeds `evs` to the pass-through stage until it completes.
pub open spec fn run_noop(evs: Seq<StageEvent>) -> StageRun
    decreases evs.len(),
{
    if evs.len() == 0 {
        StageRun { forwarded: seq![], completion: None }
    } else {
        match noop_action(evs[0]) {
            StageAction::Forward(c) => forwarded_first(c, run_noop(evs.drop_first())),
            StageAction::Complete { delay_ms, failed } => StageRun {
                forwarded: seq![],
                completion: Some((delay_ms, failed)),
            },
        }
    }
}

/// Feeds `evs` to the delayed-close stage, from the state `s`, until it completes.
pub open spec fn run_slow_close(s: SlowClose, evs: Seq<StageEvent>) -> StageRun
    decreases evs.len(),
{
    if evs.len() == 0 {
        StageRun { forwarded: seq![], completion: None }
    } else {
        let next = slow_close_next(s, evs[0]);
        match slow_close_action(s, evs[0]) {
            StageAction::Forward(c) => forwarded_first(c, run_slow_close(next, evs.drop_first())),
            StageAction::Complete { delay_ms, failed } => StageRun {
                forwarded: seq![],
                completion: Some((delay_ms, failed)),
            },
        }
    }
}

/// The events of a input that delivers `chunks` one by one.
pub open spec fn chunk_events(chunks: Seq<Bytes>) -> Seq<StageEvent> {
    chunks.map_values(|c: Bytes| StageEvent::Chunk(c))
}

/// The pass-through stage writes out exactly the chunks that came in, same
/// bytes and same boundaries, and completes with success when the input ends.
pub proof fn lemma_noop_forwards_all(chunks: Seq<Bytes>)
    ensures
        run_noop(chunk_events(chunks).push(StageEvent::InputEnded))
            == (StageRun { forwarded: chunks, completion: Some((0u64, false)) }),
    decreases chunks.len(),
{
    let evs = chunk_events(chunks).push(StageEvent::InputEnded);
    if chunks.len() > 0 {
        lemma_noop_forwards_all(chunks.drop_first());
        assert(evs.drop_first() =~= chunk_events(chunks.drop_first()).push(StageEvent::InputEnded));
        assert(chunks =~= seq![chunks[0]] + chunks.drop_first());
    } else {
        assert(evs[0] == StageEvent::InputEnded);
        assert(chunks =~= seq![]);
    }
}

/// The delayed-close stage, given delay `delay`, forwards every chunk that
/// came in before its input ended, its signal stopped it or a write failed
/// (`last` is one of the three), and then completes only after that delay:
/// with an error when a write failed, with success otherwise. Forwarding ends
/// at `last`: what comes after it is never read.
pub proof fn lemma_slow_close_delays_completion(
    delay: u64,
    chunks: Seq<Bytes>,
    last: StageEvent,
    rest: Seq<StageEvent>,
)
    requires
        last is InputEnded || last is Stopped || last is WriteFailed,
    ensures
        run_slow_close(SlowClose { delay, write_failed: false }, chunk_events(chunks).push(last) + rest)
            == (StageRun { forwarded: chunks, completion: Some((delay, last is WriteFailed)) }),
    decreases chunks.len(),
{
    let s = SlowClose { delay, write_failed: false };
    let evs = chunk_events(chunks).push(last) + rest;
    if chunks.len() > 0 {
        lemma_slow_close_delays_completion(delay, chunks.drop_first(), last, rest);
        assert(evs.drop_first() =~= chunk_events(chunks.drop_first()).push(last) + rest);
        assert(evs[0] == StageEvent::Chunk(chunks[0]));
        assert(chunks =~= seq![chunks[0]] + chunks.drop_first());
    } else {
        assert(evs[0] == last);
        assert(chunks =~= seq![]);
    }
}

} // verus!
