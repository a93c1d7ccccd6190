//! The event loop's decision logic: what one retrieval outcome means for the
//! loop (yield a typed event, skip the message, or stop), and what a whole run
//! over a trace of retrieval outcomes yields. The blocking retrieval call
//! itself lives outside the library; it hands each outcome to these functions.

use vstd::prelude::*;

use crate::events::WtsState;
use crate::events::decode_spec;

verus! {

/// One message as the OS queue delivers it. Only `w_param` (the payload code)
/// is consumed by the decoder; the other fields are carried through opaquely.
#[derive(Clone, Copy, Debug, PartialEq, Eq, Structural)]
pub struct RawMessage {
    /// The window the message is addressed to.
    pub window: usize,
    /// The message-type code.
    pub message: u32,
    /// The numeric payload; for a session-change message, the event code.
    pub w_param: usize,
    /// The auxiliary numeric field.
    pub l_param: isize,
    /// The time the message was posted.
    pub time: i32,
    /// Cursor position at post time.
    pub point_x: i32,
    /// Cursor position at post time.
    pub point_y: i32,
    /// Reserved by the OS.
    pub reserved: i32,
}

/// The outcome of one blocking retrieval from the message queue.
#[derive(Clone, Copy, Debug, PartialEq, Eq, Structural)]
pub enum Retrieval {
    /// A message arrived.
    Delivered(RawMessage),
    /// Retrieval reported termination: the queue signalled quit.
    Quit,
    /// Retrieval itself failed; the loop ends without raising further.
    Failed,
}

/// What the loop does with one retrieval outcome.
#[derive(Clone, Copy, Debug, PartialEq, Eq, Structural)]
pub enum LoopStep {
    /// Hand this typed event to the caller as the next sequence element.
    Yield(WtsState),
    /// The message carried no recognized event code: skip it and retrieve again.
    Skip,
    /// Retrieval signalled termination or failure: the sequence ends here.
    Stop,
}

/// How a finite run over a retrieval trace ended.
#[derive(Clone, Copy, Debug, PartialEq, Eq, Structural)]
pub enum LoopExit {
    /// The queue signalled quit: the loop exited without error.
    Graceful,
    /// Retrieval reported a hard failure: the loop exited after logging it.
    Faulted,
    /// The finite trace ran out with no termination signal (a live queue would
    /// block for the next message instead).
    Exhausted,
}

/// The loop's decision for one retrieval outcome.
pub open spec fn step_spec(r: Retrieval) -> LoopStep {
    match r {
        Retrieval::Delivered(m) => match decode_spec(m.w_param) {
            Some(state) => LoopStep::Yield(state),
            None => LoopStep::Skip,
        },
        Retrieval::Quit => LoopStep::Stop,
        Retrieval::Failed => LoopStep::Stop,
    }
}

/// The events a run over the trace `rs` yields, in arrival order: each
/// delivered message with a recognized payload contributes its event, an
/// unrecognized payload contributes nothing, and the first termination or
/// failure ends the run.
pub open spec fn events_of(rs: Seq<Retrieval>) -> Seq<WtsState>
    decreases rs.len(),
{
    if rs.len() == 0 {
        Seq::empty()
    } else {
        match step_spec(rs[0]) {
            LoopStep::Yield(state) => seq![state] + events_of(rs.drop_first()),
            LoopStep::Skip => events_of(rs.drop_first()),
            LoopStep::Stop => Seq::empty(),
        }
    }
}

/// How a run over the trace `rs` ends: with the first quit or failure it
/// meets, or by exhausting the finite trace.
pub open spec fn exit_of(rs: Seq<Retrieval>) -> LoopExit
    decreases rs.len(),
{
    if rs.len() == 0 {
        LoopExit::Exhausted
    } else {
        match rs[0] {
            Retrieval::Delivered(_) => exit_of(rs.drop_first()),
            Retrieval::Quit => LoopExit::Graceful,
            Retrieval::Failed => LoopExit::Faulted,
        }
    }
}

/// Decide what to do with one retrieval outcome.
pub fn loop_step(r: &Retrieval) -> (s: LoopStep)
    ensures
        s == step_spec(*r),
{
    match r {
        Retrieval::Delivered(m) => match WtsState::try_from(m.w_param) {
            Ok(state) => LoopStep::Yield(state),
            Err(_) => LoopStep::Skip,
        },
        Retrieval::Quit => LoopStep::Stop,
        Retrieval::Failed => LoopStep::Stop,
    }
}

/// A run over a trace splits at any point it has not yet stopped: the events
/// are those of the prefix followed by those of the rest, and the exit is
/// decided by the rest alone.
pub proof fn lemma_run_split(rs: Seq<Retrieval>, i: int)
    requires
        0 <= i <= rs.len(),
        forall|j: int| 0 <= j < i ==> rs[j] is Delivered,
    ensures
        events_of(rs) == events_of(rs.take(i)) + events_of(rs.skip(i)),
        exit_of(rs) == exit_of(rs.skip(i)),
    decreases i,
{
    if i == 0 {
        assert(rs.skip(0) =~= rs);
        assert(rs.take(0) =~= Seq::<Retrieval>::empty());
        assert(events_of(rs.take(0)) + events_of(rs.skip(0)) =~= events_of(rs));
    } else {
        let rest = rs.drop_first();
        assert(rs[0] is Delivered);
        assert(forall|j: int| 0 <= j < i - 1 ==> rest[j] == rs[j + 1] && rest[j] is Delivered);
        lemma_run_split(rest, i - 1);
        assert(rest.take(i - 1) =~= rs.take(i).drop_first());
        assert(rest.skip(i - 1) =~= rs.skip(i));
        assert(rs.take(i)[0] == rs[0]);
        match step_spec(rs[0]) {
            LoopStep::Yield(state) => {
                assert(events_of(rs) == seq![state] + events_of(rest));
                assert(events_of(rs.take(i)) == seq![state] + events_of(rest.take(i - 1)));
                assert(seq![state] + (events_of(rest.take(i - 1)) + events_of(rs.skip(i))) =~= (
                seq![state] + events_of(rest.take(i - 1))) + events_of(rs.skip(i)));
            },
            LoopStep::Skip => {
                assert(events_of(rs) == events_of(rest));
                assert(events_of(rs.take(i)) == events_of(rest.take(i - 1)));
            },
            LoopStep::Stop => {
                assert(false);
            },
        }
    }
}

/// Run the loop over a finite trace of retrieval outcomes: yield the decoded
/// event of every delivered, recognized message in arrival order, skip the
/// unrecognized ones, and stop at the first termination or failure.
pub fn collect_events(retrievals: &Vec<Retrieval>) -> (r: (Vec<WtsState>, LoopExit))
    ensures
        r.0@ == events_of(retrievals@),
        r.1 == exit_of(retrievals@),
{
    let rs = retrievals;
    let mut events: Vec<WtsState> = Vec::new();
    let mut outcome: Option<LoopExit> = None;
    let mut i: usize = 0;
    while i < rs.len() && outcome.is_none()
        invariant
            0 <= i <= rs@.len(),
            outcome is None ==> forall|j: int| 0 <= j < i ==> rs@[j] is Delivered,
            outcome is None ==> events@ == events_of(rs@.take(i as int)),
            outcome matches Some(e) ==> events@ == events_of(rs@) && e == exit_of(rs@),
        decreases rs@.len() - i,
    {
        proof {
            let here = seq![rs@[i as int]];
            lemma_run_split(rs@.take(i + 1), i as int);
            assert(rs@.take(i + 1).take(i as int) =~= rs@.take(i as int));
            assert(rs@.take(i + 1).skip(i as int) =~= here);
            assert(here.drop_first() =~= Seq::<Retrieval>::empty());
            assert(events_of(here.drop_first()) == Seq::<WtsState>::empty());
            assert(here[0] == rs@[i as int]);
        }
        match loop_step(&rs[i]) {
            LoopStep::Yield(state) => {
                proof {
                    let here = seq![rs@[i as int]];
                    assert(step_spec(here[0]) == LoopStep::Yield(state));
                    assert(events_of(here) == seq![state] + events_of(here.drop_first()));
                    assert(events_of(here) =~= seq![state]);
                    assert(events_of(rs@.take(i + 1)) =~= events@.push(state));
                }
                events.push(state);
            },
            LoopStep::Skip => {
                proof {
                    let here = seq![rs@[i as int]];
                    assert(step_spec(here[0]) == LoopStep::Skip);
                    assert(events_of(here) == events_of(here.drop_first()));
                    assert(events_of(rs@.take(i + 1)) =~= events@);
                }
            },
            LoopStep::Stop => {
                proof {
                    lemma_run_split(rs@, i as int);
                    assert(rs@.skip(i as int)[0] == rs@[i as int]);
                    assert(events_of(rs@.take(i as int)) + events_of(rs@.skip(i as int)) =~= events@);
                }
                let exit = match &rs[i] {
                    Retrieval::Quit => LoopExit::Graceful,
                    _ => LoopExit::Faulted,
                };
                outcome = Some(exit);
            },
        }
        i = i + 1;
    }
    match outcome {
        Some(exit) => (events, exit),
        None => {
            proof {
                lemma_run_split(rs@, i as int);
                assert(rs@.take(i as int) =~= rs@);
                assert(rs@.skip(i as int) =~= Seq::<Retrieval>::empty());
            }
            (events, LoopExit::Exhausted)
        },
    }
}

/// An undecodable message is skipped without a trace: a run whose trace starts
/// with it yields exactly what the rest of the trace yields, and ends the same
/// way — the loop continues past the failure.
pub proof fn lemma_unrecognized_skipped(m: RawMessage, rest: Seq<Retrieval>)
    requires
        decode_spec(m.w_param) is None,
    ensures
        events_of(seq![Retrieval::Delivered(m)] + rest) == events_of(rest),
        exit_of(seq![Retrieval::Delivered(m)] + rest) == exit_of(rest),
{
    let rs = seq![Retrieval::Delivered(m)] + rest;
    assert(rs[0] == Retrieval::Delivered(m));
    assert(rs.drop_first() =~= rest);
}

/// A recognized message is yielded first: a run whose trace starts with it
/// yields its event followed by what the rest of the trace yields.
pub proof fn lemma_recognized_yielded(m: RawMessage, state: WtsState, rest: Seq<Retrieval>)
    requires
        decode_spec(m.w_param) == Some(state),
    ensures
        events_of(seq![Retrieval::Delivered(m)] + rest) == seq![state] + events_of(rest),
        exit_of(seq![Retrieval::Delivered(m)] + rest) == exit_of(rest),
{
    let rs = seq![Retrieval::Delivered(m)] + rest;
    assert(rs[0] == Retrieval::Delivered(m));
    assert(rs.drop_first() =~= rest);
}

/// Arrival order is preserved: over a trace whose every element delivers a
/// message with a recognized payload, the run yields one event per message,
/// and the event at each position is the decoding of the message at that
/// same position.
pub proof fn lemma_order_preserved(rs: Seq<Retrieval>)
    requires
        forall|j: int|
            0 <= j < rs.len() ==> rs[j] is Delivered && decode_spec(rs[j]->Delivered_0.w_param)
                is Some,
    ensures
        events_of(rs).len() == rs.len(),
        forall|j: int|
            0 <= j < rs.len() ==> Some(events_of(rs)[j]) == decode_spec(
                rs[j]->Delivered_0.w_param,
            ),
    decreases rs.len(),
{
    if rs.len() > 0 {
        let rest = rs.drop_first();
        assert(forall|j: int| 0 <= j < rest.len() ==> rest[j] == rs[j + 1]);
        lemma_order_preserved(rest);
        assert(rs[0] is Delivered);
        let state = decode_spec(rs[0]->Delivered_0.w_param)->Some_0;
        assert(step_spec(rs[0]) == LoopStep::Yield(state));
        assert(events_of(rs) == seq![state] + events_of(rest));
        assert(forall|j: int|
            1 <= j < rs.len() ==> events_of(rs)[j] == events_of(rest)[j - 1]);
    }
}

} // verus!
