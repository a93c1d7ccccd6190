//! The registration lifecycle: a notification target is created once, bound to
//! the session-notification service exactly once, and unbound exactly once
//! after the event loop has stopped. The state machine here makes any other
//! order unmeetable, and a proof shows that every valid run reaches the states
//! in that order.

use vstd::prelude::*;

use crate::errors::Error;
use crate::errors::map_code_spec;
use crate::target::WindowHandle;

verus! {

/// Where a run stands in the lifecycle of its notification target.
#[derive(Clone, Copy, Debug, PartialEq, Eq, Structural)]
pub enum Stage {
    /// No window handle exists yet.
    NoTarget,
    /// A valid handle exists; nothing is registered for it.
    TargetCreated,
    /// The handle is registered with the session-notification service.
    Registered,
    /// The handle's registration has been released; the run is over.
    Unregistered,
}

/// The lifecycle's transition relation: a step either stands still or takes
/// the single allowed edge out of its stage.
pub open spec fn step_allowed(pre: Stage, post: Stage) -> bool {
    ||| post == pre
    ||| (pre is NoTarget && post is TargetCreated)
    ||| (pre is TargetCreated && post is Registered)
    ||| (pre is Registered && post is Unregistered)
}

/// A run's recorded stages: it starts with no target and every step is an
/// allowed transition.
pub open spec fn valid_trace(t: Seq<Stage>) -> bool {
    &&& t.len() > 0
    &&& t[0] is NoTarget
    &&& forall|i: int| 0 <= i < t.len() - 1 ==> step_allowed(#[trigger] t[i], t[i + 1])
}

/// Extending a valid trace by one allowed step keeps it valid.
proof fn lemma_trace_extend(t: Seq<Stage>, next: Stage)
    requires
        valid_trace(t),
        step_allowed(t.last(), next),
    ensures
        valid_trace(t.push(next)),
{
    let t2 = t.push(next);
    assert(t2[0] == t[0]);
    assert forall|i: int| 0 <= i < t2.len() - 1 implies step_allowed(#[trigger] t2[i], t2[i + 1]) by {
        if i < t.len() - 1 {
            assert(t2[i] == t[i] && t2[i + 1] == t[i + 1]);
        } else {
            assert(t2[i] == t.last() && t2[i + 1] == next);
        }
    }
}

/// The lifecycle of one notification target, recorded as it is driven. The
/// stages it has passed through are kept as a ghost trace, so what the trace
/// lemmas below say holds of every run that the type admits.
pub struct Lifecycle {
    stage: Stage,
    history: Ghost<Seq<Stage>>,
}

impl Lifecycle {
    /// The stage the lifecycle stands in.
    pub closed spec fn stage_spec(&self) -> Stage {
        self.stage
    }

    /// The stages the lifecycle has passed through, latest last.
    pub closed spec fn history_spec(&self) -> Seq<Stage> {
        self.history@
    }

    /// The recorded history is a valid run ending at the current stage.
    pub open spec fn wf(&self) -> bool {
        &&& valid_trace(self.history_spec())
        &&& self.history_spec().last() == self.stage_spec()
    }

    /// Begin a run: no target exists yet.
    pub fn new() -> (lc: Lifecycle)
        ensures
            lc.stage_spec() is NoTarget,
            lc.wf(),
            lc.history_spec() == seq![Stage::NoTarget],
    {
        let ghost h: Seq<Stage> = seq![Stage::NoTarget];
        Lifecycle { stage: Stage::NoTarget, history: Ghost(h) }
    }

    /// The stage the lifecycle stands in.
    pub fn stage(&self) -> (s: Stage)
        ensures
            s == self.stage_spec(),
    {
        self.stage
    }

    /// Record that a valid window handle now exists. Only the first step of a
    /// run may say so, and only with the handle in hand: registration can
    /// never be reached before a valid handle exists.
    pub fn target_created(&mut self, handle: &WindowHandle)
        requires
            old(self).wf(),
            old(self).stage_spec() is NoTarget,
            handle.valid(),
        ensures
            final(self).wf(),
            final(self).stage_spec() is TargetCreated,
            step_allowed(old(self).stage_spec(), final(self).stage_spec()),
            final(self).history_spec() == old(self).history_spec().push(Stage::TargetCreated),
    {
        proof {
            lemma_trace_extend(self.history@, Stage::TargetCreated);
        }
        self.stage = Stage::TargetCreated;
        let ghost h = self.history@.push(Stage::TargetCreated);
        self.history = Ghost(h);
    }

    /// Record the one registration attempt: `succeeded` is what the service
    /// reported, and `os_code` the error code fetched right after a failure.
    /// Registration demands an existing target that is not yet registered; on
    /// failure the stage stands still and the mapped reason is returned.
    pub fn register(&mut self, succeeded: bool, os_code: u32) -> (r: Result<(), Error>)
        requires
            old(self).wf(),
            old(self).stage_spec() is TargetCreated,
            !succeeded ==> map_code_spec(os_code) is Some,
        ensures
            final(self).wf(),
            step_allowed(old(self).stage_spec(), final(self).stage_spec()),
            succeeded ==> r is Ok && final(self).stage_spec() is Registered,
            !succeeded ==> r == Err::<(), Error>(map_code_spec(os_code)->Some_0)
                && final(self).stage_spec() == old(self).stage_spec(),
            final(self).history_spec() == old(self).history_spec().push(
                final(self).stage_spec(),
            ),
    {
        if succeeded {
            proof {
                lemma_trace_extend(self.history@, Stage::Registered);
            }
            self.stage = Stage::Registered;
            let ghost h = self.history@.push(Stage::Registered);
            self.history = Ghost(h);
            Ok(())
        } else {
            proof {
                lemma_trace_extend(self.history@, Stage::TargetCreated);
            }
            let ghost h = self.history@.push(Stage::TargetCreated);
            self.history = Ghost(h);
            match Error::from_code(os_code) {
                Some(reason) => Err(reason),
                None => unreached(),
            }
        }
    }

    /// Record the one unregistration, allowed only after a registration
    /// succeeded and the event loop has stopped handing out events.
    pub fn unregister(&mut self)
        requires
            old(self).wf(),
            old(self).stage_spec() is Registered,
        ensures
            final(self).wf(),
            final(self).stage_spec() is Unregistered,
            step_allowed(old(self).stage_spec(), final(self).stage_spec()),
            final(self).history_spec() == old(self).history_spec().push(Stage::Unregistered),
    {
        proof {
            lemma_trace_extend(self.history@, Stage::Unregistered);
        }
        self.stage = Stage::Unregistered;
        let ghost h = self.history@.push(Stage::Unregistered);
        self.history = Ghost(h);
    }
}

/// Registration never precedes the target: wherever a valid run stands
/// registered, a strictly earlier point of the run had the target created.
pub proof fn lemma_registered_after_target(t: Seq<Stage>, i: int)
    requires
        valid_trace(t),
        0 <= i < t.len(),
        t[i] is Registered,
    ensures
        exists|j: int| 0 <= j < i && t[j] is TargetCreated,
    decreases i,
{
    assert(i > 0);
    assert(step_allowed(t[i - 1], t[i]));
    if t[i - 1] is TargetCreated {
        assert(0 <= i - 1 < i && t[i - 1] is TargetCreated);
    } else {
        assert(t[i - 1] is Registered);
        lemma_registered_after_target(t, i - 1);
    }
}

/// Unregistration never precedes a successful registration: wherever a valid
/// run stands unregistered, a strictly earlier point of the run stood
/// registered.
pub proof fn lemma_unregistered_after_registered(t: Seq<Stage>, i: int)
    requires
        valid_trace(t),
        0 <= i < t.len(),
        t[i] is Unregistered,
    ensures
        exists|j: int| 0 <= j < i && t[j] is Registered,
    decreases i,
{
    assert(i > 0);
    assert(step_allowed(t[i - 1], t[i]));
    if t[i - 1] is Registered {
        assert(0 <= i - 1 < i && t[i - 1] is Registered);
    } else {
        assert(t[i - 1] is Unregistered);
        lemma_unregistered_after_registered(t, i - 1);
    }
}

/// A lifecycle that stands registered got there in order: its own recorded
/// run created the target at some strictly earlier step.
pub proof fn lemma_lifecycle_registered_in_order(lc: Lifecycle)
    requires
        lc.wf(),
        lc.stage_spec() is Registered,
    ensures
        exists|j: int|
            0 <= j < lc.history_spec().len() - 1 && lc.history_spec()[j] is TargetCreated,
{
    let t = lc.history_spec();
    assert(t[t.len() - 1] is Registered);
    lemma_registered_after_target(t, t.len() - 1);
}

/// A lifecycle that stands unregistered got there in order: its own recorded
/// run stood registered at some strictly earlier step.
pub proof fn lemma_lifecycle_unregistered_in_order(lc: Lifecycle)
    requires
        lc.wf(),
        lc.stage_spec() is Unregistered,
    ensures
        exists|j: int|
            0 <= j < lc.history_spec().len() - 1 && lc.history_spec()[j] is Registered,
{
    let t = lc.history_spec();
    assert(t[t.len() - 1] is Unregistered);
    lemma_unregistered_after_registered(t, t.len() - 1);
}

} // verus!
