//! The event loop's decisions: what to do after the cancellation check and
//! after each bounded wait, and how a drained batch of events is turned
//! into actions.
//!
//! The loop's blocking work (the bounded wait on the source, reading its
//! buffered events, emitting through the sink) is left to the surrounding
//! program, which reports each outcome here and performs the decisions and
//! actions returned.

use vstd::prelude::*;

use crate::events::{EmittedAction, SourceEvent};
use crate::resolver::AxisResolver;

verus! {

/// The outcome of one bounded wait on the event source.
#[derive(Clone, Copy, PartialEq, Eq, Structural, Debug)]
pub enum PollOutcome {
    /// The source has buffered events ready to read.
    Ready,
    /// The wait timed out with nothing to read.
    TimedOut,
    /// The wait was interrupted by an external signal.
    Interrupted,
    /// The wait returned, but not with readable data.
    NotReadable,
    /// The wait itself failed.
    Failed,
}

/// What the loop does next after one bounded wait.
#[derive(Clone, Copy, PartialEq, Eq, Structural, Debug)]
pub enum LoopDecision {
    /// Drain every buffered event from the source and dispatch it.
    Drain,
    /// Do nothing this iteration; re-check cancellation and wait again.
    Idle,
    /// Stop with a fatal error: the source is unusable.
    Abort,
}

/// Where the loop stands.
#[derive(Clone, Copy, PartialEq, Eq, Structural, Debug)]
pub enum LoopState {
    /// Waiting for and dispatching events.
    Running,
    /// Cancellation was observed; no new wait may start.
    Cancelling,
    /// Terminal: the caller releases the source.
    Stopped,
}

/// What the loop decides for each outcome of a bounded wait: ready data is
/// drained, a timeout, an interrupted wait or unreadable data is a no-op
/// iteration, and a failed wait is fatal.
pub open spec fn spec_decision(outcome: PollOutcome) -> LoopDecision {
    match outcome {
        PollOutcome::Ready => LoopDecision::Drain,
        PollOutcome::TimedOut => LoopDecision::Idle,
        PollOutcome::Interrupted => LoopDecision::Idle,
        PollOutcome::NotReadable => LoopDecision::Idle,
        PollOutcome::Failed => LoopDecision::Abort,
    }
}

/// The loop: owns the resolver for the lifetime of the run and tracks its
/// own state.
#[derive(Clone, Copy, PartialEq, Eq, Structural, Debug)]
pub struct EventLoop {
    /// The conflict-resolution state the loop drives.
    pub resolver: AxisResolver,
    /// Where the loop stands.
    pub state: LoopState,
}

impl EventLoop {
    /// A fresh loop around the given resolver, ready to run.
    pub fn new(resolver: AxisResolver) -> (lp: EventLoop)
        ensures
            lp == (EventLoop { resolver, state: LoopState::Running }),
    {
        EventLoop { resolver, state: LoopState::Running }
    }

    /// The cancellation check at the top of each iteration: report whether
    /// the loop may start a new wait. Once the signal is observed the loop
    /// moves to `Cancelling` and never waits again.
    pub fn observe_cancellation(&mut self, cancelled: bool) -> (proceed: bool)
        requires
            old(self).state == LoopState::Running,
        ensures
            proceed == !cancelled,
            final(self).resolver == old(self).resolver,
            final(self).state == if cancelled {
                LoopState::Cancelling
            } else {
                LoopState::Running
            },
    {
        if cancelled {
            self.state = LoopState::Cancelling;
        }
        !cancelled
    }

    /// Decide what one bounded wait's outcome means. A failed wait is
    /// fatal and stops the loop; every other outcome leaves it running.
    pub fn after_wait(&mut self, outcome: PollOutcome) -> (d: LoopDecision)
        requires
            old(self).state == LoopState::Running,
        ensures
            d == spec_decision(outcome),
            final(self).resolver == old(self).resolver,
            final(self).state == if outcome == PollOutcome::Failed {
                LoopState::Stopped
            } else {
                LoopState::Running
            },
    {
        match outcome {
            PollOutcome::Ready => LoopDecision::Drain,
            PollOutcome::TimedOut => LoopDecision::Idle,
            PollOutcome::Interrupted => LoopDecision::Idle,
            PollOutcome::NotReadable => LoopDecision::Idle,
            PollOutcome::Failed => {
                self.state = LoopState::Stopped;
                LoopDecision::Abort
            }
        }
    }

    /// The step from `Cancelling` to the terminal state, once the current
    /// drain-and-dispatch cycle has completed.
    pub fn complete_shutdown(&mut self)
        requires
            old(self).state == LoopState::Cancelling,
        ensures
            final(self).resolver == old(self).resolver,
            final(self).state == LoopState::Stopped,
    {
        self.state = LoopState::Stopped;
    }

    /// Dispatch one drained batch of source events, in order: feed each
    /// event to the resolver and return every resulting action, those for
    /// an earlier event strictly before those for a later one.
    pub fn handle_events(&mut self, evs: &Vec<SourceEvent>) -> (out: Vec<EmittedAction>)
        requires
            old(self).state == LoopState::Running,
        ensures
            final(self).resolver == old(self).resolver.spec_process_all(evs@).0,
            out@ == old(self).resolver.spec_process_all(evs@).1,
            final(self).state == LoopState::Running,
    {
        let mut out: Vec<EmittedAction> = Vec::new();
        let mut i: usize = 0;
        while i < evs.len()
            invariant
                i <= evs@.len(),
                self.state == LoopState::Running,
                self.resolver == old(self).resolver.spec_process_all(evs@.take(i as int)).0,
                out@ == old(self).resolver.spec_process_all(evs@.take(i as int)).1,
            decreases evs@.len() - i,
        {
            let ghost prefix = evs@.take(i as int);
            let ghost before = self.resolver;
            let mut acts = self.resolver.process(evs[i]);
            out.append(&mut acts);
            i = i + 1;
            proof {
                let e = evs@[i - 1];
                let single = seq![e];
                let mid = before.spec_process(e).0;
                assert(single.drop_first() =~= Seq::<SourceEvent>::empty());
                assert(mid.spec_process_all(Seq::<SourceEvent>::empty()) == (
                    mid,
                    Seq::<EmittedAction>::empty(),
                ));
                assert(single.len() == 1 && single[0] == e);
                assert(before.spec_process_all(single).0 == mid);
                assert(before.spec_process_all(single).1 =~= before.spec_process(e).1);
                assert(evs@.take(i as int) =~= prefix + single);
                old(self).resolver.lemma_order_preservation(prefix, single);
            }
        }
        proof {
            assert(evs@.take(evs@.len() as int) =~= evs@);
        }
        out
    }
}

} // verus!
