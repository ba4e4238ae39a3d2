//! The resolver: routes each source event to the axis pair it belongs to,
//! or passes it through unchanged.

use vstd::prelude::*;

use crate::axis::{
    apply_actions, lemma_apply_append, lemma_forward_leaves_outputs,
    lemma_resolve_leaves_other_outputs, lemma_resolve_preserves_output_inv, output_inv,
    ActiveOutputs, AxisPair,
};
use crate::events::{EmittedAction, KeyTransition, SourceEvent, Transition};

verus! {

/// The whole conflict-resolution state: one pair per axis. The two pairs
/// are independent; an event for one never reads or changes the other.
#[derive(Clone, Copy, PartialEq, Eq, Structural, Debug)]
pub struct AxisResolver {
    /// The horizontal pair (left and right).
    pub horizontal: AxisPair,
    /// The vertical pair (up and down).
    pub vertical: AxisPair,
}

impl AxisResolver {
    /// A resolver is well formed when both pairs are and no key belongs to
    /// both pairs.
    pub open spec fn wf(self) -> bool {
        &&& self.horizontal.wf()
        &&& self.vertical.wf()
        &&& !self.vertical.spec_is_member(self.horizontal.key_a)
        &&& !self.vertical.spec_is_member(self.horizontal.key_b)
    }

    /// Whether `code` belongs to either pair.
    pub open spec fn spec_is_axis_key(self, code: u16) -> bool {
        self.horizontal.spec_is_member(code) || self.vertical.spec_is_member(code)
    }

    /// What processing one source event does: the resolver's next state
    /// and the actions emitted for the event, in order.
    ///
    /// A key transition for a member of a pair is resolved by that pair;
    /// every other event yields exactly one action, forwarding the event
    /// unchanged.
    pub open spec fn spec_process(self, ev: SourceEvent) -> (AxisResolver, Seq<EmittedAction>) {
        match ev {
            SourceEvent::Key(t) => {
                if self.horizontal.spec_is_member(t.code) {
                    let (pair, out) = self.horizontal.spec_resolve(t);
                    (AxisResolver { horizontal: pair, ..self }, out)
                } else if self.vertical.spec_is_member(t.code) {
                    let (pair, out) = self.vertical.spec_resolve(t);
                    (AxisResolver { vertical: pair, ..self }, out)
                } else {
                    (self, seq![EmittedAction::Forward(ev)])
                }
            }
            SourceEvent::Other(_) => (self, seq![EmittedAction::Forward(ev)]),
        }
    }

    /// What processing a whole sequence of source events does, in order:
    /// the final state and the concatenation of each event's actions.
    pub open spec fn spec_process_all(self, evs: Seq<SourceEvent>) -> (
        AxisResolver,
        Seq<EmittedAction>,
    )
        decreases evs.len(),
    {
        if evs.len() == 0 {
            (self, Seq::empty())
        } else {
            let (mid, first_out) = self.spec_process(evs[0]);
            let (fin, rest_out) = mid.spec_process_all(evs.drop_first());
            (fin, first_out + rest_out)
        }
    }

    /// Passthrough fidelity: an event that is no axis-pair key transition
    /// — a key outside both pairs, or a non-key event — is answered by
    /// exactly one action, forwarding the event unchanged, and touches no
    /// axis state.
    pub proof fn lemma_passthrough(self, ev: SourceEvent)
        requires
            (match ev {
                SourceEvent::Key(t) => !self.spec_is_axis_key(t.code),
                SourceEvent::Other(_) => true,
            }),
        ensures
            self.spec_process(ev).0 == self,
            self.spec_process(ev).1 == seq![EmittedAction::Forward(ev)],
    {
    }

    /// Idempotent repeat at the resolver: a repeat of either member of
    /// either pair produces no actions and no state change, whatever the
    /// held flags.
    pub proof fn lemma_repeat_is_axis_noop(self, t: KeyTransition)
        requires
            t.transition == Transition::Repeated,
            self.spec_is_axis_key(t.code),
        ensures
            self.spec_process(SourceEvent::Key(t)).0 == self,
            self.spec_process(SourceEvent::Key(t)).1 == Seq::<EmittedAction>::empty(),
    {
    }

    /// Pair independence: a key transition for one pair never changes the
    /// other pair's flags.
    pub proof fn lemma_pair_independence(self, t: KeyTransition)
        ensures
            self.horizontal.spec_is_member(t.code) ==> self.spec_process(
                SourceEvent::Key(t),
            ).0.vertical == self.vertical,
            !self.horizontal.spec_is_member(t.code) ==> self.spec_process(
                SourceEvent::Key(t),
            ).0.horizontal == self.horizontal,
    {
    }

    /// One processed event keeps both pairs' outputs consistent with their
    /// held flags, and never changes which keys the pairs are for.
    pub proof fn lemma_process_preserves_output_inv(
        self,
        oh: ActiveOutputs,
        ov: ActiveOutputs,
        ev: SourceEvent,
    )
        requires
            self.wf(),
            output_inv(self.horizontal, oh),
            output_inv(self.vertical, ov),
        ensures
            ({
                let (next, acts) = self.spec_process(ev);
                &&& output_inv(
                    next.horizontal,
                    apply_actions(self.horizontal.key_a, self.horizontal.key_b, oh, acts),
                )
                &&& output_inv(
                    next.vertical,
                    apply_actions(self.vertical.key_a, self.vertical.key_b, ov, acts),
                )
                &&& next.horizontal.key_a == self.horizontal.key_a
                &&& next.horizontal.key_b == self.horizontal.key_b
                &&& next.vertical.key_a == self.vertical.key_a
                &&& next.vertical.key_b == self.vertical.key_b
                &&& next.wf()
            }),
    {
        let h = self.horizontal;
        let v = self.vertical;
        match ev {
            SourceEvent::Key(t) => {
                if h.spec_is_member(t.code) {
                    lemma_resolve_preserves_output_inv(h, oh, t);
                    lemma_resolve_leaves_other_outputs(h, t, v.key_a, v.key_b, ov);
                } else if v.spec_is_member(t.code) {
                    lemma_resolve_preserves_output_inv(v, ov, t);
                    lemma_resolve_leaves_other_outputs(v, t, h.key_a, h.key_b, oh);
                } else {
                    lemma_forward_leaves_outputs(h.key_a, h.key_b, oh, ev);
                    lemma_forward_leaves_outputs(v.key_a, v.key_b, ov, ev);
                }
            }
            SourceEvent::Other(_) => {
                lemma_forward_leaves_outputs(h.key_a, h.key_b, oh, ev);
                lemma_forward_leaves_outputs(v.key_a, v.key_b, ov, ev);
            }
        }
    }

    /// The invariant holds after every run: processing any sequence of
    /// source events keeps both pairs' outputs consistent with their held
    /// flags, and never changes which keys the pairs are for.
    pub proof fn lemma_process_all_preserves_output_inv(
        self,
        oh: ActiveOutputs,
        ov: ActiveOutputs,
        evs: Seq<SourceEvent>,
    )
        requires
            self.wf(),
            output_inv(self.horizontal, oh),
            output_inv(self.vertical, ov),
        ensures
            ({
                let (fin, acts) = self.spec_process_all(evs);
                &&& output_inv(
                    fin.horizontal,
                    apply_actions(self.horizontal.key_a, self.horizontal.key_b, oh, acts),
                )
                &&& output_inv(
                    fin.vertical,
                    apply_actions(self.vertical.key_a, self.vertical.key_b, ov, acts),
                )
                &&& fin.horizontal.key_a == self.horizontal.key_a
                &&& fin.horizontal.key_b == self.horizontal.key_b
                &&& fin.vertical.key_a == self.vertical.key_a
                &&& fin.vertical.key_b == self.vertical.key_b
            }),
        decreases evs.len(),
    {
        if evs.len() != 0 {
            let (mid, first_out) = self.spec_process(evs[0]);
            self.lemma_process_preserves_output_inv(oh, ov, evs[0]);
            let oh1 = apply_actions(self.horizontal.key_a, self.horizontal.key_b, oh, first_out);
            let ov1 = apply_actions(self.vertical.key_a, self.vertical.key_b, ov, first_out);
            mid.lemma_process_all_preserves_output_inv(oh1, ov1, evs.drop_first());
            lemma_apply_append(
                self.horizontal.key_a,
                self.horizontal.key_b,
                oh,
                first_out,
                mid.spec_process_all(evs.drop_first()).1,
            );
            lemma_apply_append(
                self.vertical.key_a,
                self.vertical.key_b,
                ov,
                first_out,
                mid.spec_process_all(evs.drop_first()).1,
            );
        }
    }

    /// Mutual exclusion: starting from a fresh resolver, after processing
    /// any finite sequence of source events, each axis pair has at most
    /// one of its two outputs active on the synthetic device.
    pub proof fn lemma_mutual_exclusion(self, evs: Seq<SourceEvent>)
        requires
            self.wf(),
            !self.horizontal.held_a,
            !self.horizontal.held_b,
            !self.vertical.held_a,
            !self.vertical.held_b,
        ensures
            ({
                let acts = self.spec_process_all(evs).1;
                let oh = apply_actions(
                    self.horizontal.key_a,
                    self.horizontal.key_b,
                    ActiveOutputs { a_active: false, b_active: false },
                    acts,
                );
                let ov = apply_actions(
                    self.vertical.key_a,
                    self.vertical.key_b,
                    ActiveOutputs { a_active: false, b_active: false },
                    acts,
                );
                !(oh.a_active && oh.b_active) && !(ov.a_active && ov.b_active)
            }),
    {
        let fresh = ActiveOutputs { a_active: false, b_active: false };
        self.lemma_process_all_preserves_output_inv(fresh, fresh, evs);
    }

    /// Order preservation: processing `evs1` followed by `evs2` emits every
    /// action for `evs1`, in order, strictly before any action for `evs2`,
    /// and ends in the state reached by processing the two batches in turn.
    pub proof fn lemma_order_preservation(
        self,
        evs1: Seq<SourceEvent>,
        evs2: Seq<SourceEvent>,
    )
        ensures
            self.spec_process_all(evs1 + evs2).0 == self.spec_process_all(evs1).0.spec_process_all(
                evs2,
            ).0,
            self.spec_process_all(evs1 + evs2).1 == self.spec_process_all(evs1).1
                + self.spec_process_all(evs1).0.spec_process_all(evs2).1,
        decreases evs1.len(),
    {
        if evs1.len() == 0 {
            assert(evs1 + evs2 =~= evs2);
            assert(self.spec_process_all(evs1).1 + self.spec_process_all(evs2).1 =~= self
                .spec_process_all(evs2).1);
        } else {
            let (mid, first_out) = self.spec_process(evs1[0]);
            assert((evs1 + evs2)[0] == evs1[0]);
            assert((evs1 + evs2).drop_first() =~= evs1.drop_first() + evs2);
            mid.lemma_order_preservation(evs1.drop_first(), evs2);
            assert(self.spec_process_all(evs1 + evs2).1 =~= self.spec_process_all(evs1).1
                + self.spec_process_all(evs1).0.spec_process_all(evs2).1);
        }
    }

    /// A fresh resolver for the four given keys, with nothing held.
    pub fn new(horizontal: AxisPair, vertical: AxisPair) -> (r: AxisResolver)
        ensures
            r == (AxisResolver { horizontal, vertical }),
    {
        AxisResolver { horizontal, vertical }
    }

    /// Process one source event: update the pair it belongs to, if any,
    /// and return the actions to emit for it, in order.
    pub fn process(&mut self, ev: SourceEvent) -> (out: Vec<EmittedAction>)
        ensures
            *final(self) == old(self).spec_process(ev).0,
            out@ == old(self).spec_process(ev).1,
    {
        match ev {
            SourceEvent::Key(t) => {
                if self.horizontal.is_member(t.code) {
                    self.horizontal.resolve(t)
                } else if self.vertical.is_member(t.code) {
                    self.vertical.resolve(t)
                } else {
                    let mut out: Vec<EmittedAction> = Vec::new();
                    out.push(EmittedAction::Forward(ev));
                    proof {
                        assert(out@ =~= old(self).spec_process(ev).1);
                    }
                    out
                }
            }
            SourceEvent::Other(_) => {
                let mut out: Vec<EmittedAction> = Vec::new();
                out.push(EmittedAction::Forward(ev));
                proof {
                    assert(out@ =~= old(self).spec_process(ev).1);
                }
                out
            }
        }
    }
}

} // verus!
