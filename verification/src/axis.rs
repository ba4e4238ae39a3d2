//! One axis pair: two opposing keys and the conflict-resolution rule
//! between them.

use vstd::prelude::*;

use crate::events::{EmittedAction, KeyTransition, SourceEvent, Transition};

verus! {

/// One conflict domain: two keys that must never both be active on the
/// synthetic output, together with the physical (pre-resolution) held
/// state of each.
///
/// The held flags record only the most recent press or release observed
/// for each member key; repeat signals never change them.
#[derive(Clone, Copy, PartialEq, Eq, Structural, Debug)]
pub struct AxisPair {
    /// Identifier of the first member key.
    pub key_a: u16,
    /// Identifier of the second member key.
    pub key_b: u16,
    /// Whether the first member key is physically held.
    pub held_a: bool,
    /// Whether the second member key is physically held.
    pub held_b: bool,
}

impl AxisPair {
    /// A pair is well formed when its two members are distinct keys.
    pub open spec fn wf(self) -> bool {
        self.key_a != self.key_b
    }

    /// Whether `code` is one of the pair's member keys.
    pub open spec fn spec_is_member(self, code: u16) -> bool {
        code == self.key_a || code == self.key_b
    }

    /// What resolving one transition does: the pair's next state and the
    /// actions emitted for it, in order.
    ///
    /// Last-input-wins: a fresh press of one member emits that press and,
    /// if the other member is physically held, suppresses it; a release of
    /// a held member emits that release and, if the other member is still
    /// physically held, restores it. A repeat, a press of an already-held
    /// member, and a release of an already-released member are no-ops.
    /// A transition for a key outside the pair is a no-op as well.
    pub open spec fn spec_resolve(self, t: KeyTransition) -> (AxisPair, Seq<EmittedAction>) {
        match t.transition {
            Transition::Repeated => (self, Seq::empty()),
            Transition::Pressed => {
                if t.code == self.key_a {
                    if self.held_a {
                        (self, Seq::empty())
                    } else {
                        let next = AxisPair { held_a: true, ..self };
                        if self.held_b {
                            (next, seq![
                                EmittedAction::Press(self.key_a),
                                EmittedAction::Release(self.key_b),
                            ])
                        } else {
                            (next, seq![EmittedAction::Press(self.key_a)])
                        }
                    }
                } else if t.code == self.key_b {
                    if self.held_b {
                        (self, Seq::empty())
                    } else {
                        let next = AxisPair { held_b: true, ..self };
                        if self.held_a {
                            (next, seq![
                                EmittedAction::Press(self.key_b),
                                EmittedAction::Release(self.key_a),
                            ])
                        } else {
                            (next, seq![EmittedAction::Press(self.key_b)])
                        }
                    }
                } else {
                    (self, Seq::empty())
                }
            }
            Transition::Released => {
                if t.code == self.key_a {
                    if self.held_a {
                        let next = AxisPair { held_a: false, ..self };
                        if self.held_b {
                            (next, seq![
                                EmittedAction::Release(self.key_a),
                                EmittedAction::Press(self.key_b),
                            ])
                        } else {
                            (next, seq![EmittedAction::Release(self.key_a)])
                        }
                    } else {
                        (self, Seq::empty())
                    }
                } else if t.code == self.key_b {
                    if self.held_b {
                        let next = AxisPair { held_b: false, ..self };
                        if self.held_a {
                            (next, seq![
                                EmittedAction::Release(self.key_b),
                                EmittedAction::Press(self.key_a),
                            ])
                        } else {
                            (next, seq![EmittedAction::Release(self.key_b)])
                        }
                    } else {
                        (self, Seq::empty())
                    }
                } else {
                    (self, Seq::empty())
                }
            }
        }
    }

    /// What resolving a whole sequence of transitions does, in order: the
    /// pair's final state and the concatenation of each transition's
    /// actions.
    pub open spec fn run(self, ts: Seq<KeyTransition>) -> (AxisPair, Seq<EmittedAction>)
        decreases ts.len(),
    {
        if ts.len() == 0 {
            (self, Seq::empty())
        } else {
            let (mid, first_out) = self.spec_resolve(ts[0]);
            let (fin, rest_out) = mid.run(ts.drop_first());
            (fin, first_out + rest_out)
        }
    }

    /// A fresh pair for the two given keys, with neither held.
    pub fn new(key_a: u16, key_b: u16) -> (pair: AxisPair)
        requires
            key_a != key_b,
        ensures
            pair == (AxisPair { key_a, key_b, held_a: false, held_b: false }),
            pair.wf(),
    {
        AxisPair { key_a, key_b, held_a: false, held_b: false }
    }

    /// Whether `code` is one of the pair's member keys.
    pub fn is_member(&self, code: u16) -> (r: bool)
        ensures
            r == self.spec_is_member(code),
    {
        code == self.key_a || code == self.key_b
    }

    /// Resolve one transition for a member key: update the held flags and
    /// return the actions to emit, in order.
    pub fn resolve(&mut self, t: KeyTransition) -> (out: Vec<EmittedAction>)
        requires
            old(self).spec_is_member(t.code),
        ensures
            *final(self) == old(self).spec_resolve(t).0,
            out@ == old(self).spec_resolve(t).1,
    {
        let mut out: Vec<EmittedAction> = Vec::new();
        match t.transition {
            Transition::Repeated => {}
            Transition::Pressed => {
                if t.code == self.key_a {
                    if !self.held_a {
                        self.held_a = true;
                        out.push(EmittedAction::Press(self.key_a));
                        if self.held_b {
                            out.push(EmittedAction::Release(self.key_b));
                        }
                    }
                } else {
                    if !self.held_b {
                        self.held_b = true;
                        out.push(EmittedAction::Press(self.key_b));
                        if self.held_a {
                            out.push(EmittedAction::Release(self.key_a));
                        }
                    }
                }
            }
            Transition::Released => {
                if t.code == self.key_a {
                    if self.held_a {
                        self.held_a = false;
                        out.push(EmittedAction::Release(self.key_a));
                        if self.held_b {
                            out.push(EmittedAction::Press(self.key_b));
                        }
                    }
                } else {
                    if self.held_b {
                        self.held_b = false;
                        out.push(EmittedAction::Release(self.key_b));
                        if self.held_a {
                            out.push(EmittedAction::Press(self.key_a));
                        }
                    }
                }
            }
        }
        proof {
            assert(out@ =~= old(self).spec_resolve(t).1);
        }
        out
    }
}

/// Which of a pair's two outputs the synthetic device currently shows as
/// active, as determined by the actions emitted so far.
pub struct ActiveOutputs {
    /// Whether the first member key's output is active.
    pub a_active: bool,
    /// Whether the second member key's output is active.
    pub b_active: bool,
}

/// How one emitted action changes which outputs of the pair with members
/// `key_a` and `key_b` are active. Actions for other keys, and forwarded
/// events, leave them alone.
pub open spec fn apply_action(
    key_a: u16,
    key_b: u16,
    o: ActiveOutputs,
    a: EmittedAction,
) -> ActiveOutputs {
    match a {
        EmittedAction::Press(c) => {
            if c == key_a {
                ActiveOutputs { a_active: true, ..o }
            } else if c == key_b {
                ActiveOutputs { b_active: true, ..o }
            } else {
                o
            }
        }
        EmittedAction::Release(c) => {
            if c == key_a {
                ActiveOutputs { a_active: false, ..o }
            } else if c == key_b {
                ActiveOutputs { b_active: false, ..o }
            } else {
                o
            }
        }
        EmittedAction::Forward(_) => o,
    }
}

/// How a sequence of emitted actions, applied in order, changes which
/// outputs of the pair with members `key_a` and `key_b` are active.
pub open spec fn apply_actions(
    key_a: u16,
    key_b: u16,
    o: ActiveOutputs,
    acts: Seq<EmittedAction>,
) -> ActiveOutputs
    decreases acts.len(),
{
    if acts.len() == 0 {
        o
    } else {
        apply_actions(key_a, key_b, apply_action(key_a, key_b, o, acts[0]), acts.drop_first())
    }
}

/// The invariant tying a pair's held flags to its outputs: an active
/// output belongs to a physically held key, the two outputs are never both
/// active, and while either key is physically held one output is active.
pub open spec fn output_inv(p: AxisPair, o: ActiveOutputs) -> bool {
    &&& (o.a_active ==> p.held_a)
    &&& (o.b_active ==> p.held_b)
    &&& !(o.a_active && o.b_active)
    &&& ((p.held_a || p.held_b) ==> (o.a_active || o.b_active))
}

proof fn lemma_apply_one(key_a: u16, key_b: u16, o: ActiveOutputs, x: EmittedAction)
    ensures
        apply_actions(key_a, key_b, o, seq![x]) == apply_action(key_a, key_b, o, x),
{
    let o1 = apply_action(key_a, key_b, o, x);
    assert(seq![x].drop_first() =~= Seq::<EmittedAction>::empty());
    assert(apply_actions(key_a, key_b, o1, Seq::<EmittedAction>::empty()) == o1);
}

proof fn lemma_apply_two(key_a: u16, key_b: u16, o: ActiveOutputs, x: EmittedAction, y: EmittedAction)
    ensures
        apply_actions(key_a, key_b, o, seq![x, y]) == apply_action(
            key_a,
            key_b,
            apply_action(key_a, key_b, o, x),
            y,
        ),
{
    let o1 = apply_action(key_a, key_b, o, x);
    assert(seq![x, y].drop_first() =~= seq![y]);
    lemma_apply_one(key_a, key_b, o1, y);
}

/// Applying a concatenation of action sequences is applying one after the
/// other.
pub proof fn lemma_apply_append(
    key_a: u16,
    key_b: u16,
    o: ActiveOutputs,
    s1: Seq<EmittedAction>,
    s2: Seq<EmittedAction>,
)
    ensures
        apply_actions(key_a, key_b, o, s1 + s2) == apply_actions(
            key_a,
            key_b,
            apply_actions(key_a, key_b, o, s1),
            s2,
        ),
    decreases s1.len(),
{
    if s1.len() == 0 {
        assert(s1 + s2 =~= s2);
    } else {
        assert((s1 + s2)[0] == s1[0]);
        assert((s1 + s2).drop_first() =~= s1.drop_first() + s2);
        lemma_apply_append(key_a, key_b, apply_action(key_a, key_b, o, s1[0]), s1.drop_first(), s2);
    }
}

/// One resolved transition keeps a pair's outputs consistent with its held
/// flags, and never changes which keys the pair is for.
pub proof fn lemma_resolve_preserves_output_inv(p: AxisPair, o: ActiveOutputs, t: KeyTransition)
    requires
        p.wf(),
        output_inv(p, o),
    ensures
        output_inv(p.spec_resolve(t).0, apply_actions(p.key_a, p.key_b, o, p.spec_resolve(t).1)),
        p.spec_resolve(t).0.key_a == p.key_a,
        p.spec_resolve(t).0.key_b == p.key_b,
{
    let (next, acts) = p.spec_resolve(t);
    match t.transition {
        Transition::Repeated => {}
        Transition::Pressed => {
            if t.code == p.key_a && !p.held_a {
                if p.held_b {
                    lemma_apply_two(
                        p.key_a,
                        p.key_b,
                        o,
                        EmittedAction::Press(p.key_a),
                        EmittedAction::Release(p.key_b),
                    );
                } else {
                    lemma_apply_one(p.key_a, p.key_b, o, EmittedAction::Press(p.key_a));
                }
            } else if t.code != p.key_a && t.code == p.key_b && !p.held_b {
                if p.held_a {
                    lemma_apply_two(
                        p.key_a,
                        p.key_b,
                        o,
                        EmittedAction::Press(p.key_b),
                        EmittedAction::Release(p.key_a),
                    );
                } else {
                    lemma_apply_one(p.key_a, p.key_b, o, EmittedAction::Press(p.key_b));
                }
            }
        }
        Transition::Released => {
            if t.code == p.key_a && p.held_a {
                if p.held_b {
                    lemma_apply_two(
                        p.key_a,
                        p.key_b,
                        o,
                        EmittedAction::Release(p.key_a),
                        EmittedAction::Press(p.key_b),
                    );
                } else {
                    lemma_apply_one(p.key_a, p.key_b, o, EmittedAction::Release(p.key_a));
                }
            } else if t.code != p.key_a && t.code == p.key_b && p.held_b {
                if p.held_a {
                    lemma_apply_two(
                        p.key_a,
                        p.key_b,
                        o,
                        EmittedAction::Release(p.key_b),
                        EmittedAction::Press(p.key_a),
                    );
                } else {
                    lemma_apply_one(p.key_a, p.key_b, o, EmittedAction::Release(p.key_b));
                }
            }
        }
    }
}

/// Resolving a transition on one pair never touches another pair's
/// outputs: every action it emits is for one of its own member keys.
pub proof fn lemma_resolve_leaves_other_outputs(
    p: AxisPair,
    t: KeyTransition,
    key_a: u16,
    key_b: u16,
    o: ActiveOutputs,
)
    requires
        !p.spec_is_member(key_a),
        !p.spec_is_member(key_b),
    ensures
        apply_actions(key_a, key_b, o, p.spec_resolve(t).1) == o,
{
    match t.transition {
        Transition::Repeated => {}
        Transition::Pressed => {
            if t.code == p.key_a && !p.held_a {
                if p.held_b {
                    lemma_apply_two(
                        key_a,
                        key_b,
                        o,
                        EmittedAction::Press(p.key_a),
                        EmittedAction::Release(p.key_b),
                    );
                } else {
                    lemma_apply_one(key_a, key_b, o, EmittedAction::Press(p.key_a));
                }
            } else if t.code != p.key_a && t.code == p.key_b && !p.held_b {
                if p.held_a {
                    lemma_apply_two(
                        key_a,
                        key_b,
                        o,
                        EmittedAction::Press(p.key_b),
                        EmittedAction::Release(p.key_a),
                    );
                } else {
                    lemma_apply_one(key_a, key_b, o, EmittedAction::Press(p.key_b));
                }
            }
        }
        Transition::Released => {
            if t.code == p.key_a && p.held_a {
                if p.held_b {
                    lemma_apply_two(
                        key_a,
                        key_b,
                        o,
                        EmittedAction::Release(p.key_a),
                        EmittedAction::Press(p.key_b),
                    );
                } else {
                    lemma_apply_one(key_a, key_b, o, EmittedAction::Release(p.key_a));
                }
            } else if t.code != p.key_a && t.code == p.key_b && p.held_b {
                if p.held_a {
                    lemma_apply_two(
                        key_a,
                        key_b,
                        o,
                        EmittedAction::Release(p.key_b),
                        EmittedAction::Press(p.key_a),
                    );
                } else {
                    lemma_apply_one(key_a, key_b, o, EmittedAction::Release(p.key_b));
                }
            }
        }
    }
}

/// A forwarded event never touches a pair's outputs.
pub proof fn lemma_forward_leaves_outputs(key_a: u16, key_b: u16, o: ActiveOutputs, ev: SourceEvent)
    ensures
        apply_actions(key_a, key_b, o, seq![EmittedAction::Forward(ev)]) == o,
{
    lemma_apply_one(key_a, key_b, o, EmittedAction::Forward(ev));
}

/// The invariant holds after every run: resolving any sequence of
/// transitions keeps the outputs consistent with the held flags, and never
/// changes which keys the pair is for.
pub proof fn lemma_run_preserves_output_inv(p: AxisPair, o: ActiveOutputs, ts: Seq<KeyTransition>)
    requires
        p.wf(),
        output_inv(p, o),
    ensures
        output_inv(p.run(ts).0, apply_actions(p.key_a, p.key_b, o, p.run(ts).1)),
        p.run(ts).0.key_a == p.key_a,
        p.run(ts).0.key_b == p.key_b,
    decreases ts.len(),
{
    if ts.len() != 0 {
        let (mid, first_out) = p.spec_resolve(ts[0]);
        lemma_resolve_preserves_output_inv(p, o, ts[0]);
        let o1 = apply_actions(p.key_a, p.key_b, o, first_out);
        lemma_run_preserves_output_inv(mid, o1, ts.drop_first());
        lemma_apply_append(p.key_a, p.key_b, o, first_out, mid.run(ts.drop_first()).1);
    }
}

/// Mutual exclusion: starting from a fresh pair, after any finite sequence
/// of transitions at most one of the pair's two outputs is active.
pub proof fn lemma_mutual_exclusion(p: AxisPair, ts: Seq<KeyTransition>)
    requires
        p.wf(),
        !p.held_a,
        !p.held_b,
    ensures
        ({
            let o = apply_actions(
                p.key_a,
                p.key_b,
                ActiveOutputs { a_active: false, b_active: false },
                p.run(ts).1,
            );
            !(o.a_active && o.b_active)
        }),
{
    lemma_run_preserves_output_inv(p, ActiveOutputs { a_active: false, b_active: false }, ts);
}

/// Restoration: on a fresh pair, pressing one member, pressing the other,
/// then releasing the other emits press of the first, press of the second
/// with suppression of the first, and release of the second with
/// restoration of the first.
pub proof fn lemma_restoration(p: AxisPair)
    requires
        p.wf(),
        !p.held_a,
        !p.held_b,
    ensures
        p.run(
            seq![
                KeyTransition { code: p.key_a, transition: Transition::Pressed },
                KeyTransition { code: p.key_b, transition: Transition::Pressed },
                KeyTransition { code: p.key_b, transition: Transition::Released },
            ],
        ).1 == seq![
            EmittedAction::Press(p.key_a),
            EmittedAction::Press(p.key_b),
            EmittedAction::Release(p.key_a),
            EmittedAction::Release(p.key_b),
            EmittedAction::Press(p.key_a),
        ],
{
    let t1 = KeyTransition { code: p.key_a, transition: Transition::Pressed };
    let t2 = KeyTransition { code: p.key_b, transition: Transition::Pressed };
    let t3 = KeyTransition { code: p.key_b, transition: Transition::Released };
    let ts = seq![t1, t2, t3];
    assert(ts.drop_first() =~= seq![t2, t3]);
    assert(seq![t2, t3].drop_first() =~= seq![t3]);
    assert(seq![t3].drop_first() =~= Seq::<KeyTransition>::empty());
    let p1 = p.spec_resolve(t1).0;
    let p2 = p1.spec_resolve(t2).0;
    let p3 = p2.spec_resolve(t3).0;
    assert(p3.run(Seq::<KeyTransition>::empty()) == (p3, Seq::<EmittedAction>::empty()));
    assert(p2.run(seq![t3]).1 =~= seq![
        EmittedAction::Release(p.key_b),
        EmittedAction::Press(p.key_a),
    ]);
    assert(p1.run(seq![t2, t3]).1 =~= seq![
        EmittedAction::Press(p.key_b),
        EmittedAction::Release(p.key_a),
        EmittedAction::Release(p.key_b),
        EmittedAction::Press(p.key_a),
    ]);
    assert(p.run(ts).1 =~= seq![
        EmittedAction::Press(p.key_a),
        EmittedAction::Press(p.key_b),
        EmittedAction::Release(p.key_a),
        EmittedAction::Release(p.key_b),
        EmittedAction::Press(p.key_a),
    ]);
}

/// Restoration with the roles of the two members swapped: pressing the
/// second member first, then the first, then releasing the first.
pub proof fn lemma_restoration_mirrored(p: AxisPair)
    requires
        p.wf(),
        !p.held_a,
        !p.held_b,
    ensures
        p.run(
            seq![
                KeyTransition { code: p.key_b, transition: Transition::Pressed },
                KeyTransition { code: p.key_a, transition: Transition::Pressed },
                KeyTransition { code: p.key_a, transition: Transition::Released },
            ],
        ).1 == seq![
            EmittedAction::Press(p.key_b),
            EmittedAction::Press(p.key_a),
            EmittedAction::Release(p.key_b),
            EmittedAction::Release(p.key_a),
            EmittedAction::Press(p.key_b),
        ],
{
    let t1 = KeyTransition { code: p.key_b, transition: Transition::Pressed };
    let t2 = KeyTransition { code: p.key_a, transition: Transition::Pressed };
    let t3 = KeyTransition { code: p.key_a, transition: Transition::Released };
    let ts = seq![t1, t2, t3];
    assert(ts.drop_first() =~= seq![t2, t3]);
    assert(seq![t2, t3].drop_first() =~= seq![t3]);
    assert(seq![t3].drop_first() =~= Seq::<KeyTransition>::empty());
    let p1 = p.spec_resolve(t1).0;
    let p2 = p1.spec_resolve(t2).0;
    let p3 = p2.spec_resolve(t3).0;
    assert(p3.run(Seq::<KeyTransition>::empty()) == (p3, Seq::<EmittedAction>::empty()));
    assert(p2.run(seq![t3]).1 =~= seq![
        EmittedAction::Release(p.key_a),
        EmittedAction::Press(p.key_b),
    ]);
    assert(p1.run(seq![t2, t3]).1 =~= seq![
        EmittedAction::Press(p.key_a),
        EmittedAction::Release(p.key_b),
        EmittedAction::Release(p.key_a),
        EmittedAction::Press(p.key_b),
    ]);
    assert(p.run(ts).1 =~= seq![
        EmittedAction::Press(p.key_b),
        EmittedAction::Press(p.key_a),
        EmittedAction::Release(p.key_b),
        EmittedAction::Release(p.key_a),
        EmittedAction::Press(p.key_b),
    ]);
}

/// Idempotent repeat: a repeat signal resolves to no actions and no state
/// change, whatever the held flags and whichever key it is for.
pub proof fn lemma_repeat_is_noop(p: AxisPair, t: KeyTransition)
    requires
        t.transition == Transition::Repeated,
    ensures
        p.spec_resolve(t).0 == p,
        p.spec_resolve(t).1 == Seq::<EmittedAction>::empty(),
{
}

/// No phantom duplicate: a press of a member key that is already held
/// resolves to no actions and no state change.
pub proof fn lemma_no_phantom_duplicate(p: AxisPair, code: u16)
    requires
        p.spec_is_member(code),
        code == p.key_a ==> p.held_a,
        code == p.key_b ==> p.held_b,
    ensures
        p.spec_resolve(KeyTransition { code, transition: Transition::Pressed }).0 == p,
        p.spec_resolve(KeyTransition { code, transition: Transition::Pressed }).1
            == Seq::<EmittedAction>::empty(),
{
}

/// Idempotent duplicate release: a release of a member key that is already
/// released resolves to no actions and no state change.
pub proof fn lemma_duplicate_release_is_noop(p: AxisPair, code: u16)
    requires
        p.spec_is_member(code),
        code == p.key_a ==> !p.held_a,
        code == p.key_b ==> !p.held_b,
    ensures
        p.spec_resolve(KeyTransition { code, transition: Transition::Released }).0 == p,
        p.spec_resolve(KeyTransition { code, transition: Transition::Released }).1
            == Seq::<EmittedAction>::empty(),
{
}

} // verus!
