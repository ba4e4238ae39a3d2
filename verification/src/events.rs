//! The events the pipeline consumes and the actions it produces.

use vstd::prelude::*;

verus! {

/// The kind of a key transition reported by the source device.
#[derive(Clone, Copy, PartialEq, Eq, Structural, Debug)]
pub enum Transition {
    /// The key went from up to down.
    Pressed,
    /// The key went from down to up.
    Released,
    /// The key is being held and the device re-announced it.
    Repeated,
}

/// One observed key event: which key, and what it did.
#[derive(Clone, Copy, PartialEq, Eq, Structural, Debug)]
pub struct KeyTransition {
    /// The key's identifier (its input event code).
    pub code: u16,
    /// What the key did.
    pub transition: Transition,
}

/// An event that is not a key transition (a synchronization marker, for
/// instance), carried through the pipeline verbatim.
#[derive(Clone, Copy, PartialEq, Eq, Structural, Debug)]
pub struct RawEvent {
    /// The device-level event type.
    pub event_type: u16,
    /// The device-level event code.
    pub code: u16,
    /// The device-level event value.
    pub value: i32,
}

/// One event handed to the resolver by the event source.
#[derive(Clone, Copy, PartialEq, Eq, Structural, Debug)]
pub enum SourceEvent {
    /// A key transition.
    Key(KeyTransition),
    /// Anything else, to be forwarded unchanged.
    Other(RawEvent),
}

/// One action to perform on the synthetic output device.
#[derive(Clone, Copy, PartialEq, Eq, Structural, Debug)]
pub enum EmittedAction {
    /// Emit a press of the key with this code.
    Press(u16),
    /// Emit a release of the key with this code.
    Release(u16),
    /// Forward the original source event unchanged.
    Forward(SourceEvent),
}

} // verus!
