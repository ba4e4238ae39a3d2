//! SOCD ("simultaneous opposing cardinal direction") cleaning for keyboard
//! input.
//!
//! A physical keyboard can report both members of an opposing key pair
//! (left and right, or up and down) as held at the same time. This library
//! resolves such conflicts with a last-input-wins policy: pressing one
//! member of a pair suppresses the other's output, and releasing it
//! restores the suppressed key if it is still physically held. The library
//! is pure logic over plain values; reading a device and emitting through a
//! synthetic device are left to the surrounding program.

pub mod axis;
pub mod event_loop;
pub mod events;
pub mod keyboard;
pub mod resolver;
