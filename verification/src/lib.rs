//! A hierarchical behavior-stack state machine for individual entities.
//!
//! Each tracked entity owns a current [`Behavior`] value, a [`Memory`] stack of
//! paused prior behaviors, a single pending [`Transition`] request, and an
//! optional [`TransitionQueue`] of scripted transitions. Once per tick the
//! [`transition`] engine consumes the pending request, mutates the state, and
//! returns the notifications that external observers should see.

use vstd::prelude::*;

pub mod events;
pub mod index;
pub mod laws;
pub mod memory;
pub mod state;
pub mod transition;

pub use events::{Activate, Error, Pause, Resume, Start, Stop, TransitionEvent};
pub use index::BehaviorIndex;
pub use memory::Memory;
pub use state::{spec_current_index, spec_transition, transition, BehaviorState, StateView};
pub use transition::{
    Interruption, Transition, TransitionError, TransitionQueue, TransitionQueueItem,
    TransitionSequence,
};

verus! {

/// A value which may be used as a behavior: the current state of one entity's
/// state machine.
///
/// A behavior is plain data plus a small policy surface. The policy decides
/// which transitions are allowed (`filter_next`), which behaviors yield during
/// an interrupt (`filter_yield`), and whether a paused behavior is kept on the
/// [`Memory`] stack for a later resume (`is_resumable`).
///
/// The three `spec` members name the policy decisions so that the engine's
/// contracts can speak about them; each executable method must return exactly
/// what its `spec` member says. Implementations outside verified code are
/// responsible for keeping the two in agreement, which holds whenever the
/// methods are pure functions of the two behavior values.
pub trait Behavior: Sized {
    /// The decision `filter_next` returns: may `next` be started while `self`
    /// is the current behavior?
    spec fn allows_next(&self, next: &Self) -> bool;

    /// The decision `filter_yield` returns: during an interrupt, may `self` be
    /// force-stopped to make room for `next`?
    spec fn allows_yield(&self, next: &Self) -> bool;

    /// The decision `is_resumable` returns: is `self` kept on the stack when a
    /// next behavior is started on top of it?
    spec fn resumable(&self) -> bool;

    /// Called before a new behavior is started. If this returns `false`, the
    /// transition fails with [`TransitionError::RejectedNext`].
    fn filter_next(&self, next: &Self) -> (r: bool)
        ensures
            r == self.allows_next(next),
    ;

    /// Called during an interrupt. If this returns `true`, the current
    /// behavior is stopped to let `next` start. The initial behavior is never
    /// asked to yield.
    fn filter_yield(&self, next: &Self) -> (r: bool)
        ensures
            r == self.allows_yield(next),
    ;

    /// Decides whether this behavior is paused (kept on the stack) or stopped
    /// and discarded when a next behavior starts on top of it.
    fn is_resumable(&self) -> (r: bool)
        ensures
            r == self.resumable(),
    ;

    /// Called just after this behavior is started.
    fn on_start(&self, _previous: Option<&Self>) {
    }

    /// Called just after this behavior is paused.
    fn on_pause(&self, _current: &Self) {
    }

    /// Called just after this behavior is resumed.
    fn on_resume(&self, _previous: &Self) {
    }

    /// Called just after this behavior is stopped.
    fn on_stop(&self, _current: &Self) {
    }

    /// Called just after this behavior is started *or* resumed.
    fn on_activate(&self, _previous: Option<&Self>) {
    }

    /// Called just before this behavior is paused *or* stopped.
    fn on_suspend(&self, _current: &Self) {
    }
}

} // verus!
