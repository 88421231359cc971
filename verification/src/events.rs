//! Notification records describing what a transition did.
//!
//! Each engine tick returns the notifications it produced, in order, as
//! [`TransitionEvent`] values. They are ephemeral records for external
//! observers; the engine never reads them back.
//!
//! The `initial` flag on [`Start`] and [`Activate`] is `true` only for
//! activations synthesized while bootstrapping a newly added entity — a fresh
//! spawn, or a state reloaded with a pre-existing stack. It lets observers
//! skip one-time effects when the activation merely replays saved history.

use vstd::prelude::*;

use crate::index::BehaviorIndex;
use crate::transition::TransitionError;
use crate::Behavior;

verus! {

/// A behavior was started.
#[derive(Clone, Copy, Debug, PartialEq, Eq)]
pub struct Start {
    /// The index of the behavior that was started.
    pub index: BehaviorIndex,
    /// `true` only for a bootstrap activation of a newly added entity.
    pub initial: bool,
}

/// A behavior was paused and kept on the stack.
#[derive(Clone, Copy, Debug, PartialEq, Eq)]
pub struct Pause {
    /// The index of the behavior that was paused.
    pub index: BehaviorIndex,
}

/// A paused behavior became current again.
#[derive(Clone, Copy, Debug, PartialEq, Eq)]
pub struct Resume {
    /// The index of the behavior that was resumed.
    pub index: BehaviorIndex,
}

/// A behavior was started *or* resumed.
#[derive(Clone, Copy, Debug, PartialEq, Eq)]
pub struct Activate {
    /// The index of the behavior that was activated.
    pub index: BehaviorIndex,
    /// Whether the behavior was resumed rather than started.
    pub resume: bool,
    /// `true` only for a bootstrap activation of a newly added entity.
    pub initial: bool,
}

/// A behavior was stopped and discarded.
#[derive(Clone, Debug, PartialEq, Eq)]
pub struct Stop<T: Behavior> {
    /// The index the stopped behavior had when it was stopped.
    pub index: BehaviorIndex,
    /// The behavior that was stopped.
    pub behavior: T,
    /// `true` if the behavior was stopped because it was interrupted.
    pub interrupt: bool,
}

/// A transition failed.
#[derive(Clone, Debug, PartialEq, Eq)]
pub struct Error<T: Behavior> {
    /// The reason the transition failed.
    pub error: TransitionError<T>,
}

/// One notification produced by the transition engine.
#[derive(Clone, Debug, PartialEq, Eq)]
pub enum TransitionEvent<T: Behavior> {
    /// A behavior was started.
    Start(Start),
    /// A behavior was paused.
    Pause(Pause),
    /// A behavior was resumed.
    Resume(Resume),
    /// A behavior was started or resumed.
    Activate(Activate),
    /// A behavior was stopped.
    Stop(Stop<T>),
    /// A transition failed.
    Error(Error<T>),
}

/// The [`Start`] notification for the behavior at stack depth `index`.
pub open spec fn ev_start<T: Behavior>(index: nat, initial: bool) -> TransitionEvent<T> {
    TransitionEvent::Start(Start { index: BehaviorIndex(index as usize), initial })
}

/// The [`Pause`] notification for the behavior at stack depth `index`.
pub open spec fn ev_pause<T: Behavior>(index: nat) -> TransitionEvent<T> {
    TransitionEvent::Pause(Pause { index: BehaviorIndex(index as usize) })
}

/// The [`Resume`] notification for the behavior at stack depth `index`.
pub open spec fn ev_resume<T: Behavior>(index: nat) -> TransitionEvent<T> {
    TransitionEvent::Resume(Resume { index: BehaviorIndex(index as usize) })
}

/// The [`Activate`] notification for the behavior at stack depth `index`.
pub open spec fn ev_activate<T: Behavior>(index: nat, resume: bool, initial: bool) -> TransitionEvent<
    T,
> {
    TransitionEvent::Activate(
        Activate { index: BehaviorIndex(index as usize), resume, initial },
    )
}

/// The [`Stop`] notification for `behavior`, stopped at stack depth `index`.
pub open spec fn ev_stop<T: Behavior>(index: nat, behavior: T, interrupt: bool) -> TransitionEvent<
    T,
> {
    TransitionEvent::Stop(
        Stop { index: BehaviorIndex(index as usize), behavior, interrupt },
    )
}

/// The [`Error`] notification carrying `error`.
pub open spec fn ev_error<T: Behavior>(error: TransitionError<T>) -> TransitionEvent<T> {
    TransitionEvent::Error(Error { error })
}

} // verus!
