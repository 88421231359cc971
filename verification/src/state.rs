//! The per-entity state of the behavior machine, and the transition engine.

use vstd::prelude::*;

use crate::events::{
    ev_activate, ev_error, ev_pause, ev_resume, ev_start, ev_stop, Activate, Error, Pause, Resume,
    Start, Stop, TransitionEvent,
};
use crate::index::BehaviorIndex;
use crate::memory::Memory;
use crate::transition::{
    Interruption, QueueView, Transition, TransitionError, TransitionQueue, TransitionQueueItem,
};
use crate::Behavior;

verus! {

/// The abstract value of a [`BehaviorState`]: the current behavior, the
/// stack of paused behaviors (bottom to top), the pending request, the
/// scripted queue if one is attached, and whether the entity was newly added
/// and still owes its bootstrap notifications.
#[verifier::ext_equal]
pub ghost struct StateView<T: Behavior> {
    /// The current behavior.
    pub current: T,
    /// The paused behaviors, bottom to top.
    pub memory: Seq<T>,
    /// The pending transition request.
    pub transition: Transition<T>,
    /// The attached transition queue, if any.
    pub queue: Option<QueueView<T>>,
    /// Whether the first tick since the state was created is still owed.
    pub added: bool,
}

/// The index of the current behavior in state `s`: the depth of the memory
/// stack. The index is not stored anywhere; it is this, by definition, at
/// all times.
pub open spec fn spec_current_index<T: Behavior>(s: StateView<T>) -> nat {
    s.memory.len()
}

/// The state a freshly created or freshly loaded entity starts in: no pending
/// request, no queue, and the bootstrap notifications still owed.
pub open spec fn loaded_view<T: Behavior>(current: T, memory: Seq<T>) -> StateView<T> {
    StateView {
        current,
        memory,
        transition: Transition::Idle,
        queue: None,
        added: true,
    }
}

/// One entity's behavior machine: the current [`Behavior`], the [`Memory`]
/// stack beneath it, the pending [`Transition`] request, and an optional
/// [`TransitionQueue`].
///
/// External code writes requests through the `start` / `stop` / `interrupt`
/// methods (or their `try_` variants); once per tick the [`transition`]
/// engine consumes the pending request, mutates this state, and returns the
/// notifications observers should see.
///
/// [`transition`]: crate::transition()
pub struct BehaviorState<T: Behavior> {
    current: T,
    memory: Memory<T>,
    transition: Transition<T>,
    queue: Option<TransitionQueue<T>>,
    added: bool,
}

impl<T: Behavior> View for BehaviorState<T> {
    type V = StateView<T>;

    closed spec fn view(&self) -> StateView<T> {
        StateView {
            current: self.current,
            memory: self.memory@,
            transition: self.transition,
            queue: match self.queue {
                Some(q) => Some(q@),
                None => None,
            },
            added: self.added,
        }
    }
}

impl<T: Behavior> BehaviorState<T> {
    /// Creates the state of a freshly spawned entity with the given initial
    /// behavior.
    pub fn new(initial: T) -> (r: Self)
        ensures
            r@ == loaded_view(initial, Seq::<T>::empty()),
    {
        let r = BehaviorState {
            current: initial,
            memory: Memory::new(),
            transition: Transition::Idle,
            queue: None,
            added: true,
        };
        proof {
            assert(r@ =~= loaded_view(r@.current, Seq::<T>::empty()));
        }
        r
    }

    /// Recreates the state of an entity from its saved form: the behavior
    /// that was current and the stack of paused behaviors, bottom to top.
    ///
    /// The pending request and the queue are transient and are not part of
    /// the saved form. The next tick replays the bootstrap notifications for
    /// the restored stack.
    pub fn load(current: T, stack: Vec<T>) -> (r: Self)
        ensures
            r@ == loaded_view(current, stack@),
    {
        let ghost s = stack@;
        let r = BehaviorState {
            current,
            memory: Memory::restore(stack),
            transition: Transition::Idle,
            queue: None,
            added: true,
        };
        proof {
            assert(r@ =~= loaded_view(r@.current, s));
        }
        r
    }

    /// Consumes the state and returns its saved form: the current behavior
    /// and the stack of paused behaviors, bottom to top.
    ///
    /// The pending request and the queue are not persisted.
    pub fn save(self) -> (r: (T, Vec<T>))
        ensures
            r.0 == self@.current,
            r.1@ == self@.memory,
    {
        (self.current, self.memory.into_stack())
    }

    /// Returns the current behavior.
    pub fn current(&self) -> (r: &T)
        ensures
            *r == self@.current,
    {
        &self.current
    }

    /// Returns the stack of paused behaviors beneath the current one.
    pub fn memory(&self) -> (r: &Memory<T>)
        ensures
            r@ == self@.memory,
    {
        &self.memory
    }

    /// Returns the current behavior as a mutable reference, so that policy
    /// code can update the data it carries in place.
    pub fn current_mut(&mut self) -> (r: &mut T)
        ensures
            *r == old(self)@.current,
            final(self)@ == (StateView { current: *final(r), ..old(self)@ }),
    {
        &mut self.current
    }

    /// Returns the index of the current behavior: the depth of the memory
    /// stack.
    pub fn current_index(&self) -> (r: BehaviorIndex)
        ensures
            r.0 == spec_current_index(self@),
    {
        BehaviorIndex(self.memory.len())
    }

    /// Returns the previous behavior in the stack, if any.
    ///
    /// This is the behavior which was paused when the current one started,
    /// not necessarily the previously active one.
    pub fn previous(&self) -> (r: Option<&T>)
        ensures
            self@.memory.len() > 0 ==> (r matches Some(b) && *b == self@.memory.last()),
            self@.memory.len() == 0 ==> r is None,
    {
        self.memory.previous()
    }

    /// Returns `true` if the given index names a behavior in this stack,
    /// including the current one.
    pub fn has_index(&self, index: BehaviorIndex) -> (r: bool)
        ensures
            r == (index.0 <= self@.memory.len()),
    {
        index.0 <= self.memory.len()
    }

    /// Returns the behavior at the given index, if it exists. The current
    /// behavior has the highest index.
    pub fn get(&self, index: BehaviorIndex) -> (r: Option<&T>)
        ensures
            index.0 == self@.memory.len() ==> (r matches Some(b) && *b == self@.current),
            index.0 < self@.memory.len() ==> (r matches Some(b) && *b == self@.memory[
                index.0 as int
            ]),
            index.0 > self@.memory.len() ==> r is None,
    {
        if index.0 == self.memory.len() {
            Some(&self.current)
        } else {
            self.memory.get(index.0)
        }
    }

    /// Returns `true` if there is a pending transition request.
    pub fn has_transition(&self) -> (r: bool)
        ensures
            r == !(self@.transition is Idle),
    {
        !self.transition.is_none()
    }

    /// Returns `true` if a transition queue is attached.
    pub fn has_sequence(&self) -> (r: bool)
        ensures
            r == (self@.queue is Some),
    {
        self.queue.is_some()
    }

    /// Attaches a transition queue, replacing any queue already attached.
    pub fn set_queue(&mut self, queue: TransitionQueue<T>)
        ensures
            final(self)@ == (StateView { queue: Some(queue@), ..old(self)@ }),
    {
        self.queue = Some(queue);
        proof {
            assert(final(self)@ =~= (StateView { queue: Some(queue@), ..old(self)@ }));
        }
    }

    fn set_transition(&mut self, transition: Transition<T>)
        ensures
            final(self)@ == (StateView { transition, ..old(self)@ }),
    {
        self.transition = transition;
        proof {
            assert(final(self)@ =~= (StateView { transition, ..old(self)@ }));
        }
    }

    /// Requests that the given behavior be started on top of the current
    /// one, overriding any pending request.
    ///
    /// The request fails at tick time with [`TransitionError::RejectedNext`]
    /// if the then-current behavior rejects it through `filter_next`.
    pub fn start(&mut self, next: T)
        ensures
            final(self)@ == (StateView { transition: Transition::Next(next), ..old(self)@ }),
    {
        self.set_transition(Transition::Next(next));
    }

    /// Requests that the given behavior be started, if no request is pending
    /// and the current behavior allows it; returns the behavior otherwise.
    ///
    /// The transition can still fail at tick time if the current behavior
    /// changes before the engine runs.
    pub fn try_start(&mut self, next: T) -> (r: Result<(), T>)
        ensures
            (old(self)@.transition is Idle && old(self)@.current.allows_next(&next)) ==> (r
                == Ok::<(), T>(()) && final(self)@ == (StateView {
                transition: Transition::Next(next),
                ..old(self)@
            })),
            !(old(self)@.transition is Idle && old(self)@.current.allows_next(&next)) ==> (r
                == Err::<(), T>(next) && final(self)@ == old(self)@),
    {
        if self.has_transition() || !self.current.filter_next(&next) {
            return Err(next);
        }
        self.set_transition(Transition::Next(next));
        Ok(())
    }

    /// Requests an interrupt which stops every behavior that yields to
    /// `next`, then starts `next`, overriding any pending request.
    pub fn interrupt_start(&mut self, next: T)
        ensures
            final(self)@ == (StateView {
                transition: Transition::Interrupt(Interruption::Start(next)),
                ..old(self)@
            }),
    {
        self.set_transition(Transition::Interrupt(Interruption::Start(next)));
    }

    /// Requests an interrupt which starts `next`, if no request is pending;
    /// returns the behavior otherwise.
    pub fn try_interrupt_start(&mut self, next: T) -> (r: Result<(), T>)
        ensures
            old(self)@.transition is Idle ==> (r == Ok::<(), T>(()) && final(self)@ == (StateView {
                transition: Transition::Interrupt(Interruption::Start(next)),
                ..old(self)@
            })),
            !(old(self)@.transition is Idle) ==> (r == Err::<(), T>(next) && final(self)@ == old(
                self,
            )@),
    {
        if self.has_transition() {
            return Err(next);
        }
        self.set_transition(Transition::Interrupt(Interruption::Start(next)));
        Ok(())
    }

    /// Requests an interrupt which stops every behavior above the given
    /// index and the one at it, overriding any pending request.
    ///
    /// The initial behavior can not be stopped, so the index must not be the
    /// initial one.
    pub fn interrupt_stop(&mut self, index: BehaviorIndex)
        requires
            index.0 > 0,
        ensures
            final(self)@ == (StateView {
                transition: Transition::Interrupt(
                    Interruption::Resume(BehaviorIndex((index.0 - 1) as usize)),
                ),
                ..old(self)@
            }),
    {
        self.set_transition(
            Transition::Interrupt(Interruption::Resume(BehaviorIndex(index.0 - 1))),
        );
    }

    /// Requests an interrupt which stops every behavior above the given
    /// index and the one at it; fails if a request is pending, the index is
    /// not in the stack, or the index is the initial one.
    pub fn try_interrupt_stop(&mut self, index: BehaviorIndex) -> (r: Result<(), BehaviorIndex>)
        ensures
            (old(self)@.transition is Idle && 0 < index.0 <= old(self)@.memory.len()) ==> (r
                == Ok::<(), BehaviorIndex>(()) && final(self)@ == (StateView {
                transition: Transition::Interrupt(
                    Interruption::Resume(BehaviorIndex((index.0 - 1) as usize)),
                ),
                ..old(self)@
            })),
            !(old(self)@.transition is Idle && 0 < index.0 <= old(self)@.memory.len()) ==> (r
                == Err::<(), BehaviorIndex>(index) && final(self)@ == old(self)@),
    {
        if self.has_transition() || !self.has_index(index) {
            return Err(index);
        }
        if index.0 == 0 {
            return Err(index);
        }
        self.set_transition(
            Transition::Interrupt(Interruption::Resume(BehaviorIndex(index.0 - 1))),
        );
        Ok(())
    }

    /// Requests an interrupt which resumes the behavior at the given index by
    /// stopping every behavior above it, overriding any pending request.
    pub fn interrupt_resume(&mut self, index: BehaviorIndex)
        ensures
            final(self)@ == (StateView {
                transition: Transition::Interrupt(Interruption::Resume(index)),
                ..old(self)@
            }),
    {
        self.set_transition(Transition::Interrupt(Interruption::Resume(index)));
    }

    /// Requests an interrupt which resumes the behavior at the given index;
    /// fails if a request is pending or the index is not in the stack.
    pub fn try_interrupt_resume(&mut self, index: BehaviorIndex) -> (r: Result<(), BehaviorIndex>)
        ensures
            (old(self)@.transition is Idle && index.0 <= old(self)@.memory.len()) ==> (r
                == Ok::<(), BehaviorIndex>(()) && final(self)@ == (StateView {
                transition: Transition::Interrupt(Interruption::Resume(index)),
                ..old(self)@
            })),
            !(old(self)@.transition is Idle && index.0 <= old(self)@.memory.len()) ==> (r
                == Err::<(), BehaviorIndex>(index) && final(self)@ == old(self)@),
    {
        if self.has_transition() || !self.has_index(index) {
            return Err(index);
        }
        self.set_transition(Transition::Interrupt(Interruption::Resume(index)));
        Ok(())
    }

    /// Requests that the current behavior be stopped and the previous one
    /// resumed, overriding any pending request.
    ///
    /// The request fails at tick time with [`TransitionError::NoPrevious`]
    /// if the current behavior is the initial one.
    pub fn stop(&mut self)
        ensures
            final(self)@ == (StateView { transition: Transition::Previous, ..old(self)@ }),
    {
        self.set_transition(Transition::Previous);
    }

    /// Requests that the current behavior be stopped, if no request is
    /// pending and the current behavior is not the initial one; returns
    /// whether the request was set.
    pub fn try_stop(&mut self) -> (r: bool)
        ensures
            (old(self)@.transition is Idle && old(self)@.memory.len() > 0) ==> (r && final(self)@
                == (StateView { transition: Transition::Previous, ..old(self)@ })),
            !(old(self)@.transition is Idle && old(self)@.memory.len() > 0) ==> (!r && final(self)@
                == old(self)@),
    {
        if self.has_transition() || self.memory.is_empty() {
            return false;
        }
        self.set_transition(Transition::Previous);
        true
    }

    /// Requests an interrupt which stops every behavior above the initial
    /// one and resumes it, overriding any pending request.
    ///
    /// If the current behavior is already the initial one, the tick reports
    /// [`TransitionError::NoPrevious`] and changes nothing else.
    pub fn reset(&mut self)
        ensures
            final(self)@ == (StateView {
                transition: Transition::Interrupt(Interruption::Resume(BehaviorIndex(0usize))),
                ..old(self)@
            }),
    {
        self.set_transition(Transition::Interrupt(Interruption::Resume(BehaviorIndex(0))));
    }

    /// Requests a reset, if no request is pending; returns whether the
    /// request was set.
    pub fn try_reset(&mut self) -> (r: bool)
        ensures
            old(self)@.transition is Idle ==> (r && final(self)@ == (StateView {
                transition: Transition::Interrupt(Interruption::Resume(BehaviorIndex(0usize))),
                ..old(self)@
            })),
            !(old(self)@.transition is Idle) ==> (!r && final(self)@ == old(self)@),
    {
        if self.has_transition() {
            return false;
        }
        self.set_transition(Transition::Interrupt(Interruption::Resume(BehaviorIndex(0))));
        true
    }
}

// Lifecycle hook helpers: each state change invokes the behavior's hooks
// strictly before the corresponding notification is recorded.

fn invoke_start<T: Behavior>(behavior: &T, previous: Option<&T>) {
    behavior.on_start(previous);
    behavior.on_activate(previous);
}

fn invoke_pause<T: Behavior>(behavior: &T, current: &T) {
    behavior.on_suspend(current);
    behavior.on_pause(current);
}

fn invoke_resume<T: Behavior>(behavior: &T, previous: &T) {
    behavior.on_resume(previous);
    behavior.on_activate(Some(previous));
}

fn invoke_stop<T: Behavior>(behavior: &T, current: &T) {
    behavior.on_suspend(current);
    behavior.on_stop(current);
}

/// What starting `next` does to state `s`: the state afterwards, the
/// notifications recorded, and whether the transition succeeded.
///
/// If the current behavior rejects `next`, nothing changes and the error is
/// reported. Otherwise `next` becomes current; the displaced behavior is
/// paused onto the stack if it is resumable, and stopped and discarded if
/// not.
pub open spec fn spec_push<T: Behavior>(s: StateView<T>, next: T) -> (
    StateView<T>,
    Seq<TransitionEvent<T>>,
    bool,
) {
    if !s.current.allows_next(&next) {
        (s, seq![ev_error(TransitionError::RejectedNext(next))], false)
    } else if s.current.resumable() {
        (
            StateView { current: next, memory: s.memory.push(s.current), ..s },
            seq![
                ev_pause(s.memory.len()),
                ev_start((s.memory.len() + 1) as nat, false),
                ev_activate((s.memory.len() + 1) as nat, false, false),
            ],
            true,
        )
    } else {
        (
            StateView { current: next, ..s },
            seq![
                ev_stop(s.memory.len(), s.current, false),
                ev_start(s.memory.len(), false),
                ev_activate(s.memory.len(), false, false),
            ],
            true,
        )
    }
}

/// What a pop does to state `s`: the current behavior is stopped and
/// discarded, and the top of the stack is resumed in its place. At the
/// initial behavior there is nothing to resume, so nothing changes and the
/// error is reported.
pub open spec fn spec_pop<T: Behavior>(s: StateView<T>) -> (
    StateView<T>,
    Seq<TransitionEvent<T>>,
    bool,
) {
    if s.memory.len() == 0 {
        (s, seq![ev_error(TransitionError::<T>::NoPrevious)], false)
    } else {
        (
            StateView { current: s.memory.last(), memory: s.memory.drop_last(), ..s },
            seq![
                ev_stop(s.memory.len(), s.current, false),
                ev_resume((s.memory.len() - 1) as nat),
                ev_activate((s.memory.len() - 1) as nat, true, false),
            ],
            true,
        )
    }
}

/// What an interrupt-start of `next` does to state `s`: while the current
/// behavior yields to `next` and is not the initial one, it is stopped and
/// discarded with an interrupt notification; then `next` is pushed onto
/// whatever behavior the unwind stopped at.
pub open spec fn spec_interrupt<T: Behavior>(s: StateView<T>, next: T) -> (
    StateView<T>,
    Seq<TransitionEvent<T>>,
    bool,
)
    decreases s.memory.len(),
{
    if s.current.allows_yield(&next) && s.memory.len() > 0 {
        let stopped = ev_stop(s.memory.len(), s.current, true);
        let unwound = StateView { current: s.memory.last(), memory: s.memory.drop_last(), ..s };
        let rest = spec_interrupt(unwound, next);
        (rest.0, seq![stopped] + rest.1, rest.2)
    } else {
        spec_push(s, next)
    }
}

/// What an interrupt-resume of the behavior at `index` does to state `s`:
/// every remembered behavior strictly above depth `index + 1` is discarded
/// with an interrupt notification, then a normal pop lands on `index`.
pub open spec fn spec_clear<T: Behavior>(s: StateView<T>, index: BehaviorIndex) -> (
    StateView<T>,
    Seq<TransitionEvent<T>>,
    bool,
)
    decreases s.memory.len(),
{
    if s.memory.len() > index.0 + 1 {
        let stopped = ev_stop(s.memory.len(), s.memory.last(), true);
        let shrunk = StateView { memory: s.memory.drop_last(), ..s };
        let rest = spec_clear(shrunk, index);
        (rest.0, seq![stopped] + rest.1, rest.2)
    } else {
        spec_pop(s)
    }
}

/// The notifications owed by a newly added entity whose stack already holds
/// `depth` paused behaviors: the activation of the initial behavior, then a
/// pause/start/activate triple for every restored stack level, all marked
/// `initial`.
pub open spec fn spec_bootstrap_events<T: Behavior>(depth: nat) -> Seq<TransitionEvent<T>>
    decreases depth,
{
    if depth == 0 {
        seq![ev_start(0, true), ev_activate(0, false, true)]
    } else {
        spec_bootstrap_events((depth - 1) as nat) + seq![
            ev_pause((depth - 1) as nat),
            ev_start(depth, true),
            ev_activate(depth, false, true),
        ]
    }
}

/// The index a behavior started now would have once pushed: one above the
/// current depth, saturating at the largest representable index.
pub open spec fn spec_wait_index<T: Behavior>(s: StateView<T>) -> BehaviorIndex {
    if s.memory.len() < usize::MAX {
        BehaviorIndex((s.memory.len() + 1) as usize)
    } else {
        BehaviorIndex(usize::MAX)
    }
}

/// How the attached queue reacts after this tick's request was processed.
///
/// An interrupted or drained queue is removed. A waiting queue stays
/// untouched unless this tick popped a behavior at exactly the awaited
/// index. Otherwise the front item is consumed and becomes next tick's
/// request.
pub open spec fn spec_queue_step<T: Behavior>(
    s: StateView<T>,
    interrupted: bool,
    stop_index: Option<BehaviorIndex>,
) -> StateView<T> {
    match s.queue {
        None => s,
        Some(q) => {
            if interrupted || q.items.len() == 0 {
                StateView { queue: None, ..s }
            } else if q.wait_for matches Some(w) && stop_index != Some(w) {
                s
            } else {
                match q.items.first() {
                    TransitionQueueItem::Start(b) => StateView {
                        transition: Transition::Next(b),
                        queue: Some(QueueView { items: q.items.drop_first(), wait_for: None }),
                        ..s
                    },
                    TransitionQueueItem::StartWait(b) => StateView {
                        transition: Transition::Next(b),
                        queue: Some(
                            QueueView {
                                items: q.items.drop_first(),
                                wait_for: Some(spec_wait_index(s)),
                            },
                        ),
                        ..s
                    },
                    TransitionQueueItem::Stop => StateView {
                        transition: Transition::Previous,
                        queue: Some(QueueView { items: q.items.drop_first(), wait_for: None }),
                        ..s
                    },
                }
            }
        },
    }
}

impl<T: Behavior> BehaviorState<T> {
    fn push(&mut self, next: T, events: &mut Vec<TransitionEvent<T>>) -> (ok: bool)
        requires
            old(self)@.memory.len() < usize::MAX,
        ensures
            final(self)@ == spec_push(old(self)@, next).0,
            final(events)@ == old(events)@ + spec_push(old(self)@, next).1,
            ok == spec_push(old(self)@, next).2,
    {
        let ghost s0 = self@;
        let ghost ev0 = events@;
        let ghost n = next;
        if self.current.filter_next(&next) {
            let mut displaced = next;
            core::mem::swap(&mut self.current, &mut displaced);
            invoke_start(&self.current, Some(&displaced));
            let index = self.memory.len();
            if displaced.is_resumable() {
                invoke_pause(&displaced, &self.current);
                events.push(TransitionEvent::Pause(Pause { index: BehaviorIndex(index) }));
                events.push(
                    TransitionEvent::Start(Start { index: BehaviorIndex(index + 1), initial: false }),
                );
                events.push(
                    TransitionEvent::Activate(
                        Activate { index: BehaviorIndex(index + 1), resume: false, initial: false },
                    ),
                );
                self.memory.push(displaced);
                proof {
                    assert(self@ =~= spec_push(s0, n).0);
                    assert(events@ =~= ev0 + spec_push(s0, n).1);
                }
                true
            } else {
                invoke_stop(&displaced, &self.current);
                events.push(
                    TransitionEvent::Stop(
                        Stop { index: BehaviorIndex(index), behavior: displaced, interrupt: false },
                    ),
                );
                events.push(
                    TransitionEvent::Start(Start { index: BehaviorIndex(index), initial: false }),
                );
                events.push(
                    TransitionEvent::Activate(
                        Activate { index: BehaviorIndex(index), resume: false, initial: false },
                    ),
                );
                proof {
                    assert(self@ =~= spec_push(s0, n).0);
                    assert(events@ =~= ev0 + spec_push(s0, n).1);
                }
                true
            }
        } else {
            events.push(
                TransitionEvent::Error(Error { error: TransitionError::RejectedNext(next) }),
            );
            proof {
                assert(events@ =~= ev0 + spec_push(s0, n).1);
            }
            false
        }
    }

    fn pop(&mut self, events: &mut Vec<TransitionEvent<T>>) -> (ok: bool)
        ensures
            final(self)@ == spec_pop(old(self)@).0,
            final(events)@ == old(events)@ + spec_pop(old(self)@).1,
            ok == spec_pop(old(self)@).2,
    {
        let ghost s0 = self@;
        let ghost ev0 = events@;
        let index = self.memory.len();
        match self.memory.pop() {
            Some(resumed) => {
                let mut displaced = resumed;
                core::mem::swap(&mut self.current, &mut displaced);
                invoke_stop(&displaced, &self.current);
                invoke_resume(&self.current, &displaced);
                events.push(
                    TransitionEvent::Stop(
                        Stop { index: BehaviorIndex(index), behavior: displaced, interrupt: false },
                    ),
                );
                events.push(
                    TransitionEvent::Resume(Resume { index: BehaviorIndex(index - 1) }),
                );
                events.push(
                    TransitionEvent::Activate(
                        Activate { index: BehaviorIndex(index - 1), resume: true, initial: false },
                    ),
                );
                proof {
                    assert(self@ =~= spec_pop(s0).0);
                    assert(events@ =~= ev0 + spec_pop(s0).1);
                }
                true
            },
            None => {
                events.push(
                    TransitionEvent::Error(Error { error: TransitionError::<T>::NoPrevious }),
                );
                proof {
                    assert(events@ =~= ev0 + spec_pop(s0).1);
                }
                false
            },
        }
    }

    fn interrupt(&mut self, next: T, events: &mut Vec<TransitionEvent<T>>)
        requires
            old(self)@.memory.len() < usize::MAX,
        ensures
            final(self)@ == spec_interrupt(old(self)@, next).0,
            final(events)@ == old(events)@ + spec_interrupt(old(self)@, next).1,
    {
        let ghost s0 = self@;
        let ghost ev0 = events@;
        let ghost n = next;
        while self.current.filter_yield(&next) && !self.memory.is_empty()
            invariant
                n == next,
                self@.memory.len() <= s0.memory.len(),
                s0.memory.len() < usize::MAX,
                ev0.is_prefix_of(events@),
                spec_interrupt(s0, n).0 == spec_interrupt(self@, n).0,
                spec_interrupt(s0, n).2 == spec_interrupt(self@, n).2,
                spec_interrupt(s0, n).1 == events@.skip(ev0.len() as int) + spec_interrupt(
                    self@,
                    n,
                ).1,
            decreases self@.memory.len(),
        {
            let ghost s_iter = self@;
            let ghost ev_iter = events@;
            let index = self.memory.len();
            match self.memory.pop() {
                Some(top) => {
                    let mut displaced = top;
                    core::mem::swap(&mut self.current, &mut displaced);
                    invoke_stop(&displaced, &self.current);
                    events.push(
                        TransitionEvent::Stop(
                            Stop {
                                index: BehaviorIndex(index),
                                behavior: displaced,
                                interrupt: true,
                            },
                        ),
                    );
                    proof {
                        assert(self@ =~= (StateView {
                            current: s_iter.memory.last(),
                            memory: s_iter.memory.drop_last(),
                            ..s_iter
                        }));
                        assert(spec_interrupt(s_iter, n).1 == seq![
                            ev_stop(s_iter.memory.len(), s_iter.current, true),
                        ] + spec_interrupt(self@, n).1);
                        assert(events@.skip(ev0.len() as int) =~= ev_iter.skip(ev0.len() as int)
                            + seq![ev_stop(s_iter.memory.len(), s_iter.current, true)]);
                        assert(spec_interrupt(s0, n).1 == events@.skip(ev0.len() as int)
                            + spec_interrupt(self@, n).1) by {
                            assert(ev_iter.skip(ev0.len() as int) + (seq![
                                ev_stop(s_iter.memory.len(), s_iter.current, true),
                            ] + spec_interrupt(self@, n).1) =~= (ev_iter.skip(ev0.len() as int)
                                + seq![ev_stop(s_iter.memory.len(), s_iter.current, true)])
                                + spec_interrupt(self@, n).1);
                        }
                    }
                },
                None => {
                    proof {
                        assert(false);
                    }
                },
            }
        }
        let ghost s_exit = self@;
        let ghost ev_exit = events@;
        proof {
            assert(spec_interrupt(s_exit, n) == spec_push(s_exit, n));
        }
        self.push(next, events);
        proof {
            assert(self@ == spec_interrupt(s0, n).0);
            assert(ev_exit =~= ev0 + ev_exit.skip(ev0.len() as int));
            assert(events@ =~= ev0 + spec_interrupt(s0, n).1) by {
                assert((ev0 + ev_exit.skip(ev0.len() as int)) + spec_push(s_exit, n).1 =~= ev0 + (
                ev_exit.skip(ev0.len() as int) + spec_push(s_exit, n).1));
            }
        }
    }

    fn clear(&mut self, index: BehaviorIndex, events: &mut Vec<TransitionEvent<T>>)
        ensures
            final(self)@ == spec_clear(old(self)@, index).0,
            final(events)@ == old(events)@ + spec_clear(old(self)@, index).1,
    {
        let ghost s0 = self@;
        let ghost ev0 = events@;
        let bound = index.next();
        while self.memory.len() > bound.0
            invariant
                index.0 < usize::MAX ==> bound.0 == index.0 + 1,
                index.0 == usize::MAX ==> bound.0 == usize::MAX,
                ev0.is_prefix_of(events@),
                self@.current == s0.current,
                spec_clear(s0, index).0 == spec_clear(self@, index).0,
                spec_clear(s0, index).2 == spec_clear(self@, index).2,
                spec_clear(s0, index).1 == events@.skip(ev0.len() as int) + spec_clear(
                    self@,
                    index,
                ).1,
            decreases self@.memory.len(),
        {
            let ghost s_iter = self@;
            let ghost ev_iter = events@;
            let depth = self.memory.len();
            match self.memory.pop() {
                Some(discarded) => {
                    match self.memory.previous() {
                        Some(below) => invoke_stop(&discarded, below),
                        None => {
                            proof {
                                assert(false);
                            }
                        },
                    }
                    events.push(
                        TransitionEvent::Stop(
                            Stop {
                                index: BehaviorIndex(depth),
                                behavior: discarded,
                                interrupt: true,
                            },
                        ),
                    );
                    proof {
                        assert(self@ =~= (StateView { memory: s_iter.memory.drop_last(), ..s_iter }));
                        assert(spec_clear(s_iter, index).1 == seq![
                            ev_stop(s_iter.memory.len(), s_iter.memory.last(), true),
                        ] + spec_clear(self@, index).1);
                        assert(events@.skip(ev0.len() as int) =~= ev_iter.skip(ev0.len() as int)
                            + seq![ev_stop(s_iter.memory.len(), s_iter.memory.last(), true)]);
                        assert(spec_clear(s0, index).1 == events@.skip(ev0.len() as int)
                            + spec_clear(self@, index).1) by {
                            assert(ev_iter.skip(ev0.len() as int) + (seq![
                                ev_stop(s_iter.memory.len(), s_iter.memory.last(), true),
                            ] + spec_clear(self@, index).1) =~= (ev_iter.skip(ev0.len() as int)
                                + seq![ev_stop(s_iter.memory.len(), s_iter.memory.last(), true)])
                                + spec_clear(self@, index).1);
                        }
                    }
                },
                None => {
                    proof {
                        assert(false);
                    }
                },
            }
        }
        let ghost s_exit = self@;
        let ghost ev_exit = events@;
        proof {
            assert(spec_clear(s_exit, index) == spec_pop(s_exit));
        }
        self.pop(events);
        proof {
            assert(self@ == spec_clear(s0, index).0);
            assert(ev_exit =~= ev0 + ev_exit.skip(ev0.len() as int));
            assert(events@ =~= ev0 + spec_clear(s0, index).1) by {
                assert((ev0 + ev_exit.skip(ev0.len() as int)) + spec_pop(s_exit).1 =~= ev0 + (
                ev_exit.skip(ev0.len() as int) + spec_pop(s_exit).1));
            }
        }
    }

    fn bootstrap(&mut self, events: &mut Vec<TransitionEvent<T>>)
        requires
            old(self)@.added,
        ensures
            final(self)@ == (StateView { added: false, ..old(self)@ }),
            final(events)@ == old(events)@ + spec_bootstrap_events::<T>(old(self)@.memory.len()),
    {
        let ghost s0 = self@;
        let ghost ev0 = events@;
        invoke_start(&self.current, None);
        events.push(
            TransitionEvent::Start(Start { index: BehaviorIndex(0), initial: true }),
        );
        events.push(
            TransitionEvent::Activate(
                Activate { index: BehaviorIndex(0), resume: false, initial: true },
            ),
        );
        let depth = self.memory.len();
        let mut i: usize = 0;
        proof {
            assert(events@ =~= ev0 + spec_bootstrap_events::<T>(0));
        }
        while i < depth
            invariant
                i <= depth,
                depth == self@.memory.len(),
                self@ == s0,
                events@ == ev0 + spec_bootstrap_events::<T>(i as nat),
            decreases depth - i,
        {
            events.push(TransitionEvent::Pause(Pause { index: BehaviorIndex(i) }));
            events.push(
                TransitionEvent::Start(Start { index: BehaviorIndex(i + 1), initial: true }),
            );
            events.push(
                TransitionEvent::Activate(
                    Activate { index: BehaviorIndex(i + 1), resume: false, initial: true },
                ),
            );
            i = i + 1;
            proof {
                assert(spec_bootstrap_events::<T>(i as nat) == spec_bootstrap_events::<T>(
                    (i - 1) as nat,
                ) + seq![
                    ev_pause((i - 1) as nat),
                    ev_start(i as nat, true),
                    ev_activate(i as nat, false, true),
                ]);
                assert(events@ =~= ev0 + spec_bootstrap_events::<T>(i as nat));
            }
        }
        self.added = false;
        proof {
            assert(self@ =~= (StateView { added: false, ..s0 }));
        }
    }

    fn queue_step(&mut self, interrupted: bool, stop_index: Option<BehaviorIndex>)
        ensures
            final(self)@ == spec_queue_step(old(self)@, interrupted, stop_index),
    {
        let ghost s0 = self@;
        let queue_taken = self.queue.take();
        match queue_taken {
            None => {
                proof {
                    assert(self@ =~= spec_queue_step(s0, interrupted, stop_index));
                }
            },
            Some(mut q) => {
                if interrupted || q.is_empty() {
                    proof {
                        assert(self@ =~= spec_queue_step(s0, interrupted, stop_index));
                    }
                } else {
                    let waiting_elsewhere = match q.wait_target() {
                        Some(w) => match stop_index {
                            Some(si) => si.0 != w.0,
                            None => true,
                        },
                        None => false,
                    };
                    if waiting_elsewhere {
                        self.queue = Some(q);
                        proof {
                            assert(self@ =~= spec_queue_step(s0, interrupted, stop_index));
                        }
                    } else {
                        match q.pop_front() {
                            Some(TransitionQueueItem::Start(b)) => {
                                q.set_wait(None);
                                self.queue = Some(q);
                                self.transition = Transition::Next(b);
                            },
                            Some(TransitionQueueItem::StartWait(b)) => {
                                let wait = self.current_index().next();
                                q.set_wait(Some(wait));
                                self.queue = Some(q);
                                self.transition = Transition::Next(b);
                            },
                            Some(TransitionQueueItem::Stop) => {
                                q.set_wait(None);
                                self.queue = Some(q);
                                self.transition = Transition::Previous;
                            },
                            None => {
                                proof {
                                    assert(false);
                                }
                            },
                        }
                        proof {
                            assert(self@ =~= spec_queue_step(s0, interrupted, stop_index));
                        }
                    }
                }
            },
        }
    }
}

/// What one engine tick does to state `s`: the bootstrap notifications if
/// the entity is newly added, then the pending request is consumed and
/// applied, then the attached queue reacts.
pub open spec fn spec_transition<T: Behavior>(s: StateView<T>) -> (
    StateView<T>,
    Seq<TransitionEvent<T>>,
) {
    let s0 = if s.added {
        StateView { added: false, ..s }
    } else {
        s
    };
    let boot = if s.added {
        spec_bootstrap_events::<T>(s.memory.len())
    } else {
        Seq::<TransitionEvent<T>>::empty()
    };
    let s1 = StateView { transition: Transition::Idle, ..s0 };
    let step = match s0.transition {
        Transition::Idle => (s1, Seq::<TransitionEvent<T>>::empty(), false),
        Transition::Next(next) => spec_push(s1, next),
        Transition::Previous => spec_pop(s1),
        Transition::Interrupt(Interruption::Start(next)) => (
            spec_interrupt(s1, next).0,
            spec_interrupt(s1, next).1,
            false,
        ),
        Transition::Interrupt(Interruption::Resume(index)) => (
            spec_clear(s1, index).0,
            spec_clear(s1, index).1,
            false,
        ),
    };
    let interrupted = match s0.transition {
        Transition::Idle => false,
        Transition::Next(next) => !step.2,
        Transition::Previous => !step.2,
        Transition::Interrupt(i) => true,
    };
    let stop_index = if s0.transition is Previous {
        Some(BehaviorIndex(s1.memory.len() as usize))
    } else {
        None
    };
    (spec_queue_step(step.0, interrupted, stop_index), boot + step.1)
}

/// Runs one engine tick on the given state: emits the bootstrap
/// notifications if the state was newly created, consumes the pending
/// request (leaving the slot idle), applies it, and lets the attached queue
/// feed the next request.
///
/// Returns the notifications produced, in order. The state afterwards and
/// the notifications are exactly what [`spec_transition`] says.
pub fn transition<T: Behavior>(machine: &mut BehaviorState<T>) -> (events: Vec<TransitionEvent<T>>)
    requires
        old(machine)@.memory.len() < usize::MAX,
    ensures
        final(machine)@ == spec_transition(old(machine)@).0,
        events@ == spec_transition(old(machine)@).1,
{
    let ghost s_orig = machine@;
    let mut events: Vec<TransitionEvent<T>> = Vec::new();
    if machine.added {
        machine.bootstrap(&mut events);
    }
    let request = machine.transition.take();
    let mut interrupted = false;
    let mut stop_index: Option<BehaviorIndex> = None;
    match request {
        Transition::Idle => {},
        Transition::Next(next) => {
            let ok = machine.push(next, &mut events);
            interrupted = !ok;
        },
        Transition::Previous => {
            stop_index = Some(machine.current_index());
            let ok = machine.pop(&mut events);
            interrupted = !ok;
        },
        Transition::Interrupt(Interruption::Start(next)) => {
            machine.interrupt(next, &mut events);
            interrupted = true;
        },
        Transition::Interrupt(Interruption::Resume(index)) => {
            machine.clear(index, &mut events);
            interrupted = true;
        },
    }
    machine.queue_step(interrupted, stop_index);
    proof {
        assert(machine@ =~= spec_transition(s_orig).0);
        assert(events@ =~= spec_transition(s_orig).1);
    }
    events
}

} // verus!
