//! Pending transition requests and scripted transition queues.

use std::collections::VecDeque;

use vstd::prelude::*;

use crate::index::BehaviorIndex;
use crate::Behavior;

verus! {

/// The single pending operation to apply on the next engine tick.
///
/// At most one request is pending per entity per tick; writing a new request
/// while one is pending overwrites it.
#[derive(Clone, Debug, PartialEq, Eq)]
pub enum Transition<T: Behavior> {
    /// No pending request.
    Idle,
    /// Starts the next behavior on top of the current one.
    Next(T),
    /// Forcibly unwinds the stack before acting.
    Interrupt(Interruption<T>),
    /// Stops the current behavior and resumes the previous one.
    Previous,
}

impl<T: Behavior> Transition<T> {
    /// Returns `true` if there is no pending request.
    pub fn is_none(&self) -> (r: bool)
        ensures
            r == (self is Idle),
    {
        matches!(self, Transition::Idle)
    }

    /// Removes and returns the pending request, leaving the slot idle.
    pub(crate) fn take(&mut self) -> (t: Self)
        ensures
            *final(self) is Idle,
            t == *old(self),
    {
        let mut t = Transition::Idle;
        core::mem::swap(self, &mut t);
        t
    }
}

impl<T: Behavior> Default for Transition<T> {
    fn default() -> (r: Self)
        ensures
            r is Idle,
    {
        Transition::Idle
    }
}

/// A transition which may stop active behaviors before activating another.
#[derive(Clone, Debug, PartialEq, Eq)]
pub enum Interruption<T: Behavior> {
    /// Stops every behavior which yields to the given behavior, then starts
    /// it.
    Start(T),
    /// Resumes the behavior at the given index by stopping every behavior
    /// above it in the stack.
    Resume(BehaviorIndex),
}

/// The reason a transition failed.
#[derive(Clone, Debug, PartialEq, Eq)]
pub enum TransitionError<T: Behavior> {
    /// The given behavior was rejected by the current behavior's
    /// `filter_next`.
    RejectedNext(T),
    /// The initial behavior may not be stopped.
    NoPrevious,
}

/// One step of a [`TransitionQueue`].
#[derive(Clone, Debug, PartialEq, Eq)]
pub enum TransitionQueueItem<T: Behavior> {
    /// Start the given behavior and continue with the next step.
    Start(T),
    /// Start the given behavior and hold the queue until the behavior stops.
    StartWait(T),
    /// Stop the current behavior.
    Stop,
}

/// The abstract value of a [`TransitionQueue`]: its remaining items, front
/// first, and the index the queue is waiting on, if any.
#[verifier::ext_equal]
pub ghost struct QueueView<T: Behavior> {
    /// The remaining queue items, front first.
    pub items: Seq<TransitionQueueItem<T>>,
    /// The index whose stop the queue is waiting for, if any.
    pub wait_for: Option<BehaviorIndex>,
}

/// A queue of transitions to be fed to the engine automatically, one per
/// tick.
///
/// The engine consumes the queue front to back, except while the queue waits
/// for a started behavior to stop. The queue is removed from the entity when
/// it is drained, or when any transition it triggered fails or is
/// interrupted.
#[derive(Clone, Debug)]
pub struct TransitionQueue<T: Behavior> {
    queue: VecDeque<TransitionQueueItem<T>>,
    wait_for: Option<BehaviorIndex>,
}

impl<T: Behavior> View for TransitionQueue<T> {
    type V = QueueView<T>;

    closed spec fn view(&self) -> QueueView<T> {
        QueueView { items: self.queue@, wait_for: self.wait_for }
    }
}

impl<T: Behavior> TransitionQueue<T> {
    /// Creates an empty queue.
    pub fn empty() -> (r: Self)
        ensures
            r@.items == Seq::<TransitionQueueItem<T>>::empty(),
            r@.wait_for is None,
    {
        TransitionQueue { queue: VecDeque::new(), wait_for: None }
    }

    /// Creates a queue which starts each given behavior in order, each on top
    /// of the previous one.
    ///
    /// Each transition in the chain must be allowed by `filter_next`; the
    /// queue is discarded if any transition fails.
    pub fn chain(items: Vec<T>) -> (r: Self)
        ensures
            r@.items == items@.map_values(|b: T| TransitionQueueItem::Start(b)),
            r@.wait_for is None,
    {
        let ghost all = items@;
        let mut items = items;
        let mut r = TransitionQueue::<T>::empty();
        while items.len() > 0
            invariant
                items@ == all.skip(all.len() - items@.len()),
                items@.len() <= all.len(),
                r@.items == all.take(all.len() - items@.len()).map_values(
                    |b: T| TransitionQueueItem::Start(b),
                ),
                r@.wait_for is None,
            decreases items@.len(),
        {
            let ghost done = all.len() - items@.len();
            let b = items.remove(0);
            assert(b == all[done]);
            r.queue.push_back(TransitionQueueItem::Start(b));
            proof {
                assert(items@ =~= all.skip(done + 1));
                assert(r@.items =~= all.take(done + 1).map_values(
                    |b: T| TransitionQueueItem::Start(b),
                ));
            }
        }
        proof {
            assert(r@.items =~= all.map_values(|b: T| TransitionQueueItem::Start(b)));
        }
        r
    }

    /// Creates a queue which starts each given behavior in order, each on top
    /// of the previous one.
    pub fn new(items: Vec<T>) -> (r: Self)
        ensures
            r@.items == items@.map_values(|b: T| TransitionQueueItem::Start(b)),
            r@.wait_for is None,
    {
        TransitionQueue::chain(items)
    }

    /// Creates a queue which starts each given behavior in order, waiting for
    /// each one to stop before starting the next.
    ///
    /// Each transition from the then-current behavior to the next element
    /// must be allowed by `filter_next`; the queue is discarded if any
    /// transition fails.
    pub fn sequence(items: Vec<T>) -> (r: Self)
        ensures
            r@.items == items@.map_values(|b: T| TransitionQueueItem::StartWait(b)),
            r@.wait_for is None,
    {
        let ghost all = items@;
        let mut items = items;
        let mut r = TransitionQueue::<T>::empty();
        while items.len() > 0
            invariant
                items@ == all.skip(all.len() - items@.len()),
                items@.len() <= all.len(),
                r@.items == all.take(all.len() - items@.len()).map_values(
                    |b: T| TransitionQueueItem::StartWait(b),
                ),
                r@.wait_for is None,
            decreases items@.len(),
        {
            let ghost done = all.len() - items@.len();
            let b = items.remove(0);
            assert(b == all[done]);
            r.queue.push_back(TransitionQueueItem::StartWait(b));
            proof {
                assert(items@ =~= all.skip(done + 1));
                assert(r@.items =~= all.take(done + 1).map_values(
                    |b: T| TransitionQueueItem::StartWait(b),
                ));
            }
        }
        proof {
            assert(r@.items =~= all.map_values(|b: T| TransitionQueueItem::StartWait(b)));
        }
        r
    }

    /// Creates a queue which starts with the given behavior.
    pub fn start(next: T) -> (r: Self)
        ensures
            r@.items == seq![TransitionQueueItem::Start(next)],
            r@.wait_for is None,
    {
        let mut r = TransitionQueue::<T>::empty();
        r.queue.push_back(TransitionQueueItem::Start(next));
        proof {
            assert(r@.items =~= seq![TransitionQueueItem::Start(next)]);
        }
        r
    }

    /// Creates a queue which starts by stopping the current behavior.
    pub fn stop() -> (r: Self)
        ensures
            r@.items == seq![TransitionQueueItem::<T>::Stop],
            r@.wait_for is None,
    {
        let mut r = TransitionQueue::<T>::empty();
        r.queue.push_back(TransitionQueueItem::Stop);
        proof {
            assert(r@.items =~= seq![TransitionQueueItem::<T>::Stop]);
        }
        r
    }

    /// Creates a queue which starts with the given behavior and waits for it
    /// to stop.
    pub fn wait_for(next: T) -> (r: Self)
        ensures
            r@.items == seq![TransitionQueueItem::StartWait(next)],
            r@.wait_for is None,
    {
        let mut r = TransitionQueue::<T>::empty();
        r.queue.push_back(TransitionQueueItem::StartWait(next));
        proof {
            assert(r@.items =~= seq![TransitionQueueItem::StartWait(next)]);
        }
        r
    }

    /// Returns `true` if the queue has no remaining items.
    pub fn is_empty(&self) -> (r: bool)
        ensures
            r == (self@.items.len() == 0),
    {
        self.queue.len() == 0
    }

    /// Returns the number of remaining items in the queue.
    pub fn len(&self) -> (r: usize)
        ensures
            r == self@.items.len(),
    {
        self.queue.len()
    }

    /// Extends the queue by starting the next behavior.
    pub fn then_start(self, next: T) -> (r: Self)
        ensures
            r@.items == self@.items.push(TransitionQueueItem::Start(next)),
            r@.wait_for == self@.wait_for,
    {
        let mut r = self;
        r.queue.push_back(TransitionQueueItem::Start(next));
        r
    }

    /// Extends the queue by starting the next behavior, if and only if
    /// `condition` is true.
    pub fn then_if(self, condition: bool, next: T) -> (r: Self)
        ensures
            condition ==> r@.items == self@.items.push(TransitionQueueItem::Start(next)),
            !condition ==> r == self,
            r@.wait_for == self@.wait_for,
    {
        if condition {
            return self.then_start(next);
        }
        self
    }

    /// Extends the queue by starting the next behavior and waiting for it to
    /// stop.
    pub fn then_wait_for(self, next: T) -> (r: Self)
        ensures
            r@.items == self@.items.push(TransitionQueueItem::StartWait(next)),
            r@.wait_for == self@.wait_for,
    {
        let mut r = self;
        r.queue.push_back(TransitionQueueItem::StartWait(next));
        r
    }

    /// Extends the queue by stopping the current behavior.
    pub fn then_stop(self) -> (r: Self)
        ensures
            r@.items == self@.items.push(TransitionQueueItem::Stop),
            r@.wait_for == self@.wait_for,
    {
        let mut r = self;
        r.queue.push_back(TransitionQueueItem::Stop);
        r
    }

    /// The index the queue is currently waiting on, if any.
    pub fn wait_target(&self) -> (r: Option<BehaviorIndex>)
        ensures
            r == self@.wait_for,
    {
        self.wait_for
    }

    pub(crate) fn pop_front(&mut self) -> (r: Option<TransitionQueueItem<T>>)
        ensures
            old(self)@.items.len() > 0 ==> r == Some(old(self)@.items.first()) && final(self)@.items
                == old(self)@.items.drop_first(),
            old(self)@.items.len() == 0 ==> (r is None && final(self)@.items == old(self)@.items),
            final(self)@.wait_for == old(self)@.wait_for,
    {
        self.queue.pop_front()
    }

    pub(crate) fn set_wait(&mut self, wait_for: Option<BehaviorIndex>)
        ensures
            final(self)@.items == old(self)@.items,
            final(self)@.wait_for == wait_for,
    {
        self.wait_for = wait_for;
    }
}

/// An older name for [`TransitionQueue`].
pub type TransitionSequence<T> = TransitionQueue<T>;

} // verus!
