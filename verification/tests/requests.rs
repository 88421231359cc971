use moonshine_behavior::{
    transition, Behavior, BehaviorIndex, BehaviorState, Transition, TransitionQueue,
    TransitionQueueItem,
};

#[derive(Debug, PartialEq, Eq)]
enum B {
    S0,
    S1,
    S2,
    S3,
}

impl Behavior for B {
    // The `allows_*`/`resumable` items mirror the executable policy methods
    // below, as the `Behavior` trait contract demands.
    fn allows_next(&self, next: &Self) -> bool {
        matches!((self, next), (B::S0, B::S1) | (B::S1, B::S2) | (B::S2, B::S3))
    }

    fn allows_yield(&self, _next: &Self) -> bool {
        false
    }

    fn resumable(&self) -> bool {
        true
    }

    fn filter_next(&self, next: &Self) -> bool {
        matches!((self, next), (B::S0, B::S1) | (B::S1, B::S2) | (B::S2, B::S3))
    }

    fn filter_yield(&self, _next: &Self) -> bool {
        false
    }

    fn is_resumable(&self) -> bool {
        true
    }
}

#[test]
fn transition_push() {
    let mut m = BehaviorState::new(B::S0);
    transition(&mut m);
    let r = m.try_start(B::S1);
    transition(&mut m);
    assert!(r.is_ok());
    assert_eq!(*m.current(), B::S1);
    assert!(!m.has_transition());
}

#[test]
fn push_fail() {
    let mut m = BehaviorState::new(B::S0);
    transition(&mut m);
    let r = m.try_start(B::S2);
    transition(&mut m);
    assert!(r.is_err());
    assert_eq!(*m.current(), B::S0);
    assert!(!m.has_transition());
}

#[test]
fn transition_pop() {
    let mut m = BehaviorState::new(B::S0);
    transition(&mut m);
    let _ = m.try_start(B::S1);
    transition(&mut m);
    m.stop();
    transition(&mut m);
    assert_eq!(*m.current(), B::S0);
    assert!(!m.has_transition());
}

#[test]
fn reset() {
    let mut m = BehaviorState::new(B::S0);
    transition(&mut m);
    let _ = m.try_start(B::S1);
    transition(&mut m);
    let _ = m.try_start(B::S2);
    transition(&mut m);
    assert_eq!(*m.current(), B::S2);
    m.reset();
    transition(&mut m);
    assert_eq!(*m.current(), B::S0);
    assert!(m.previous().is_none());
    assert!(!m.has_transition());
}

#[test]
fn try_requests_respect_pending_and_bounds() {
    let mut m = BehaviorState::new(B::S0);
    transition(&mut m);

    // Nothing pending, but the initial behavior can not be stopped.
    assert!(!m.try_stop());
    // An index outside the stack is rejected.
    assert_eq!(m.try_interrupt_resume(BehaviorIndex(1)), Err(BehaviorIndex(1)));
    // The initial behavior may not be the target of an interrupt stop.
    assert_eq!(m.try_interrupt_stop(BehaviorIndex(0)), Err(BehaviorIndex(0)));

    let _ = m.try_start(B::S1);
    transition(&mut m);

    // With a request already pending, every try variant declines.
    assert_eq!(m.try_start(B::S2), Ok(()));
    assert_eq!(m.try_interrupt_start(B::S2), Err(B::S2));
    assert_eq!(m.try_interrupt_resume(BehaviorIndex(0)), Err(BehaviorIndex(0)));
    assert_eq!(m.try_interrupt_stop(BehaviorIndex(1)), Err(BehaviorIndex(1)));
    assert!(!m.try_stop());
    assert!(!m.try_reset());
    transition(&mut m);
    assert_eq!(*m.current(), B::S2);

    // try_interrupt_stop accepts a positive index in the stack.
    assert_eq!(m.try_interrupt_stop(BehaviorIndex(2)), Ok(()));
    transition(&mut m);
    assert_eq!(*m.current(), B::S1);

    assert!(m.try_reset());
    transition(&mut m);
    assert_eq!(*m.current(), B::S0);
}

#[test]
fn index_navigation() {
    assert_eq!(BehaviorIndex::initial(), BehaviorIndex(0));
    assert_eq!(BehaviorIndex::initial().previous(), None);
    assert_eq!(BehaviorIndex(3).previous(), Some(BehaviorIndex(2)));
    assert_eq!(BehaviorIndex(3).next(), BehaviorIndex(4));

    let mut m = BehaviorState::new(B::S0);
    transition(&mut m);
    assert_eq!(m.current_index(), BehaviorIndex(0));
    assert!(m.has_index(BehaviorIndex(0)));
    assert!(!m.has_index(BehaviorIndex(1)));
    let _ = m.try_start(B::S1);
    transition(&mut m);
    assert_eq!(m.current_index(), BehaviorIndex(1));
    assert!(m.has_index(BehaviorIndex(1)));
    assert_eq!(m.get(BehaviorIndex(0)), Some(&B::S0));
    assert_eq!(m.get(BehaviorIndex(1)), Some(&B::S1));
    assert_eq!(m.get(BehaviorIndex(2)), None);
}

#[test]
fn queue_builders() {
    let q: TransitionQueue<B> = TransitionQueue::empty();
    assert!(q.is_empty());
    assert_eq!(q.len(), 0);

    let q = TransitionQueue::start(B::S1)
        .then_if(true, B::S2)
        .then_if(false, B::S3)
        .then_wait_for(B::S3)
        .then_stop();
    assert_eq!(q.len(), 4);
    assert!(!q.is_empty());

    let q: TransitionQueue<B> = TransitionQueue::stop();
    assert_eq!(q.len(), 1);

    let q = TransitionQueue::wait_for(B::S1);
    assert_eq!(q.len(), 1);

    let q = TransitionQueue::new(vec![B::S1, B::S2]);
    assert_eq!(q.len(), 2);
}

#[test]
fn transition_slot() {
    let t: Transition<B> = Transition::default();
    assert!(t.is_none());
    let t: Transition<B> = Transition::Next(B::S1);
    assert!(!t.is_none());

    let mut m = BehaviorState::new(B::S0);
    transition(&mut m);
    assert!(!m.has_transition());
    m.start(B::S1);
    assert!(m.has_transition());
    transition(&mut m);
    assert!(!m.has_transition());
}

// An empty queue attached to a machine is removed by the next tick without
// any transition taking place.
#[test]
fn empty_queue_is_removed() {
    let mut m = BehaviorState::new(B::S0);
    transition(&mut m);
    m.set_queue(TransitionQueue::empty());
    assert!(m.has_sequence());
    let events = transition(&mut m);
    assert!(events.is_empty());
    assert!(!m.has_sequence());
    assert_eq!(*m.current(), B::S0);
}

// A waiting queue ignores stops at any other index and holds its remaining
// items until the awaited behavior stops.
#[test]
fn waiting_queue_holds_until_match() {
    let mut m = BehaviorState::new(B::S0);
    transition(&mut m);
    m.set_queue(TransitionQueue::wait_for(B::S1).then_start(B::S2));
    transition(&mut m); // consumes wait_for(S1), requests S1
    transition(&mut m); // pushes S1; queue now waits for index 1 to stop
    assert_eq!(*m.current(), B::S1);

    // No stop happens, so the queue keeps waiting.
    let events = transition(&mut m);
    assert!(events.is_empty());
    assert!(m.has_sequence());
    assert_eq!(*m.current(), B::S1);

    // Stopping the awaited behavior releases the queue; it requests S2,
    // which S0 rejects on the following tick, discarding the queue.
    m.stop();
    transition(&mut m);
    assert_eq!(*m.current(), B::S0);
    assert!(m.has_sequence());
    transition(&mut m);
    assert!(!m.has_sequence());
    assert_eq!(*m.current(), B::S0);
}

#[test]
fn memory_queries() {
    let mut m = BehaviorState::new(B::S0);
    transition(&mut m);
    assert!(m.memory().is_empty());
    assert_eq!(m.memory().len(), 0);
    assert!(m.memory().previous().is_none());

    let _ = m.try_start(B::S1);
    transition(&mut m);
    let _ = m.try_start(B::S2);
    transition(&mut m);

    assert_eq!(m.memory().len(), 2);
    assert!(!m.memory().is_empty());
    assert_eq!(m.memory().previous(), Some(&B::S1));
    assert_eq!(m.memory().get(0), Some(&B::S0));
    assert_eq!(m.memory().get(1), Some(&B::S1));
    assert_eq!(m.memory().get(2), None);
    assert!(m.memory().contains(&B::S0));
    assert!(m.memory().contains(&B::S1));
    assert!(!m.memory().contains(&B::S2));
    assert!(!m.memory().contains(&B::S3));

    // The current behavior can be edited in place.
    *m.current_mut() = B::S3;
    assert_eq!(*m.current(), B::S3);
}

// After every tick, the current index equals the number of remembered
// behaviors — the depth invariant, checked here on concrete runs.
#[test]
fn depth_matches_current_index() {
    let mut m = BehaviorState::new(B::S0);
    transition(&mut m);
    assert_eq!(m.current_index().0, m.memory().len());
    let _ = m.try_start(B::S1);
    transition(&mut m);
    assert_eq!(m.current_index().0, m.memory().len());
    let _ = m.try_start(B::S2);
    transition(&mut m);
    assert_eq!(m.current_index().0, m.memory().len());
    m.reset();
    transition(&mut m);
    assert_eq!(m.current_index().0, m.memory().len());
    assert_eq!(m.current_index(), BehaviorIndex(0));
}

#[test]
fn queue_items_compare() {
    let a: TransitionQueueItem<B> = TransitionQueueItem::Stop;
    let b: TransitionQueueItem<B> = TransitionQueueItem::Stop;
    assert_eq!(a, b);
    assert_ne!(TransitionQueueItem::Start(B::S1), TransitionQueueItem::StartWait(B::S1));
}
