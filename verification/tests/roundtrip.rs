use moonshine_behavior::{
    transition, Activate, Behavior, BehaviorIndex, BehaviorState, Pause, Start, Stop,
    TransitionEvent,
};

#[derive(Clone, Copy, Debug, PartialEq, Eq)]
enum W {
    Ground,
    Climb,
    Glide,
    Flash,
}

impl Behavior for W {
    // The `allows_*`/`resumable` items mirror the executable policy methods
    // below, as the `Behavior` trait contract demands.
    fn allows_next(&self, next: &Self) -> bool {
        !matches!(next, W::Ground)
    }

    fn allows_yield(&self, _next: &Self) -> bool {
        true
    }

    fn resumable(&self) -> bool {
        !matches!(self, W::Flash)
    }

    fn filter_next(&self, next: &Self) -> bool {
        !matches!(next, W::Ground)
    }

    fn filter_yield(&self, _next: &Self) -> bool {
        true
    }

    fn is_resumable(&self) -> bool {
        !matches!(self, W::Flash)
    }
}

fn mark_initial(event: &TransitionEvent<W>) -> TransitionEvent<W> {
    match event {
        TransitionEvent::Start(s) => {
            TransitionEvent::Start(Start { index: s.index, initial: true })
        }
        TransitionEvent::Activate(a) => TransitionEvent::Activate(Activate {
            index: a.index,
            resume: a.resume,
            initial: true,
        }),
        other => other.clone(),
    }
}

// Saving and reloading a stack, then running one tick, yields exactly the
// notifications of the live history with the `initial` flag set.
#[test]
fn save_load_replays_history() {
    let mut live = BehaviorState::new(W::Ground);
    let mut live_events = transition(&mut live);
    live.start(W::Climb);
    live_events.extend(transition(&mut live));
    live.start(W::Glide);
    live_events.extend(transition(&mut live));
    assert_eq!(*live.current(), W::Glide);

    let (current, stack) = live.save();
    assert_eq!(current, W::Glide);
    assert_eq!(stack, vec![W::Ground, W::Climb]);

    let mut loaded = BehaviorState::load(current, stack);
    let loaded_events = transition(&mut loaded);

    let replayed: Vec<TransitionEvent<W>> = live_events.iter().map(mark_initial).collect();
    assert_eq!(loaded_events, replayed);

    assert_eq!(*loaded.current(), W::Glide);
    assert_eq!(loaded.get(BehaviorIndex(0)).copied(), Some(W::Ground));
    assert_eq!(loaded.get(BehaviorIndex(1)).copied(), Some(W::Climb));

    // The reloaded machine is at rest afterwards.
    let quiet = transition(&mut loaded);
    assert!(quiet.is_empty());
}

// The exact bootstrap sequence for a reloaded stack of depth two.
#[test]
fn bootstrap_notifications() {
    let mut m = BehaviorState::load(W::Glide, vec![W::Ground, W::Climb]);
    let events = transition(&mut m);
    assert_eq!(
        events,
        vec![
            TransitionEvent::Start(Start { index: BehaviorIndex(0), initial: true }),
            TransitionEvent::Activate(Activate {
                index: BehaviorIndex(0),
                resume: false,
                initial: true,
            }),
            TransitionEvent::Pause(Pause { index: BehaviorIndex(0) }),
            TransitionEvent::Start(Start { index: BehaviorIndex(1), initial: true }),
            TransitionEvent::Activate(Activate {
                index: BehaviorIndex(1),
                resume: false,
                initial: true,
            }),
            TransitionEvent::Pause(Pause { index: BehaviorIndex(1) }),
            TransitionEvent::Start(Start { index: BehaviorIndex(2), initial: true }),
            TransitionEvent::Activate(Activate {
                index: BehaviorIndex(2),
                resume: false,
                initial: true,
            }),
        ]
    );
}

// A non-resumable behavior is stopped and discarded — not paused — when the
// next behavior starts, and the stack depth does not grow.
#[test]
fn non_resumable_is_discarded() {
    let mut m = BehaviorState::new(W::Ground);
    transition(&mut m);
    m.start(W::Flash);
    transition(&mut m);
    assert_eq!(*m.current(), W::Flash);
    assert_eq!(m.current_index(), BehaviorIndex(1));

    m.start(W::Glide);
    let events = transition(&mut m);
    assert_eq!(
        events,
        vec![
            TransitionEvent::Stop(Stop {
                index: BehaviorIndex(1),
                behavior: W::Flash,
                interrupt: false,
            }),
            TransitionEvent::Start(Start { index: BehaviorIndex(1), initial: false }),
            TransitionEvent::Activate(Activate {
                index: BehaviorIndex(1),
                resume: false,
                initial: false,
            }),
        ]
    );
    assert_eq!(*m.current(), W::Glide);
    assert_eq!(m.current_index(), BehaviorIndex(1));
    assert_eq!(m.previous().copied(), Some(W::Ground));
}

// Even when every behavior yields, an interrupt unwind halts at the initial
// behavior: it is never stopped with the interrupt flag.
#[test]
fn unwind_stops_at_initial() {
    let mut m = BehaviorState::new(W::Ground);
    transition(&mut m);
    m.start(W::Climb);
    transition(&mut m);
    m.start(W::Glide);
    transition(&mut m);
    assert_eq!(m.current_index(), BehaviorIndex(2));

    m.interrupt_start(W::Flash);
    let events = transition(&mut m);
    // Glide and Climb are force-stopped; Ground remains and accepts Flash.
    assert_eq!(
        events,
        vec![
            TransitionEvent::Stop(Stop {
                index: BehaviorIndex(2),
                behavior: W::Glide,
                interrupt: true,
            }),
            TransitionEvent::Stop(Stop {
                index: BehaviorIndex(1),
                behavior: W::Climb,
                interrupt: true,
            }),
            TransitionEvent::Pause(Pause { index: BehaviorIndex(0) }),
            TransitionEvent::Start(Start { index: BehaviorIndex(1), initial: false }),
            TransitionEvent::Activate(Activate {
                index: BehaviorIndex(1),
                resume: false,
                initial: false,
            }),
        ]
    );
    for event in &events {
        if let TransitionEvent::Stop(stop) = event {
            if stop.interrupt {
                assert!(stop.index.0 > 0);
            }
        }
    }
    assert_eq!(*m.current(), W::Flash);
    assert_eq!(m.previous().copied(), Some(W::Ground));
}

// An interrupt resume discards intermediate remembered behaviors with the
// interrupt flag and finishes with a normal pop onto the target.
#[test]
fn reset_notifications() {
    let mut m = BehaviorState::new(W::Ground);
    transition(&mut m);
    m.start(W::Climb);
    transition(&mut m);
    m.start(W::Glide);
    transition(&mut m);
    m.reset();
    let events = transition(&mut m);
    assert_eq!(
        events,
        vec![
            TransitionEvent::Stop(Stop {
                index: BehaviorIndex(2),
                behavior: W::Climb,
                interrupt: true,
            }),
            TransitionEvent::Stop(Stop {
                index: BehaviorIndex(1),
                behavior: W::Glide,
                interrupt: false,
            }),
            TransitionEvent::Resume(moonshine_behavior::Resume { index: BehaviorIndex(0) }),
            TransitionEvent::Activate(Activate {
                index: BehaviorIndex(0),
                resume: true,
                initial: false,
            }),
        ]
    );
    assert_eq!(*m.current(), W::Ground);
    assert_eq!(m.current_index(), BehaviorIndex(0));
}
