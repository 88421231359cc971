//! The guarantees the transition engine gives, stated and proved over the
//! engine's own specification.

use vstd::prelude::*;

use crate::events::{ev_activate, ev_pause, ev_start, Activate, Start, TransitionEvent};
use crate::state::{
    loaded_view, spec_bootstrap_events, spec_clear, spec_current_index, spec_interrupt, spec_pop,
    spec_push, spec_transition, StateView,
};
use crate::transition::Transition;
use crate::Behavior;

verus! {

/// Holds when `event` is not a forced stop of the initial behavior: any stop
/// notification carrying `interrupt` names a positive stack depth.
pub open spec fn spares_the_initial<T: Behavior>(event: TransitionEvent<T>) -> bool {
    match event {
        TransitionEvent::Stop(st) => st.interrupt ==> st.index.0 > 0,
        _ => true,
    }
}

proof fn lemma_bootstrap_spares_the_initial<T: Behavior>(depth: nat)
    ensures
        forall|i: int|
            0 <= i < spec_bootstrap_events::<T>(depth).len() ==> spares_the_initial(
                #[trigger] spec_bootstrap_events::<T>(depth)[i],
            ),
    decreases depth,
{
    let evs = spec_bootstrap_events::<T>(depth);
    if depth > 0 {
        lemma_bootstrap_spares_the_initial::<T>((depth - 1) as nat);
        let pre = spec_bootstrap_events::<T>((depth - 1) as nat);
        assert forall|i: int| 0 <= i < evs.len() implies spares_the_initial(#[trigger] evs[i]) by {
            if i < pre.len() {
                assert(evs[i] == pre[i]);
            } else {
                assert(!(evs[i] is Stop));
            }
        }
    } else {
        assert forall|i: int| 0 <= i < evs.len() implies spares_the_initial(#[trigger] evs[i]) by {
            assert(!(evs[i] is Stop));
        }
    }
}

proof fn lemma_interrupt_spares_the_initial<T: Behavior>(s: StateView<T>, next: T)
    requires
        s.memory.len() <= usize::MAX,
    ensures
        forall|i: int|
            0 <= i < spec_interrupt(s, next).1.len() ==> spares_the_initial(
                #[trigger] spec_interrupt(s, next).1[i],
            ),
    decreases s.memory.len(),
{
    let evs = spec_interrupt(s, next).1;
    if s.current.allows_yield(&next) && s.memory.len() > 0 {
        let unwound = StateView { current: s.memory.last(), memory: s.memory.drop_last(), ..s };
        lemma_interrupt_spares_the_initial(unwound, next);
        let rest = spec_interrupt(unwound, next).1;
        assert(evs == seq![crate::events::ev_stop(s.memory.len(), s.current, true)] + rest);
        assert forall|i: int| 0 <= i < evs.len() implies spares_the_initial(#[trigger] evs[i]) by {
            if i == 0 {
                assert(evs[0] == crate::events::ev_stop(s.memory.len(), s.current, true));
            } else {
                assert(evs[i] == rest[i - 1]);
            }
        }
    } else {
        lemma_push_spares_the_initial(s, next);
    }
}

proof fn lemma_push_spares_the_initial<T: Behavior>(s: StateView<T>, next: T)
    ensures
        forall|i: int|
            0 <= i < spec_push(s, next).1.len() ==> spares_the_initial(
                #[trigger] spec_push(s, next).1[i],
            ),
{
    let evs = spec_push(s, next).1;
    assert forall|i: int| 0 <= i < evs.len() implies spares_the_initial(#[trigger] evs[i]) by {
        match evs[i] {
            TransitionEvent::Stop(st) => {
                assert(!st.interrupt);
            },
            _ => {},
        }
    }
}

proof fn lemma_pop_spares_the_initial<T: Behavior>(s: StateView<T>)
    ensures
        forall|i: int|
            0 <= i < spec_pop(s).1.len() ==> spares_the_initial(#[trigger] spec_pop(s).1[i]),
{
    let evs = spec_pop(s).1;
    assert forall|i: int| 0 <= i < evs.len() implies spares_the_initial(#[trigger] evs[i]) by {
        match evs[i] {
            TransitionEvent::Stop(st) => {
                assert(!st.interrupt);
            },
            _ => {},
        }
    }
}

proof fn lemma_clear_spares_the_initial<T: Behavior>(s: StateView<T>, index: crate::BehaviorIndex)
    requires
        s.memory.len() <= usize::MAX,
    ensures
        forall|i: int|
            0 <= i < spec_clear(s, index).1.len() ==> spares_the_initial(
                #[trigger] spec_clear(s, index).1[i],
            ),
    decreases s.memory.len(),
{
    let evs = spec_clear(s, index).1;
    if s.memory.len() > index.0 + 1 {
        let shrunk = StateView { memory: s.memory.drop_last(), ..s };
        lemma_clear_spares_the_initial(shrunk, index);
        let rest = spec_clear(shrunk, index).1;
        assert(evs == seq![crate::events::ev_stop(s.memory.len(), s.memory.last(), true)] + rest);
        assert forall|i: int| 0 <= i < evs.len() implies spares_the_initial(#[trigger] evs[i]) by {
            if i == 0 {
                assert(evs[0] == crate::events::ev_stop(s.memory.len(), s.memory.last(), true));
            } else {
                assert(evs[i] == rest[i - 1]);
            }
        }
    } else {
        lemma_pop_spares_the_initial(s);
    }
}

/// Law: the initial behavior is never forced out. No tick ever records a
/// stop notification with the `interrupt` flag for stack depth zero: an
/// interrupt unwind halts before it would pop the bottom of the stack, and
/// an interrupt resume never discards the behavior it lands on.
///
/// The companions of this law live in the types themselves: popping with an
/// empty stack reports [`NoPrevious`] and changes nothing (see
/// [`spec_pop`]), and the initial index has no previous index (see
/// [`BehaviorIndex::previous`]).
///
/// [`NoPrevious`]: crate::TransitionError::NoPrevious
/// [`BehaviorIndex::previous`]: crate::BehaviorIndex::previous
pub proof fn lemma_initial_is_never_force_stopped<T: Behavior>(s: StateView<T>)
    requires
        s.memory.len() <= usize::MAX,
    ensures
        forall|i: int|
            0 <= i < spec_transition(s).1.len() ==> spares_the_initial(
                #[trigger] spec_transition(s).1[i],
            ),
{
    lemma_bootstrap_spares_the_initial::<T>(s.memory.len());
    let s0 = if s.added {
        StateView { added: false, ..s }
    } else {
        s
    };
    let s1 = StateView { transition: Transition::Idle, ..s0 };
    match s0.transition {
        Transition::Idle => {},
        Transition::Next(next) => {},
        Transition::Previous => {},
        Transition::Interrupt(crate::Interruption::Start(next)) => {
            lemma_interrupt_spares_the_initial(s1, next);
        },
        Transition::Interrupt(crate::Interruption::Resume(index)) => {
            lemma_clear_spares_the_initial(s1, index);
        },
    }
}

/// Law: the depth invariant. After any tick the index of the current
/// behavior equals the number of remembered behaviors beneath it.
///
/// The engine never stores the current index: [`spec_current_index`] — what
/// [`BehaviorState::current_index`] returns — is the memory depth by
/// definition, so no cascade of stops within a tick can leave the two out
/// of step once the tick completes.
///
/// [`BehaviorState::current_index`]: crate::BehaviorState::current_index
pub proof fn lemma_depth_is_current_index<T: Behavior>(s: StateView<T>)
    ensures
        spec_current_index(spec_transition(s).0) == spec_transition(s).0.memory.len(),
{
}

/// Law: a drained machine is at rest. Once no request is pending, no queue
/// is attached, and the bootstrap notifications have been delivered, a tick
/// changes nothing and records no notifications — and therefore so does any
/// number of further ticks.
pub proof fn lemma_tick_at_rest_is_stutter<T: Behavior>(s: StateView<T>)
    requires
        s.transition is Idle,
        s.queue is None,
        !s.added,
    ensures
        spec_transition(s).0 == s,
        spec_transition(s).1 == Seq::<TransitionEvent<T>>::empty(),
{
    assert(spec_transition(s).0 =~= s);
    assert(spec_transition(s).1 =~= Seq::<TransitionEvent<T>>::empty());
}

/// Marks a notification as a bootstrap one: starts and activations get the
/// `initial` flag; everything else is unchanged.
pub open spec fn with_initial<T: Behavior>(event: TransitionEvent<T>) -> TransitionEvent<T> {
    match event {
        TransitionEvent::Start(st) => TransitionEvent::Start(Start { initial: true, ..st }),
        TransitionEvent::Activate(a) => TransitionEvent::Activate(Activate { initial: true, ..a }),
        _ => event,
    }
}

/// Holds when the saved pair (`current`, `memory`) could have arisen from
/// live pushes alone: every remembered behavior is resumable and allowed the
/// behavior pushed on top of it.
pub open spec fn replayable<T: Behavior>(current: T, memory: Seq<T>) -> bool
    decreases memory.len(),
{
    if memory.len() == 0 {
        true
    } else {
        &&& memory.last().resumable()
        &&& memory.last().allows_next(&current)
        &&& replayable(memory.last(), memory.drop_last())
    }
}

/// The notifications that performing the saved history live would have
/// produced: the activation of the bottom behavior at spawn, then the
/// notifications of each push, in order.
pub open spec fn replay_events<T: Behavior>(current: T, memory: Seq<T>) -> Seq<TransitionEvent<T>>
    decreases memory.len(),
{
    if memory.len() == 0 {
        seq![ev_start(0, true), ev_activate(0, false, true)]
    } else {
        replay_events(memory.last(), memory.drop_last()) + spec_push(
            StateView {
                current: memory.last(),
                memory: memory.drop_last(),
                transition: Transition::Idle,
                queue: None,
                added: false,
            },
            current,
        ).1
    }
}

proof fn lemma_bootstrap_replays<T: Behavior>(current: T, memory: Seq<T>)
    requires
        replayable(current, memory),
    ensures
        spec_bootstrap_events::<T>(memory.len()) == replay_events(current, memory).map_values(
            |e: TransitionEvent<T>| with_initial(e),
        ),
    decreases memory.len(),
{
    let f = |e: TransitionEvent<T>| with_initial(e);
    if memory.len() == 0 {
        assert(spec_bootstrap_events::<T>(0) =~= replay_events(current, memory).map_values(f));
    } else {
        let below = memory.last();
        let rest = memory.drop_last();
        lemma_bootstrap_replays(below, rest);
        let prev_state = StateView {
            current: below,
            memory: rest,
            transition: Transition::<T>::Idle,
            queue: None,
            added: false,
        };
        let pushed = spec_push(prev_state, current).1;
        assert(pushed == seq![
            ev_pause::<T>(rest.len()),
            ev_start::<T>((rest.len() + 1) as nat, false),
            ev_activate::<T>((rest.len() + 1) as nat, false, false),
        ]);
        assert(replay_events(current, memory).map_values(f) =~= replay_events(
            below,
            rest,
        ).map_values(f) + pushed.map_values(f));
        assert(pushed.map_values(f) =~= seq![
            ev_pause::<T>(rest.len()),
            ev_start::<T>((rest.len() + 1) as nat, true),
            ev_activate::<T>((rest.len() + 1) as nat, false, true),
        ]);
        assert(spec_bootstrap_events::<T>(memory.len()) =~= replay_events(
            current,
            memory,
        ).map_values(f));
    }
}

/// Law: the round trip. Saving a behavior with its memory stack, loading the
/// pair onto a fresh entity, and running one tick yields exactly the
/// notifications that the earlier live history — a spawn followed by one
/// push per remembered behavior — would have produced, each start and
/// activation marked `initial`; and the state afterwards is the saved state,
/// at rest.
pub proof fn lemma_round_trip<T: Behavior>(current: T, memory: Seq<T>)
    requires
        replayable(current, memory),
    ensures
        spec_transition(loaded_view(current, memory)).0 == (StateView {
            current,
            memory,
            transition: Transition::<T>::Idle,
            queue: None,
            added: false,
        }),
        spec_transition(loaded_view(current, memory)).1 == replay_events(
            current,
            memory,
        ).map_values(|e: TransitionEvent<T>| with_initial(e)),
{
    lemma_bootstrap_replays(current, memory);
    assert(spec_transition(loaded_view(current, memory)).0 =~= (StateView {
        current,
        memory,
        transition: Transition::<T>::Idle,
        queue: None,
        added: false,
    }));
    assert(spec_transition(loaded_view(current, memory)).1 =~= spec_bootstrap_events::<T>(
        memory.len(),
    ));
}

} // verus!
