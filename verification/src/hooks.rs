//! Hooks: state and effects that belong to a component and survive its
//! renders. A hook call is matched to what an earlier render made by its
//! position among the hook calls of the render, so a component has to make
//! the same hook calls in the same order every time.

use vstd::prelude::*;
use crate::effect::{install, release, Effect};
use crate::model::{FrameState, RuntimeState};
use crate::runtime::{state_of, ComponentContext, Runtime, Signal};
use crate::signal::{handles_of, Getter, Setter};

verus! {

/// A state hook on `before` can end on `after` with the signal `signal`,
/// where `made` are the values that the initialiser can return: either the
/// record has a signal at the cursor, and then that signal is handed out and
/// only the cursor moves, or a new signal is made from the initialiser's
/// value and recorded.
pub open spec fn state_hook<T, E>(
    before: RuntimeState<T, E>,
    made: spec_fn(T) -> bool,
    after: RuntimeState<T, E>,
    signal: usize,
) -> bool {
    if before.top().replays_state() {
        &&& after == before.replay_state()
        &&& signal == before.top().states[before.top().state_index]
    } else {
        &&& signal == before.signals.len()
        &&& after.has_signal(signal)
        &&& made(after.value_of(signal))
        &&& after == before.allocate_state(after.value_of(signal))
    }
}

/// An effect hook with the procedure `body` on `before` can end on `after`:
/// either the record has an effect at the cursor, and then only the cursor
/// moves and `body` is dropped, or `body` becomes a new effect, runs once
/// while it is tracked, and is recorded.
pub open spec fn effect_hook<T, E: Effect<T>>(
    before: RuntimeState<T, E>,
    body: E,
    after: RuntimeState<T, E>,
) -> bool {
    if before.top().replays_effect() {
        after == before.replay_effect()
    } else {
        exists|ran: RuntimeState<T, E>|
            #![auto]
            body.runs(before.install(body), ran) && after == ran.release().note_effect(
                before.effects.len() as usize,
            )
    }
}

/// Gives the rendering component a piece of state. The first render that
/// reaches this call position makes a signal from `initial_fn`; every later
/// render of the same record gets the handles of that signal, and
/// `initial_fn` is not called.
pub fn use_state<T, E, F: FnOnce() -> T>(rt: &mut Runtime<T, E>, initial_fn: F) -> (handles: (
    Getter,
    Setter,
))
    requires
        old(rt)@.in_component(),
        !old(rt)@.top().replays_state() ==> initial_fn.requires(()),
    ensures
        state_hook(
            old(rt)@,
            |initial: T| initial_fn.ensures((), initial),
            final(rt)@,
            handles.0.signal(),
        ),
        handles.1.signal() == handles.0.signal(),
        final(rt)@.wf(),
{
    proof {
        use_type_invariant(&*rt);
    }
    let top = rt.stack.last().expect("`use_state` can only be called inside a component.");
    assert(top@ == old(rt)@.top());
    if top.state_index < top.states.len() {
        let id = top.states[top.state_index];
        skip_state(rt);
        handles_of(id)
    } else {
        let initial = initial_fn();
        let id = allocate_state(rt, initial);
        assert(rt@.value_of(id) == initial);
        handles_of(id)
    }
}

/// Moves the state cursor of the innermost record past a signal that an
/// earlier render made.
fn skip_state<T, E>(rt: &mut Runtime<T, E>)
    requires
        old(rt)@.in_component(),
        old(rt)@.top().replays_state(),
    ensures
        final(rt)@ == old(rt)@.replay_state(),
        final(rt)@.wf(),
{
    let ghost before = rt@;
    let Runtime { signals, effects, current_effect, mut stack } = rt.take();
    let mut frame = stack.pop().expect("`use_state` can only be called inside a component.");
    assert(frame@ == before.top());
    assert(frame.states@.len() == frame.states.len());
    frame.state_index = frame.state_index + 1;
    stack.push(frame);
    proof {
        let after = before.replay_state();
        let next = state_of(signals@, effects@, current_effect, stack@);
        assert(next.signals =~= after.signals);
        assert(next.effects =~= after.effects);
        assert(next.stack =~= after.stack);
        lemma_with_top_wf(before, before.top().skip_state());
    }
    *rt = Runtime::assemble(signals, effects, current_effect, stack);
}

/// Makes a signal that holds `initial`, records it at the end of the
/// innermost record and moves the state cursor on. Returns the signal's
/// number.
fn allocate_state<T, E>(rt: &mut Runtime<T, E>, initial: T) -> (id: usize)
    requires
        old(rt)@.in_component(),
        !old(rt)@.top().replays_state(),
    ensures
        final(rt)@ == old(rt)@.allocate_state(initial),
        final(rt)@.wf(),
        id == old(rt)@.signals.len(),
        final(rt)@.has_signal(id),
        final(rt)@.value_of(id) == initial,
{
    let ghost before = rt@;
    let Runtime { mut signals, effects, current_effect, mut stack } = rt.take();
    let mut frame = stack.pop().expect("`use_state` can only be called inside a component.");
    assert(frame@ == before.top());
    assert(frame@.wf());
    let id: usize = signals.len();
    signals.push(Signal { value: initial, subscribers: Vec::new() });
    frame.states.push(id);
    assert(frame.states@.len() == frame.states.len());
    frame.state_index = frame.state_index + 1;
    stack.push(frame);
    proof {
        let after = before.allocate_state(initial);
        let next = state_of(signals@, effects@, current_effect, stack@);
        assert(next.signals =~= after.signals);
        assert(next.effects =~= after.effects);
        assert(next.stack =~= after.stack);
        let middle = before.create_signal(initial);
        assert forall|i: int| 0 <= i < middle.signals.len() implies (#[trigger] middle.signals[i]).wf(
            middle.effects.len(),
        ) by {
            if i < before.signals.len() {
                assert(before.signals[i].wf(before.effects.len()));
            }
        }
        assert(middle.top() == before.top());
        lemma_with_top_wf(middle, before.top().record_state(id));
    }
    *rt = Runtime::assemble(signals, effects, current_effect, stack);
    id
}

/// Gives the rendering component an effect. The first render that reaches
/// this call position creates the effect from `body`, which runs it once;
/// every later render of the same record only moves past the position, and
/// the effect of the first render stays subscribed where it is.
pub fn use_effect<T, E: Effect<T>>(rt: &mut Runtime<T, E>, body: E)
    requires
        old(rt)@.in_component(),
    ensures
        effect_hook(old(rt)@, body, final(rt)@),
        final(rt)@.wf(),
{
    let ghost before = rt@;
    proof {
        use_type_invariant(&*rt);
    }
    let top = rt.stack.last().expect("`use_effect` can only be called inside a component.");
    let replays = top.effect_index < top.effects.len();
    assert(top@ == before.top());
    if replays {
        skip_effect(rt);
    } else {
        let id: usize = rt.effects.len();
        let effect = install(rt, body);
        effect.run(rt);
        let ghost ran = rt@;
        release(rt);
        note_effect(rt, id);
        assert(body.runs(before.install(body), ran) && rt@ == ran.release().note_effect(id));
    }
}

/// Renders a component: puts its record on the stack with both cursors at
/// zero, runs `component`, whose hook calls then work on that record, takes
/// the record off again and returns what `component` returned. The record
/// comes back through `context`, for the component's next render. A
/// component may render others from inside `component`; their records lie
/// above this one while they render.
///
/// A result of `component` that stands for a failure is returned like any
/// other, after the record was taken off.
pub fn with_component_context<T, E, R, F: FnOnce(&mut Runtime<T, E>) -> R>(
    rt: &mut Runtime<T, E>,
    context: &mut ComponentContext,
    component: F,
) -> (result: R)
    requires
        forall|scope: &mut Runtime<T, E>|
            (*scope)@ == old(rt)@.enter(old(context)@) ==> #[trigger] component.requires((scope,)),
    ensures
        exists|scope: &mut Runtime<T, E>|
            {
                &&& (*scope)@ == old(rt)@.enter(old(context)@)
                &&& #[trigger] component.ensures((scope,), result)
                &&& final(rt)@ == (*final(scope))@.leave()
                &&& final(context)@ == (*final(scope))@.left(FrameState::fresh())
            },
        final(rt)@.wf(),
{
    enter(rt, context);
    let result = component(rt);
    leave(rt, context);
    result
}

/// Starts a render: moves the record out of `context` onto the stack, with
/// both cursors at zero, and leaves a fresh record in `context`.
fn enter<T, E>(rt: &mut Runtime<T, E>, context: &mut ComponentContext)
    ensures
        final(rt)@ == old(rt)@.enter(old(context)@),
        final(context)@ == FrameState::fresh(),
{
    let ghost before = rt@;
    let mut frame = ComponentContext::new();
    std::mem::swap(context, &mut frame);
    frame.state_index = 0;
    frame.effect_index = 0;
    let Runtime { signals, effects, current_effect, mut stack } = rt.take();
    stack.push(frame);
    proof {
        let after = before.enter(old(context)@);
        let next = state_of(signals@, effects@, current_effect, stack@);
        assert(next.signals =~= after.signals);
        assert(next.effects =~= after.effects);
        assert(next.stack =~= after.stack);
        assert forall|i: int| 0 <= i < after.signals.len() implies (#[trigger] after.signals[i]).wf(
            after.effects.len(),
        ) by {
            assert(before.signals[i].wf(before.effects.len()));
        }
        assert forall|d: int| 0 <= d < after.stack.len() implies (#[trigger] after.stack[d]).wf() by {
            if d < before.stack.len() {
                assert(before.stack[d].wf());
            }
        }
    }
    *rt = Runtime::assemble(signals, effects, current_effect, stack);
}

/// Ends a render: takes the innermost record off the stack and hands it
/// back through `context`. Where no component is rendering, both stay as
/// they are.
fn leave<T, E>(rt: &mut Runtime<T, E>, context: &mut ComponentContext)
    ensures
        final(rt)@ == old(rt)@.leave(),
        final(context)@ == old(rt)@.left(old(context)@),
        final(rt)@.wf(),
{
    let ghost before = rt@;
    let Runtime { signals, effects, current_effect, mut stack } = rt.take();
    match stack.pop() {
        Some(frame) => {
            assert(frame@ == before.top());
            *context = frame;
        },
        None => {},
    }
    proof {
        let after = before.leave();
        let next = state_of(signals@, effects@, current_effect, stack@);
        assert(next.signals =~= after.signals);
        assert(next.effects =~= after.effects);
        assert(next.stack =~= after.stack);
        assert forall|i: int| 0 <= i < after.signals.len() implies (#[trigger] after.signals[i]).wf(
            after.effects.len(),
        ) by {
            assert(before.signals[i].wf(before.effects.len()));
        }
        assert forall|d: int| 0 <= d < after.stack.len() implies (#[trigger] after.stack[d]).wf() by {
            assert(before.stack[d].wf());
        }
    }
    *rt = Runtime::assemble(signals, effects, current_effect, stack);
}

/// Moves the effect cursor of the innermost record past an effect that an
/// earlier render made.
fn skip_effect<T, E>(rt: &mut Runtime<T, E>)
    requires
        old(rt)@.in_component(),
        old(rt)@.top().replays_effect(),
    ensures
        final(rt)@ == old(rt)@.replay_effect(),
        final(rt)@.wf(),
{
    let ghost before = rt@;
    let Runtime { signals, effects, current_effect, mut stack } = rt.take();
    let mut frame = stack.pop().expect("`use_effect` can only be called inside a component.");
    assert(frame@ == before.top());
    assert(frame.effects@.len() == frame.effects.len());
    frame.effect_index = frame.effect_index + 1;
    stack.push(frame);
    proof {
        let after = before.replay_effect();
        let next = state_of(signals@, effects@, current_effect, stack@);
        assert(next.signals =~= after.signals);
        assert(next.effects =~= after.effects);
        assert(next.stack =~= after.stack);
        lemma_with_top_wf(before, before.top().skip_effect());
    }
    *rt = Runtime::assemble(signals, effects, current_effect, stack);
}

/// Records `effect` at the end of the innermost record and moves the effect
/// cursor on. Does nothing where no component is rendering.
fn note_effect<T, E>(rt: &mut Runtime<T, E>, effect: usize)
    ensures
        final(rt)@ == old(rt)@.note_effect(effect),
        final(rt)@.wf(),
{
    let ghost before = rt@;
    let Runtime { signals, effects, current_effect, mut stack } = rt.take();
    match stack.pop() {
        Some(mut frame) => {
            assert(frame@ == before.top());
            assert(frame@.wf());
            frame.effects.push(effect);
            assert(frame.effects@.len() == frame.effects.len());
            frame.effect_index = frame.effect_index + 1;
            stack.push(frame);
            proof {
                let after = before.note_effect(effect);
                let next = state_of(signals@, effects@, current_effect, stack@);
                assert(next.signals =~= after.signals);
                assert(next.effects =~= after.effects);
                assert(next.stack =~= after.stack);
                lemma_with_top_wf(before, before.top().record_effect(effect));
            }
        },
        None => {
            proof {
                let next = state_of(signals@, effects@, current_effect, stack@);
                assert(next.signals =~= before.signals);
                assert(next.effects =~= before.effects);
                assert(next.stack =~= before.stack);
            }
        },
    }
    *rt = Runtime::assemble(signals, effects, current_effect, stack);
}

/// Replacing the innermost record by a well-formed one keeps a well-formed
/// runtime well-formed.
pub proof fn lemma_with_top_wf<T, E>(s: RuntimeState<T, E>, frame: FrameState)
    requires
        s.wf(),
        s.in_component(),
        frame.wf(),
    ensures
        s.with_top(frame).wf(),
{
    let after = s.with_top(frame);
    assert forall|i: int| 0 <= i < after.signals.len() implies (#[trigger] after.signals[i]).wf(
        after.effects.len(),
    ) by {
        assert(s.signals[i].wf(s.effects.len()));
    }
    assert forall|d: int| 0 <= d < after.stack.len() implies (#[trigger] after.stack[d]).wf() by {
        if d < s.stack.len() - 1 {
            assert(s.stack[d].wf());
        }
    }
}

} // verus!
