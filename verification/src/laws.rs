//! What follows from the contracts of the operations, stated once and
//! proved: how reads, writes, subscriptions, hooks and the service container
//! behave across several calls.

use vstd::prelude::*;
use crate::effect::{cascade, notifies, step, Effect};
use crate::hooks::{effect_hook, state_hook};
use crate::model::{FrameState, RuntimeState};
use crate::signal::{Getter, Setter};

verus! {

/// `effect` is told of a write to `signal` exactly once: it is listed among
/// the signal's subscribers at one position and at no other.
pub open spec fn told_once<T, E>(s: RuntimeState<T, E>, signal: usize, effect: usize) -> bool {
    let subscribers = s.subscribers_of(signal);
    exists|k: int|
        {
            &&& 0 <= k < subscribers.len()
            &&& #[trigger] subscribers[k] == effect
            &&& forall|j: int| 0 <= j < subscribers.len() && #[trigger] subscribers[j] == effect ==> j == k
        }
}

/// `effect` is not told of a write to `signal`.
pub open spec fn not_told<T, E>(s: RuntimeState<T, E>, signal: usize, effect: usize) -> bool {
    !s.subscribers_of(signal).contains(effect)
}

/// A new signal holds its initial value: that is what a read finds before
/// any write, whether or not an effect is tracked, and the read changes
/// nothing about it.
pub proof fn law_initial_value<T, E>(s: RuntimeState<T, E>, initial: T)
    requires
        s.signals.len() < usize::MAX,
    ensures
        ({
            let signal = s.signals.len() as usize;
            let made = s.create_signal(initial);
            &&& made.has_signal(signal)
            &&& made.value_of(signal) == initial
            &&& made.track(signal).value_of(signal) == initial
        }),
{
}

/// A written value is what the signal holds once the write has returned,
/// provided that none of the effects which the write runs gives the signal
/// another value. Reading it does not change it.
pub proof fn law_write_visible<T, E: Effect<T>>(
    s: RuntimeState<T, E>,
    signal: usize,
    value: T,
    after: RuntimeState<T, E>,
)
    requires
        s.has_signal(signal),
        notifies(s.notified(signal), s.store(signal, value), after),
        forall|k: int, x: RuntimeState<T, E>, y: RuntimeState<T, E>|
            0 <= k < s.notified(signal).len() && x.has_signal(signal) && #[trigger] s.notified(
                signal,
            )[k].1.runs(x, y) ==> y.has_signal(signal) && y.value_of(signal) == x.value_of(signal),
    ensures
        after.has_signal(signal),
        after.value_of(signal) == value,
        after.track(signal).value_of(signal) == value,
{
    let subscribers = s.notified(signal);
    let trace = choose|trace: Seq<RuntimeState<T, E>>|
        #![auto]
        cascade(subscribers, trace) && trace[0] == s.store(signal, value) && trace[subscribers.len() as int]
            == after;
    lemma_value_kept(subscribers, trace, signal, subscribers.len() as int);
}

/// Along a history of runs none of which changes what `signal` holds, the
/// signal holds at every step what it held at the start.
proof fn lemma_value_kept<T, E: Effect<T>>(
    subscribers: Seq<(usize, E)>,
    trace: Seq<RuntimeState<T, E>>,
    signal: usize,
    n: int,
)
    requires
        cascade(subscribers, trace),
        0 <= n <= subscribers.len(),
        trace[0].has_signal(signal),
        forall|k: int, x: RuntimeState<T, E>, y: RuntimeState<T, E>|
            0 <= k < subscribers.len() && x.has_signal(signal) && #[trigger] subscribers[k].1.runs(
                x,
                y,
            ) ==> y.has_signal(signal) && y.value_of(signal) == x.value_of(signal),
    ensures
        trace[n].has_signal(signal),
        trace[n].value_of(signal) == trace[0].value_of(signal),
    decreases n,
{
    if n > 0 {
        lemma_value_kept(subscribers, trace, signal, n - 1);
        assert(step(subscribers, trace, n - 1));
        let (effect, body) = subscribers[n - 1];
        let ran = choose|ran: RuntimeState<T, E>|
            #![auto]
            body.runs(trace[n - 1].activate(effect), ran) && trace[n - 1 + 1] == ran.release();
        assert(subscribers[n - 1].1.runs(trace[n - 1].activate(effect), ran));
    }
}

/// A write with no subscriber to run is the replacement of the value and
/// nothing else.
pub proof fn law_write_without_subscribers<T, E: Effect<T>>(
    s: RuntimeState<T, E>,
    signal: usize,
    value: T,
    after: RuntimeState<T, E>,
)
    requires
        s.has_signal(signal),
        s.subscribers_of(signal).len() == 0,
        notifies(s.notified(signal), s.store(signal, value), after),
    ensures
        after == s.store(signal, value),
{
}

/// A clone of a handle names the signal that the handle names. Since reads
/// and writes depend on a handle only through the signal it names, a write
/// through any clone of the setter is what a read through any clone of the
/// getter finds.
pub proof fn law_clones_share<T, E>(
    s: RuntimeState<T, E>,
    getter: Getter,
    getter_clone: Getter,
    setter: Setter,
    setter_clone: Setter,
    value: T,
)
    requires
        cloned(getter, getter_clone),
        cloned(setter, setter_clone),
        setter.signal() == getter.signal(),
        s.has_signal(getter.signal()),
    ensures
        getter_clone.signal() == getter.signal(),
        setter_clone.signal() == setter.signal(),
        s.store(setter_clone.signal(), value).value_of(getter.signal()) == value,
        s.store(setter.signal(), value).value_of(getter_clone.signal()) == value,
        s.store(setter_clone.signal(), value).value_of(getter_clone.signal()) == value,
{
}

/// An effect that reads a signal while it is tracked is from then on told of
/// every write to that signal exactly once, and the read changes nothing
/// about who is told of writes to any other signal: an effect that never
/// read `other` is not told of writes to it. A write does not change who is
/// told of the next one.
pub proof fn law_read_subscribes<T, E>(
    s: RuntimeState<T, E>,
    signal: usize,
    effect: usize,
    other: usize,
    value: T,
)
    requires
        s.wf(),
        s.has_signal(signal),
        s.has_signal(other),
        other != signal,
        s.current_effect == Some(effect),
    ensures
        told_once(s.track(signal), signal, effect),
        s.track(signal).notified(signal).contains((effect, s.effects[effect as int])),
        s.track(signal).subscribers_of(other) == s.subscribers_of(other),
        not_told(s, other, effect) ==> not_told(s.track(signal), other, effect),
        told_once(s.track(signal).store(signal, value), signal, effect),
        s.track(signal).store(other, value).subscribers_of(signal) == s.track(
            signal,
        ).subscribers_of(signal),
{
    let after = s.track(signal);
    let subs = after.subscribers_of(signal);
    lemma_read_lists(s, signal, effect);
    let k = choose|k: int|
        {
            &&& 0 <= k < subs.len()
            &&& #[trigger] subs[k] == effect
            &&& forall|j: int| 0 <= j < subs.len() && #[trigger] subs[j] == effect ==> j == k
        };
    assert(after.notified(signal)[k] == (effect, s.effects[effect as int]));
    assert(after.store(signal, value).subscribers_of(signal) == subs);
    lemma_listed_once(after.store(signal, value), signal, effect, k);
}

/// Every run of an effect is tracked, the first one and each later one: a
/// signal that the effect reads in the run lists it from then on, once, also
/// where an earlier run had read it already.
pub proof fn law_every_run_subscribes<T, E>(
    s: RuntimeState<T, E>,
    effect: usize,
    body: E,
    signal: usize,
)
    requires
        s.wf(),
        s.has_signal(signal),
        effect < s.effects.len(),
        s.effects.len() < usize::MAX,
    ensures
        told_once(s.activate(effect).track(signal), signal, effect),
        told_once(s.install(body).track(signal), signal, s.effects.len() as usize),
        s.activate(effect).track(signal).release().subscribers_of(signal) == s.activate(
            effect,
        ).track(signal).subscribers_of(signal),
{
    let again = s.activate(effect);
    assert forall|i: int| 0 <= i < again.signals.len() implies (#[trigger] again.signals[i]).wf(
        again.effects.len(),
    ) by {
        assert(s.signals[i].wf(s.effects.len()));
    }
    lemma_read_lists(again, signal, effect);
    let first = s.install(body);
    assert forall|i: int| 0 <= i < first.signals.len() implies (#[trigger] first.signals[i]).wf(
        first.effects.len(),
    ) by {
        assert(s.signals[i].wf(s.effects.len()));
    }
    lemma_read_lists(first, signal, s.effects.len() as usize);
}

/// After a read by the tracked effect, the signal lists that effect once.
proof fn lemma_read_lists<T, E>(s: RuntimeState<T, E>, signal: usize, effect: usize)
    requires
        s.wf(),
        s.has_signal(signal),
        s.current_effect == Some(effect),
    ensures
        told_once(s.track(signal), signal, effect),
{
    let after = s.track(signal);
    let before_subs = s.subscribers_of(signal);
    let subs = after.subscribers_of(signal);
    assert(s.signals[signal as int].wf(s.effects.len()));
    if before_subs.contains(effect) {
        let k = choose|k: int| 0 <= k < before_subs.len() && before_subs[k] == effect;
        assert(subs[k] == effect);
        lemma_listed_once(after, signal, effect, k);
    } else {
        let k = before_subs.len() as int;
        assert(subs[k] == effect);
        assert forall|j: int| 0 <= j < subs.len() && #[trigger] subs[j] == effect implies j == k by {
            if j < k {
                assert(before_subs.contains(before_subs[j]));
            }
        }
        lemma_listed_once(after, signal, effect, k);
    }
}

/// An effect listed at `k` and nowhere else is told exactly once.
proof fn lemma_listed_once<T, E>(s: RuntimeState<T, E>, signal: usize, effect: usize, k: int)
    requires
        0 <= k < s.subscribers_of(signal).len(),
        s.subscribers_of(signal)[k] == effect,
        forall|j: int|
            0 <= j < s.subscribers_of(signal).len() && #[trigger] s.subscribers_of(signal)[j]
                == effect ==> j == k,
    ensures
        told_once(s, signal, effect),
{
}

/// An effect that reads the same signal twice in one run is listed once: the
/// second read changes nothing. In a well-formed runtime no signal lists an
/// effect twice, so every listed effect is told of a write exactly once.
pub proof fn law_no_duplicate_notification<T, E>(s: RuntimeState<T, E>, signal: usize, effect: usize)
    requires
        s.wf(),
        s.has_signal(signal),
    ensures
        s.track(signal).track(signal) == s.track(signal),
        s.subscribers_of(signal).contains(effect) ==> told_once(s, signal, effect),
{
    let once = s.track(signal);
    if let Some(active) = s.current_effect {
        let listed = s.signals[signal as int].subscribe(active);
        assert(listed.subscribers.contains(active)) by {
            if !s.signals[signal as int].subscribers.contains(active) {
                assert(listed.subscribers[listed.subscribers.len() - 1] == active);
            }
        }
        assert(once.signals[signal as int] == listed);
        assert(once.track(signal).signals =~= once.signals);
    }
    let subs = s.subscribers_of(signal);
    if subs.contains(effect) {
        assert(s.signals[signal as int].wf(s.effects.len()));
        let k = choose|k: int| 0 <= k < subs.len() && subs[k] == effect;
        lemma_listed_once(s, signal, effect, k);
    }
}

/// A component that calls a state hook and then an effect hook gets, on its
/// second render, the signal of its first render and no second effect.
///
/// The first render starts from a fresh record in `s0`, makes the signal
/// `first` and creates an effect from `body1`, which ends on `s2`. The
/// effect's procedure is one that does not render components or call hooks.
/// The component keeps the record that the render leaves behind. The second
/// render starts in any later runtime `s3` and ends on `s5`: its state hook
/// hands out `first` again, and neither hook makes a signal, creates or runs
/// an effect, or changes an entry of the record.
pub proof fn law_hook_positions_stable<T, E: Effect<T>>(
    s0: RuntimeState<T, E>,
    made1: spec_fn(T) -> bool,
    body1: E,
    s1: RuntimeState<T, E>,
    first: usize,
    s2: RuntimeState<T, E>,
    s3: RuntimeState<T, E>,
    made2: spec_fn(T) -> bool,
    body2: E,
    s4: RuntimeState<T, E>,
    second: usize,
    s5: RuntimeState<T, E>,
)
    requires
        state_hook(s0.enter(FrameState::fresh()), made1, s1, first),
        effect_hook(s1, body1, s2),
        forall|x: RuntimeState<T, E>, y: RuntimeState<T, E>| #[trigger]
            body1.runs(x, y) ==> y.stack == x.stack,
        state_hook(s3.enter(s2.left(FrameState::fresh())), made2, s4, second),
        effect_hook(s4, body2, s5),
    ensures
        second == first,
        s4.signals == s3.signals,
        s5.signals == s3.signals,
        s5.effects == s3.effects,
        s5.current_effect == s3.current_effect,
        s5.leave() == s3,
        s5.top().states == s2.top().states,
        s5.top().effects == s2.top().effects,
{
    let a0 = s0.enter(FrameState::fresh());
    assert(a0.top() == FrameState::fresh());
    assert(!a0.top().replays_state());
    let v1 = s1.value_of(first);
    assert(s1 == a0.allocate_state(v1));
    let f1 = FrameState::fresh().record_state(first);
    assert(s1.top() == f1);
    assert(!s1.top().replays_effect());
    let ran = choose|ran: RuntimeState<T, E>|
        #![auto]
        body1.runs(s1.install(body1), ran) && s2 == ran.release().note_effect(
            s1.effects.len() as usize,
        );
    assert(ran.stack == s1.install(body1).stack);
    let eff = s1.effects.len() as usize;
    let f2 = f1.record_effect(eff);
    assert(s2.in_component());
    assert(s2.top() == f2);
    assert(f2.states =~= seq![first]);
    assert(f2.effects =~= seq![eff]);
    let b0 = s3.enter(f2);
    assert(b0.top() == f2.rewind());
    assert(b0.top().replays_state());
    assert(s4 == b0.replay_state());
    assert(s4.top() == f2.rewind().skip_state());
    assert(s4.top().replays_effect());
    assert(s5 == s4.replay_effect());
    assert(s5.top() == f2.rewind().skip_state().skip_effect());
    assert(s5.leave().stack =~= s3.stack);
}

/// What was provided under a key is what injection under that key finds,
/// until something else is provided under the same key; providing under one
/// key leaves the others alone; and a container in which nothing was
/// provided under a key holds nothing for it, an empty one for no key.
pub proof fn law_injection_roundtrip<S>(services: Map<u64, S>, key: u64, service: S, other: u64)
    requires
        other != key,
    ensures
        services.insert(key, service).contains_key(key),
        services.insert(key, service)[key] == service,
        services.insert(key, service).contains_key(other) == services.contains_key(other),
        services.contains_key(other) ==> services.insert(key, service)[other] == services[other],
        !Map::<u64, S>::empty().contains_key(key),
{
}

} // verus!
