//! Signals: reactive state behind a pair of handles, one to read and one to
//! write.

use std::rc::Rc;
use vstd::prelude::*;
use crate::effect::{cascade, notifies, rerun, step, Effect};
use crate::model::RuntimeState;
use crate::runtime::{state_of, Runtime, Signal};

verus! {

/// The reading handle of a signal. Handles are small and freely copied; all
/// copies name the same signal.
#[derive(Clone, Copy, Debug)]
pub struct Getter {
    pub(crate) id: usize,
}

/// The writing handle of a signal. Handles are small and freely copied; all
/// copies name the same signal.
#[derive(Clone, Copy, Debug)]
pub struct Setter {
    pub(crate) id: usize,
}

/// Makes a signal that holds `initial` and has no subscriber, and returns
/// its two handles.
pub fn create_signal<T, E>(rt: &mut Runtime<T, E>, initial: T) -> (handles: (Getter, Setter))
    ensures
        final(rt)@ == old(rt)@.create_signal(initial),
        final(rt)@.wf(),
        handles.0.signal() == old(rt)@.signals.len(),
        handles.1.signal() == old(rt)@.signals.len(),
{
    let ghost after = rt@.create_signal(initial);
    let Runtime { mut signals, effects, current_effect, stack } = rt.take();
    let id: usize = signals.len();
    signals.push(Signal { value: initial, subscribers: Vec::new() });
    proof {
        let next = state_of(signals@, effects@, current_effect, stack@);
        assert(next.signals =~= after.signals);
        assert(next.effects =~= after.effects);
        assert(next.stack =~= after.stack);
        assert forall|i: int| 0 <= i < after.signals.len() implies (#[trigger] after.signals[i]).wf(
            after.effects.len(),
        ) by {
            if i < old(rt)@.signals.len() {
                assert(old(rt)@.signals[i].wf(old(rt)@.effects.len()));
            }
        }
    }
    *rt = Runtime::assemble(signals, effects, current_effect, stack);
    handles_of(id)
}

/// The two handles of the signal with number `id`.
pub(crate) fn handles_of(id: usize) -> (handles: (Getter, Setter))
    ensures
        handles.0.signal() == id,
        handles.1.signal() == id,
{
    (Getter { id }, Setter { id })
}

/// Whether `effect` is among `subscribers`.
fn is_subscribed(subscribers: &Vec<usize>, effect: usize) -> (found: bool)
    ensures
        found == subscribers@.contains(effect),
{
    let mut k: usize = 0;
    while k < subscribers.len()
        invariant
            k <= subscribers.len(),
            forall|j: int| 0 <= j < k ==> subscribers@[j] != effect,
        decreases subscribers.len() - k,
    {
        if subscribers[k] == effect {
            return true;
        }
        k += 1;
    }
    false
}

impl Getter {
    /// The number of the signal that the handle names.
    pub open(crate) spec fn signal(self) -> usize {
        self.id
    }

    /// Whether the handle names a signal of `rt`.
    pub fn belongs_to<T, E>(&self, rt: &Runtime<T, E>) -> (b: bool)
        ensures
            b == rt@.has_signal(self.signal()),
    {
        self.id < rt.signals.len()
    }

    /// Reads the signal. While an effect is tracked, the read makes it a
    /// subscriber of the signal, unless it is one already; with no effect
    /// tracked the runtime stays as it is. Returns a clone of the value.
    pub fn get<T: Clone, E>(&self, rt: &mut Runtime<T, E>) -> (value: T)
        requires
            old(rt)@.has_signal(self.signal()),
        ensures
            final(rt)@ == old(rt)@.track(self.signal()),
            final(rt)@.wf(),
            cloned(old(rt)@.value_of(self.signal()), value),
    {
        let ghost before = rt@;
        let ghost after = before.track(self.id);
        match rt.current_effect {
            Some(effect) => {
                if !is_subscribed(&rt.signals[self.id].subscribers, effect) {
                    let Runtime { mut signals, effects, current_effect, stack } = rt.take();
                    signals[self.id].subscribers.push(effect);
                    proof {
                        let next = state_of(signals@, effects@, current_effect, stack@);
                        assert(next.signals =~= after.signals);
                        assert(next.effects =~= after.effects);
                        assert(next.stack =~= after.stack);
                        lemma_track_wf(before, self.id);
                    }
                    *rt = Runtime::assemble(signals, effects, current_effect, stack);
                } else {
                    assert(rt@.signals =~= after.signals);
                }
            },
            None => {},
        }
        proof {
            use_type_invariant(&*rt);
            assert(rt@ == after);
            assert(rt@.signals[self.id as int] == rt.signals@[self.id as int]@);
            assert(after.value_of(self.id) == before.value_of(self.id));
        }
        rt.signals[self.id].value.clone()
    }
}

impl Setter {
    /// The number of the signal that the handle names.
    pub open(crate) spec fn signal(self) -> usize {
        self.id
    }

    /// Whether the handle names a signal of `rt`.
    pub fn belongs_to<T, E>(&self, rt: &Runtime<T, E>) -> (b: bool)
        ensures
            b == rt@.has_signal(self.signal()),
    {
        self.id < rt.signals.len()
    }

    /// Writes the signal: `value` replaces what it held, and then every
    /// effect that was subscribed at that moment runs again, in the order of
    /// registration, before the call returns. Whether `value` differs from
    /// the old one plays no part. An effect may write signals in turn; a
    /// chain of writes that comes back to a signal it started from does not
    /// end.
    ///
    /// Each of these runs is tracked like the effect's first one. The slot
    /// for the tracked effect is a single one, so a run that was going on
    /// when the write was made is no longer tracked afterwards.
    /// Subscriptions are only ever added: an effect that no longer reads the
    /// signal is still told of writes to it.
    pub fn set<T, E: Effect<T>>(&self, rt: &mut Runtime<T, E>, value: T)
        requires
            old(rt)@.has_signal(self.signal()),
        ensures
            notifies(
                old(rt)@.notified(self.signal()),
                old(rt)@.store(self.signal(), value),
                final(rt)@,
            ),
            final(rt)@.wf(),
    {
        let subscribers = self.store(rt, value);
        let ghost notified = old(rt)@.notified(self.id);
        let ghost mut trace = seq![rt@];
        let mut k: usize = 0;
        while k < subscribers.len()
            invariant
                k <= subscribers.len(),
                subscribers@.len() == notified.len(),
                forall|j: int|
                    0 <= j < notified.len() ==> (#[trigger] subscribers@[j]).0 == notified[j].0
                        && *subscribers@[j].1 == notified[j].1,
                trace.len() == k + 1,
                trace[0] == old(rt)@.store(self.id, value),
                trace[k as int] == rt@,
                forall|j: int| 0 <= j < k ==> #[trigger] step(notified, trace, j),
            decreases subscribers.len() - k,
        {
            rerun(rt, subscribers[k].0, &subscribers[k].1);
            proof {
                let longer = trace.push(rt@);
                assert forall|j: int| 0 <= j < k + 1 implies #[trigger] step(notified, longer, j) by {
                    if j < k {
                        assert(step(notified, trace, j));
                    }
                }
                trace = longer;
            }
            k += 1;
        }
        proof {
            use_type_invariant(&*rt);
            assert(cascade(notified, trace));
        }
    }

    /// The first half of a write: replaces the value and returns the
    /// effects that are subscribed at this moment, each with its procedure,
    /// in the order of registration. Effects that subscribe later are not
    /// among them.
    fn store<T, E>(&self, rt: &mut Runtime<T, E>, value: T) -> (subscribers: Vec<(usize, Rc<E>)>)
        requires
            old(rt)@.has_signal(self.signal()),
        ensures
            final(rt)@ == old(rt)@.store(self.signal(), value),
            subscribers@.len() == old(rt)@.notified(self.signal()).len(),
            forall|j: int|
                0 <= j < subscribers@.len() ==> (#[trigger] subscribers@[j]).0 == old(
                    rt,
                )@.notified(self.signal())[j].0 && *subscribers@[j].1 == old(rt)@.notified(
                    self.signal(),
                )[j].1,
    {
        let ghost before = rt@;
        let ghost after = before.store(self.id, value);
        let Runtime { mut signals, effects, current_effect, stack } = rt.take();
        signals[self.id].value = value;
        let mut subscribers: Vec<(usize, Rc<E>)> = Vec::new();
        let mut k: usize = 0;
        while k < signals[self.id].subscribers.len()
            invariant
                self.id < signals@.len(),
                before.has_signal(self.id),
                k <= signals@[self.id as int].subscribers@.len(),
                signals@[self.id as int].subscribers@ == before.subscribers_of(self.id),
                before.signals[self.id as int].wf(effects@.len()),
                subscribers@.len() == k,
                forall|j: int|
                    0 <= j < k ==> (#[trigger] subscribers@[j]).0 == before.subscribers_of(
                        self.id,
                    )[j] && *subscribers@[j].1 == *effects@[before.subscribers_of(self.id)[j] as int],
            decreases signals@[self.id as int].subscribers@.len() - k,
        {
            let effect = signals[self.id].subscribers[k];
            subscribers.push((effect, Rc::clone(&effects[effect])));
            k += 1;
        }
        proof {
            let next = state_of(signals@, effects@, current_effect, stack@);
            assert(next.signals =~= after.signals);
            assert(next.effects =~= after.effects);
            assert(next.stack =~= after.stack);
            assert forall|i: int| 0 <= i < after.signals.len() implies (
            #[trigger] after.signals[i]).wf(after.effects.len()) by {
                assert(before.signals[i].wf(before.effects.len()));
            }
        }
        *rt = Runtime::assemble(signals, effects, current_effect, stack);
        subscribers
    }
}

/// A read keeps a well-formed runtime well-formed.
pub proof fn lemma_track_wf<T, E>(s: RuntimeState<T, E>, signal: usize)
    requires
        s.wf(),
        s.has_signal(signal),
    ensures
        s.track(signal).wf(),
{
    let after = s.track(signal);
    if let Some(effect) = s.current_effect {
        let old_signal = s.signals[signal as int];
        let new_signal = old_signal.subscribe(effect);
        assert(new_signal.wf(s.effects.len())) by {
            if !old_signal.subscribers.contains(effect) {
                let subs = old_signal.subscribers;
                assert forall|a: int, b: int|
                    0 <= a < subs.len() + 1 && 0 <= b < subs.len() + 1 && a != b implies subs.push(
                    effect,
                )[a] != subs.push(effect)[b] by {
                    if a < subs.len() && b < subs.len() {
                    } else if a < subs.len() {
                        assert(subs.contains(subs[a]));
                    } else {
                        assert(subs.contains(subs[b]));
                    }
                }
            }
        }
        assert forall|i: int| 0 <= i < after.signals.len() implies (#[trigger] after.signals[i]).wf(
            after.effects.len(),
        ) by {
            if i != signal {
                assert(after.signals[i] == s.signals[i]);
            }
        }
    }
}

} // verus!
