//! Effects: procedures that the runtime runs once when they are created and
//! again on every write to a signal that they read. Every run is tracked:
//! while an effect's procedure runs, the signals it reads take the effect as
//! a subscriber.

use std::rc::Rc;
use vstd::prelude::*;
use crate::model::RuntimeState;
use crate::runtime::{state_of, Runtime};

verus! {

/// An effect procedure, written by the user of the library. It takes the
/// runtime it runs in, so that it can read and write signals; a write from
/// inside an effect runs that signal's subscribers before it returns, on the
/// same call stack.
///
/// The library asks nothing of a procedure and assumes nothing about it
/// beyond what the procedure says of itself in `runs`. Whatever a procedure
/// does, the runtime it leaves behind is well-formed, because no other kind
/// can be built.
pub trait Effect<T>: Sized {
    /// What one run may do: `after` is a runtime that a run started on
    /// `before` can end on. This is the implementation's own statement; one
    /// that says nothing leaves every outcome open, and then the contracts
    /// of the operations that run effects say only which procedures ran, in
    /// which order and on what.
    open spec fn runs(&self, before: RuntimeState<T, Self>, after: RuntimeState<T, Self>) -> bool {
        true
    }

    /// Runs the procedure once.
    fn run(&self, rt: &mut Runtime<T, Self>)
        ensures
            self.runs(old(rt)@, final(rt)@),
    ;
}

/// Another run of the effect `effect`, whose procedure is `body`, can lead
/// from `before` to `after`: the effect is the tracked one while its
/// procedure runs, so that the signals it reads now take it as a subscriber,
/// and tracking ends with the run.
pub open spec fn reruns<T, E: Effect<T>>(
    effect: usize,
    body: E,
    before: RuntimeState<T, E>,
    after: RuntimeState<T, E>,
) -> bool {
    exists|ran: RuntimeState<T, E>|
        #![auto]
        body.runs(before.activate(effect), ran) && after == ran.release()
}

/// In `trace`, the run of the subscriber at position `k` leads from the
/// runtime at `k` to the next one.
pub open spec fn step<T, E: Effect<T>>(
    subscribers: Seq<(usize, E)>,
    trace: Seq<RuntimeState<T, E>>,
    k: int,
) -> bool {
    reruns(subscribers[k].0, subscribers[k].1, trace[k], trace[k + 1])
}

/// `trace` is a history of running `subscribers` one after the other: it
/// has one runtime more than there are subscribers, and each run leads from
/// its runtime to the next.
pub open spec fn cascade<T, E: Effect<T>>(
    subscribers: Seq<(usize, E)>,
    trace: Seq<RuntimeState<T, E>>,
) -> bool {
    &&& trace.len() == subscribers.len() + 1
    &&& forall|k: int| 0 <= k < subscribers.len() ==> #[trigger] step(subscribers, trace, k)
}

/// Running `subscribers` in order can lead from `before` to `after`.
pub open spec fn notifies<T, E: Effect<T>>(
    subscribers: Seq<(usize, E)>,
    before: RuntimeState<T, E>,
    after: RuntimeState<T, E>,
) -> bool {
    exists|trace: Seq<RuntimeState<T, E>>|
        #![auto]
        cascade(subscribers, trace) && trace[0] == before && trace[subscribers.len() as int]
            == after
}

/// Creating an effect from `body` can lead from `before` to `after`: the
/// effect is installed as the tracked one, runs once, and tracking ends.
pub open spec fn creates<T, E: Effect<T>>(
    body: E,
    before: RuntimeState<T, E>,
    after: RuntimeState<T, E>,
) -> bool {
    exists|ran: RuntimeState<T, E>|
        #![auto]
        body.runs(before.install(body), ran) && after == ran.release()
}

/// Creates an effect: stores `body`, makes it the tracked effect, runs it
/// once, so that every signal it reads takes it as a subscriber, and ends
/// tracking. The slot for the tracked effect is a single one: an effect that
/// creates another one is no longer tracked once the inner one has run.
pub fn create_effect<T, E: Effect<T>>(rt: &mut Runtime<T, E>, body: E)
    ensures
        creates(body, old(rt)@, final(rt)@),
        final(rt)@.wf(),
{
    let effect = install(rt, body);
    effect.run(rt);
    let ghost ran = rt@;
    release(rt);
    assert(body.runs(old(rt)@.install(body), ran) && rt@ == ran.release());
}

/// Stores `body` as the newest effect and makes it the tracked one. Returns
/// a handle to the stored procedure.
pub(crate) fn install<T, E>(rt: &mut Runtime<T, E>, body: E) -> (effect: Rc<E>)
    ensures
        final(rt)@ == old(rt)@.install(body),
        *effect == body,
{
    let ghost before = rt@;
    let Runtime { signals, mut effects, current_effect: _, stack } = rt.take();
    let id: usize = effects.len();
    let effect = Rc::new(body);
    effects.push(Rc::clone(&effect));
    proof {
        let after = before.install(body);
        let next = state_of(signals@, effects@, Some(id), stack@);
        assert(next.signals =~= after.signals);
        assert(next.effects =~= after.effects);
        assert(next.stack =~= after.stack);
        assert forall|i: int| 0 <= i < after.signals.len() implies (#[trigger] after.signals[i]).wf(
            after.effects.len(),
        ) by {
            assert(before.signals[i].wf(before.effects.len()));
        }
    }
    *rt = Runtime::assemble(signals, effects, Some(id), stack);
    effect
}

/// Runs the effect `effect` again, tracked: what its procedure `body` reads
/// now takes the effect as a subscriber, unless it is one already.
pub(crate) fn rerun<T, E: Effect<T>>(rt: &mut Runtime<T, E>, effect: usize, body: &Rc<E>)
    ensures
        reruns(effect, **body, old(rt)@, final(rt)@),
        final(rt)@.wf(),
{
    activate(rt, effect);
    body.run(rt);
    let ghost ran = rt@;
    release(rt);
    assert(body.runs(old(rt)@.activate(effect), ran) && rt@ == ran.release());
}

/// Makes `effect` the tracked effect, if the runtime has an effect of that
/// number. A procedure is free to put another runtime in the place of the
/// one it was given, so a number taken before a run may name nothing after
/// it.
pub(crate) fn activate<T, E>(rt: &mut Runtime<T, E>, effect: usize)
    ensures
        final(rt)@ == old(rt)@.activate(effect),
{
    proof {
        use_type_invariant(&*rt);
    }
    if effect < rt.effects.len() {
        rt.current_effect = Some(effect);
    }
}

/// Ends tracking.
pub(crate) fn release<T, E>(rt: &mut Runtime<T, E>)
    ensures
        final(rt)@ == old(rt)@.release(),
        final(rt)@.wf(),
{
    proof {
        use_type_invariant(&*rt);
    }
    rt.current_effect = None;
}

} // verus!
