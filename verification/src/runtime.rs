//! The runtime object that the rest of the crate works on. It is passed
//! explicitly to every operation; nothing here is global.

use std::rc::Rc;
use vstd::prelude::*;
use crate::model::{FrameState, RuntimeState, SignalState};

verus! {

/// One piece of reactive state.
pub struct Signal<T> {
    pub(crate) value: T,
    pub(crate) subscribers: Vec<usize>,
}

impl<T> Signal<T> {
    /// The signal as a value.
    pub open(crate) spec fn view(&self) -> SignalState<T> {
        SignalState { value: self.value, subscribers: self.subscribers@ }
    }
}

/// The hook record of one component. A component keeps its record between
/// renders; that is what lets a later render find the state and the effects
/// of an earlier one.
pub struct ComponentContext {
    pub(crate) states: Vec<usize>,
    pub(crate) effects: Vec<usize>,
    pub(crate) state_index: usize,
    pub(crate) effect_index: usize,
}

impl ComponentContext {
    /// The record as a value.
    pub open(crate) spec fn view(&self) -> FrameState {
        FrameState {
            states: self.states@,
            effects: self.effects@,
            state_index: self.state_index as int,
            effect_index: self.effect_index as int,
        }
    }

    /// The record of a component that has not rendered yet.
    pub fn new() -> (context: Self)
        ensures
            context@ == FrameState::fresh(),
    {
        ComponentContext { states: Vec::new(), effects: Vec::new(), state_index: 0, effect_index: 0 }
    }

    /// The number of signals that state hooks have made for this component.
    pub fn state_count(&self) -> (n: usize)
        ensures
            n == self@.states.len(),
    {
        self.states.len()
    }

    /// The number of effects that effect hooks have made for this component.
    pub fn effect_count(&self) -> (n: usize)
        ensures
            n == self@.effects.len(),
    {
        self.effects.len()
    }
}

/// A reactive runtime: its signals, its effects, the effect being tracked,
/// and the stack of rendering components. `T` is the type of the values that
/// signals hold, `E` the type of the effect procedures. A program whose
/// signals hold values of several types makes `T` an enum of them.
///
/// Signals and effects live as long as the runtime; a handle is a number
/// that names one of them. A runtime is meant for one thread.
///
/// The library only ever builds well-formed runtimes (`RuntimeState::wf`),
/// and since the fields cannot be reached from outside, any runtime that a
/// caller holds is one.
pub struct Runtime<T, E> {
    pub(crate) signals: Vec<Signal<T>>,
    pub(crate) effects: Vec<Rc<E>>,
    pub(crate) current_effect: Option<usize>,
    pub(crate) stack: Vec<ComponentContext>,
}

/// The runtime that is made of these parts, as a value.
pub open(crate) spec fn state_of<T, E>(
    signals: Seq<Signal<T>>,
    effects: Seq<Rc<E>>,
    current_effect: Option<usize>,
    stack: Seq<ComponentContext>,
) -> RuntimeState<T, E> {
    RuntimeState {
        signals: Seq::new(signals.len(), |i: int| signals[i]@),
        effects: Seq::new(effects.len(), |i: int| *effects[i]),
        current_effect,
        stack: Seq::new(stack.len(), |d: int| stack[d]@),
    }
}

impl<T, E> Runtime<T, E> {
    /// The runtime as a value.
    pub open(crate) spec fn view(&self) -> RuntimeState<T, E> {
        state_of(self.signals@, self.effects@, self.current_effect, self.stack@)
    }

    /// Puts a runtime together from its parts.
    pub(crate) fn assemble(
        signals: Vec<Signal<T>>,
        effects: Vec<Rc<E>>,
        current_effect: Option<usize>,
        stack: Vec<ComponentContext>,
    ) -> (rt: Self)
        requires
            state_of(signals@, effects@, current_effect, stack@).wf(),
        ensures
            rt@ == state_of(signals@, effects@, current_effect, stack@),
    {
        Runtime { signals, effects, current_effect, stack }
    }

    #[verifier::type_invariant]
    pub(crate) open spec fn inv(&self) -> bool {
        self@.wf()
    }

    /// A runtime with no signal, no effect and no component rendering.
    pub fn new() -> (rt: Self)
        ensures
            rt@ == RuntimeState::<T, E>::empty(),
    {
        let signals: Vec<Signal<T>> = Vec::new();
        let effects: Vec<Rc<E>> = Vec::new();
        let stack: Vec<ComponentContext> = Vec::new();
        proof {
            let state = state_of(signals@, effects@, None, stack@);
            assert(state.signals =~= Seq::empty());
            assert(state.effects =~= Seq::empty());
            assert(state.stack =~= Seq::empty());
        }
        Runtime::assemble(signals, effects, None, stack)
    }

    /// Moves the runtime out of `self` and leaves an empty one behind, so
    /// that the caller can take it apart, change the parts and put a whole
    /// runtime back.
    pub(crate) fn take(&mut self) -> (taken: Self)
        ensures
            taken == *old(self),
            taken@.wf(),
    {
        proof {
            use_type_invariant(&*self);
        }
        let mut taken = Runtime::new();
        std::mem::swap(self, &mut taken);
        taken
    }

    /// Says of a runtime in hand what holds of all of them.
    pub fn well_formed(&self)
        ensures
            self@.wf(),
    {
        proof {
            use_type_invariant(self);
        }
    }

    /// The number of signals.
    pub fn signal_count(&self) -> (n: usize)
        ensures
            n == self@.signals.len(),
    {
        self.signals.len()
    }

    /// The number of effects.
    pub fn effect_count(&self) -> (n: usize)
        ensures
            n == self@.effects.len(),
    {
        self.effects.len()
    }

    /// Whether a component is rendering, that is, whether hooks may be
    /// called.
    pub fn in_component(&self) -> (b: bool)
        ensures
            b == self@.in_component(),
    {
        self.stack.len() > 0
    }
}

} // verus!
