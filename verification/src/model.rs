//! The runtime as a mathematical value, and the steps that take one such
//! value to the next. Every contract of the crate is stated over these.

use vstd::prelude::*;

verus! {

/// A signal as a value: what it holds, and the effects that asked to be
/// told of writes, in the order in which they registered.
pub struct SignalState<T> {
    pub value: T,
    pub subscribers: Seq<usize>,
}

/// The hook record of one component: the signals and effects that its hook
/// calls made, by call position, and how far the current render has come.
pub struct FrameState {
    pub states: Seq<usize>,
    pub effects: Seq<usize>,
    pub state_index: int,
    pub effect_index: int,
}

/// The whole runtime: the signals, the effect procedures, the effect that is
/// being tracked (if any), and the components that are rendering, innermost
/// last.
pub struct RuntimeState<T, E> {
    pub signals: Seq<SignalState<T>>,
    pub effects: Seq<E>,
    pub current_effect: Option<usize>,
    pub stack: Seq<FrameState>,
}

impl<T> SignalState<T> {
    /// Every subscriber names an effect among the first `n_effects`, and none
    /// is listed twice.
    pub open spec fn wf(self, n_effects: nat) -> bool {
        &&& self.subscribers.no_duplicates()
        &&& forall|k: int| 0 <= k < self.subscribers.len() ==> #[trigger] self.subscribers[k] < n_effects
    }

    /// The signal after `effect` asked to be told of writes: listed last if it
    /// was not listed yet, unchanged if it was.
    pub open spec fn subscribe(self, effect: usize) -> Self {
        if self.subscribers.contains(effect) {
            self
        } else {
            SignalState { value: self.value, subscribers: self.subscribers.push(effect) }
        }
    }

    /// The signal after a write of `value`: the subscribers stay.
    pub open spec fn replace(self, value: T) -> Self {
        SignalState { value, subscribers: self.subscribers }
    }
}

impl FrameState {
    /// A record that no hook call has touched.
    pub open spec fn fresh() -> Self {
        FrameState { states: Seq::empty(), effects: Seq::empty(), state_index: 0, effect_index: 0 }
    }

    /// Neither cursor is past the first position that has no entry yet.
    pub open spec fn wf(self) -> bool {
        &&& 0 <= self.state_index <= self.states.len()
        &&& 0 <= self.effect_index <= self.effects.len()
    }

    /// The record at the start of a render: the entries stay, both cursors
    /// are back at zero.
    pub open spec fn rewind(self) -> Self {
        FrameState { states: self.states, effects: self.effects, state_index: 0, effect_index: 0 }
    }

    /// An earlier render left a signal at the state cursor.
    pub open spec fn replays_state(self) -> bool {
        0 <= self.state_index < self.states.len()
    }

    /// An earlier render left an effect at the effect cursor.
    pub open spec fn replays_effect(self) -> bool {
        0 <= self.effect_index < self.effects.len()
    }

    /// The state cursor moves on by one; nothing else changes.
    pub open spec fn skip_state(self) -> Self {
        FrameState {
            states: self.states,
            effects: self.effects,
            state_index: self.state_index + 1,
            effect_index: self.effect_index,
        }
    }

    /// The effect cursor moves on by one; nothing else changes.
    pub open spec fn skip_effect(self) -> Self {
        FrameState {
            states: self.states,
            effects: self.effects,
            state_index: self.state_index,
            effect_index: self.effect_index + 1,
        }
    }

    /// `signal` becomes the last state entry and the state cursor moves on.
    pub open spec fn record_state(self, signal: usize) -> Self {
        FrameState {
            states: self.states.push(signal),
            effects: self.effects,
            state_index: self.state_index + 1,
            effect_index: self.effect_index,
        }
    }

    /// `effect` becomes the last effect entry and the effect cursor moves on.
    pub open spec fn record_effect(self, effect: usize) -> Self {
        FrameState {
            states: self.states,
            effects: self.effects.push(effect),
            state_index: self.state_index,
            effect_index: self.effect_index + 1,
        }
    }
}

impl<T, E> RuntimeState<T, E> {
    /// A runtime in which nothing has happened yet.
    pub open spec fn empty() -> Self {
        RuntimeState {
            signals: Seq::empty(),
            effects: Seq::empty(),
            current_effect: None,
            stack: Seq::empty(),
        }
    }

    /// What holds of every runtime that the library hands out: subscribers
    /// and the tracked effect name effects that exist, no signal lists an
    /// effect twice, and every rendering component's cursors are in range.
    pub open spec fn wf(self) -> bool {
        &&& forall|i: int| 0 <= i < self.signals.len() ==> (#[trigger] self.signals[i]).wf(self.effects.len())
        &&& self.current_effect matches Some(e) ==> e < self.effects.len()
        &&& forall|d: int| 0 <= d < self.stack.len() ==> (#[trigger] self.stack[d]).wf()
    }

    /// `signal` names a signal of this runtime.
    pub open spec fn has_signal(self, signal: usize) -> bool {
        signal < self.signals.len()
    }

    /// The value that `signal` holds.
    pub open spec fn value_of(self, signal: usize) -> T
        recommends
            self.has_signal(signal),
    {
        self.signals[signal as int].value
    }

    /// The effects that a write to `signal` runs, by number, in the order in
    /// which they run.
    pub open spec fn subscribers_of(self, signal: usize) -> Seq<usize>
        recommends
            self.has_signal(signal),
    {
        self.signals[signal as int].subscribers
    }

    /// The effects in `subscribers_of`, in the same order, each with its
    /// procedure.
    pub open spec fn notified(self, signal: usize) -> Seq<(usize, E)>
        recommends
            self.has_signal(signal),
    {
        let subscribers = self.subscribers_of(signal);
        Seq::new(subscribers.len(), |k: int| (subscribers[k], self.effects[subscribers[k] as int]))
    }

    /// The runtime with one more signal, which holds `initial` and has no
    /// subscriber. Its number is the former count of signals.
    pub open spec fn create_signal(self, initial: T) -> Self {
        RuntimeState {
            signals: self.signals.push(SignalState { value: initial, subscribers: Seq::empty() }),
            effects: self.effects,
            current_effect: self.current_effect,
            stack: self.stack,
        }
    }

    /// The runtime after a read of `signal`: while an effect is tracked it
    /// becomes a subscriber of the signal, once; otherwise nothing changes.
    pub open spec fn track(self, signal: usize) -> Self
        recommends
            self.has_signal(signal),
    {
        match self.current_effect {
            Some(effect) => RuntimeState {
                signals: self.signals.update(
                    signal as int,
                    self.signals[signal as int].subscribe(effect),
                ),
                effects: self.effects,
                current_effect: self.current_effect,
                stack: self.stack,
            },
            None => self,
        }
    }

    /// The runtime after `value` replaced what `signal` held, before any
    /// subscriber has run.
    pub open spec fn store(self, signal: usize, value: T) -> Self
        recommends
            self.has_signal(signal),
    {
        RuntimeState {
            signals: self.signals.update(signal as int, self.signals[signal as int].replace(value)),
            effects: self.effects,
            current_effect: self.current_effect,
            stack: self.stack,
        }
    }

    /// The runtime at the start of another run of `effect`: it is the
    /// tracked effect. A number that names no effect of this runtime changes
    /// nothing.
    pub open spec fn activate(self, effect: usize) -> Self {
        if effect < self.effects.len() {
            RuntimeState {
                signals: self.signals,
                effects: self.effects,
                current_effect: Some(effect),
                stack: self.stack,
            }
        } else {
            self
        }
    }

    /// The runtime in which `body` is the newest effect and the one that is
    /// tracked. Its number is the former count of effects.
    pub open spec fn install(self, body: E) -> Self {
        RuntimeState {
            signals: self.signals,
            effects: self.effects.push(body),
            current_effect: Some(self.effects.len() as usize),
            stack: self.stack,
        }
    }

    /// The runtime with no effect tracked.
    pub open spec fn release(self) -> Self {
        RuntimeState {
            signals: self.signals,
            effects: self.effects,
            current_effect: None,
            stack: self.stack,
        }
    }

    /// A component is rendering.
    pub open spec fn in_component(self) -> bool {
        self.stack.len() > 0
    }

    /// The record of the innermost rendering component.
    pub open spec fn top(self) -> FrameState
        recommends
            self.in_component(),
    {
        self.stack.last()
    }

    /// The runtime with `frame` in place of the innermost record.
    pub open spec fn with_top(self, frame: FrameState) -> Self
        recommends
            self.in_component(),
    {
        RuntimeState {
            signals: self.signals,
            effects: self.effects,
            current_effect: self.current_effect,
            stack: self.stack.update(self.stack.len() - 1, frame),
        }
    }

    /// The runtime at the start of a render of the component whose record is
    /// `frame`: the record is innermost, with both cursors at zero.
    pub open spec fn enter(self, frame: FrameState) -> Self {
        RuntimeState {
            signals: self.signals,
            effects: self.effects,
            current_effect: self.current_effect,
            stack: self.stack.push(frame.rewind()),
        }
    }

    /// The runtime after the innermost render ended. With no component
    /// rendering there is nothing to end.
    pub open spec fn leave(self) -> Self {
        if self.in_component() {
            RuntimeState {
                signals: self.signals,
                effects: self.effects,
                current_effect: self.current_effect,
                stack: self.stack.drop_last(),
            }
        } else {
            self
        }
    }

    /// The record that `leave` takes off, as the component keeps it for its
    /// next render; `kept` where no component is rendering.
    pub open spec fn left(self, kept: FrameState) -> FrameState {
        if self.in_component() {
            self.top()
        } else {
            kept
        }
    }

    /// The runtime after a state hook found its signal in the record.
    pub open spec fn replay_state(self) -> Self
        recommends
            self.in_component(),
    {
        self.with_top(self.top().skip_state())
    }

    /// The runtime after a state hook made a signal that holds `initial`.
    pub open spec fn allocate_state(self, initial: T) -> Self
        recommends
            self.in_component(),
    {
        self.create_signal(initial).with_top(self.top().record_state(self.signals.len() as usize))
    }

    /// The runtime after an effect hook found its effect in the record.
    pub open spec fn replay_effect(self) -> Self
        recommends
            self.in_component(),
    {
        self.with_top(self.top().skip_effect())
    }

    /// The runtime after an effect hook noted `effect` in the innermost
    /// record. With no component rendering there is no record to note it in.
    pub open spec fn note_effect(self, effect: usize) -> Self {
        if self.in_component() {
            self.with_top(self.top().record_effect(effect))
        } else {
            self
        }
    }
}

} // verus!
