//! The reactive core of a component-based UI framework: signals, effects
//! that follow the signals they read, positional hooks for per-component
//! state, and a keyed container of shared services.

pub mod effect;
pub mod hooks;
pub mod laws;
pub mod model;
pub mod runtime;
pub mod service;
pub mod signal;

pub use effect::{create_effect, Effect};
pub use hooks::{use_effect, use_state, with_component_context};
pub use model::{FrameState, RuntimeState, SignalState};
pub use runtime::{ComponentContext, Runtime};
pub use service::{inject, provide_service, try_inject, ServiceContainer};
pub use signal::{create_signal, Getter, Setter};
