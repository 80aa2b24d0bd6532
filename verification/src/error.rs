use vstd::prelude::*;

verus! {

/// What a handler parameter refers to: the application state, the plugin stored under
/// a type key, the event being dispatched, or the event queue.
#[derive(Clone, Copy, Debug, PartialEq, Eq, Structural)]
pub enum Target {
    State,
    Plugin(u64),
    Event,
    EventSink,
}

/// Why a piece of build-time user code did not produce its value.
#[derive(Debug, PartialEq, Eq)]
pub enum Cause {
    /// One of its parameters could not be resolved.
    MissingDependency(Target),
    /// It ran and reported a failure of its own.
    Failed(String),
}

/// The failures of the runtime.
#[derive(Debug, PartialEq, Eq)]
pub enum AppError {
    /// The configuration stored under this type key could not be applied.
    Configuration(u64, Cause),
    /// The setup handler did not produce the application state.
    Setup(Cause),
    /// A listener was about to be invoked with a parameter that nothing provides.
    MissingDependency(Target),
    /// Two parameters of one handler, at these positions, refer to the same target and
    /// at least one of them is exclusive.
    AliasConflict { first: usize, second: usize },
}

} // verus!
