//! What can go wrong when a controller is set up or driven.

use vstd::prelude::*;

verus! {

/// The two state tables handed to a controller do not describe one set of states.
#[derive(Clone, Copy, Debug, PartialEq, Eq, Structural)]
pub enum ConfigError {
    /// The control-state and system-state lists have different lengths.
    MismatchedLength,
    /// Both lists are empty.
    Empty,
    /// Some position holds a control state or a system state whose identifier
    /// is not that position.
    MismatchedId,
}

/// A controller could not be created.
#[derive(Clone, Copy, Debug, PartialEq, Eq, Structural)]
pub enum InitError {
    /// The decision period or the window depth is zero.
    InvalidParameter,
    /// The state tables were refused.
    Config(ConfigError),
    /// The destination for decision records could not be opened. The library
    /// opens nothing itself: this is for the layer that owns the log.
    LogUnavailable,
}

/// The actuator could not apply a state; `code` is whatever it reported.
#[derive(Clone, Copy, Debug, PartialEq, Eq, Structural)]
pub struct ActuationError {
    pub code: i32,
}

} // verus!
