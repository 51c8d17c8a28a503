//! An adaptive controller that holds an application to a performance goal at the
//! lowest modelled cost, by choosing among a fixed table of operating states.
//!
//! The application calls [`POET::apply_control`] once per unit of progress and
//! reports the throughput and power it saw. Every `period` calls the controller
//! averages the last `buffer_depth` reports, picks the cheapest state whose
//! modelled throughput meets the goal, and asks the actuator to switch to it.
//!
//! All quantities are unsigned fixed-point numbers: the integer `v` stands for
//! `v / FIXED_ONE`. Only ratios of like quantities enter a decision, so callers
//! are free to use another scale as long as they use it throughout.

pub mod controller;
pub mod error;
pub mod poet;
pub mod select;
pub mod states;
pub mod trace;
pub mod window;

pub use crate::controller::{poet_state, Decision, Model};
pub use crate::error::{ActuationError, ConfigError, InitError};
pub use crate::poet::{Actuator, Observer, POET};
pub use crate::select::{reaches_goal, select};
pub use crate::states::{POETControlState, POETCpuState, StateEntry, StateTable, FIXED_ONE};
pub use crate::window::{ObservationWindow, Sample};
