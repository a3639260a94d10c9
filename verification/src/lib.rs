//! The focus model of a remote- and controller-driven shell.
//!
//! This is the logic layer of a shell: what focus is, what each action does
//! to it, and how a controller's intents get in. It draws nothing and names
//! no toolkit.
//!
//! | Module | Role |
//! |---|---|
//! | [`focus`] | The state machine: zones, tabs, indices, and what each action does |
//! | [`model`] | What a focus model means, and each action as a function on it |
//! | [`laws`] | What every action keeps, proved over the model |
//! | [`navigation`] | Action names to actions |
//! | [`gamepad`] | Which connected controller drives the interface |

pub mod focus;
pub mod gamepad;
pub mod laws;
pub mod model;
pub mod navigation;

pub use focus::{Action, FocusModel, Layout, Outcome, Tab, Zone};
pub use gamepad::driving_device;
pub use model::FocusView;
pub use navigation::parse_action;
