//! Display configuration for a single output device.
//!
//! The crate reconciles the free-form report of a display query tool with a
//! registry of selectable resolutions and scale factors, builds the command
//! lines that change the live configuration, and classifies what the user
//! should be told afterwards. It performs no input or output itself: the
//! caller runs each [`command::Invocation`] and hands back what happened.

pub mod block;
pub mod command;
pub mod connection_config;
pub mod decimal;
pub mod options;
pub mod page;
pub mod probe;
pub mod settings_action;
