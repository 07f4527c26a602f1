//! An embeddable finite-state-machine engine.
//!
//! A machine is built from a list of guarded transitions between states,
//! then driven one message at a time. Every executable function carries a
//! contract over the mathematical model in [`sm::model`].

pub mod sm;
