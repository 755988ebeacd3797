//! Core of a work/break enforcement daemon: a registry of connected input
//! devices grouped by hardware identity, exclusive-access (grab) management
//! with scoped lock guards, an inactivity tracker deciding between session
//! resets and owed breaks, and the scheduler state machine driving the
//! Waiting / Work / Break / long-reset cycle.

pub mod api;
pub mod check_inputs;
pub mod cli;
pub mod config;
pub mod decimal;
pub mod guard;
pub mod identity;
pub mod install;
pub mod lock;
pub mod names;
pub mod integration;
pub mod protocol;
pub mod registry;
pub mod scheduler;
pub mod status;
