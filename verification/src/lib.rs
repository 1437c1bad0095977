//! Profile switching for a command-line assistant: discovery of the profiles on
//! disk, the selection cursor, the scrubbing of credentials from the ambient
//! settings, the environment a profile launches with, and the order of the
//! steps of one activation.
//!
//! Every function here works on plain values. Reading directories and files,
//! the terminal and child processes belong to the program around this library.

pub mod json;
pub mod config;
pub mod reconcile;
pub mod environment;
pub mod selector;
pub mod orchestrator;
pub mod launch;
