//! Named stopwatches driven by one-line commands: a store of timers, the commands that
//! create, stop and show them, and the text that reports their state.

pub mod format;
pub mod report;
pub mod store;
pub mod command;
pub mod laws;
