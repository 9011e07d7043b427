//! Core logic of a terminal client for a task-instrumentation service:
//! the reconnecting connection manager's state machine, the task table's
//! sort and selection model, and the column layout engine.

pub mod conn;
pub mod layout;
pub mod sort;
pub mod tasks;
