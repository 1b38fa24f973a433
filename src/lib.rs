//! The command-invocation core of a desktop front-end to the `gia`
//! command-line tool: classifying and attaching files, building the argument
//! vector of a submission, combining the tool's output, and handing the
//! result from the background run to the presentation loop exactly once.
pub mod arguments;
pub mod catalog;
pub mod classify;
pub mod execution;
pub mod form;
pub mod icon;
pub mod shortcuts;
pub mod text;
pub mod walk;
