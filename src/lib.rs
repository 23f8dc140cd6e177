//! Execution engine of a small command interpreter: the command tree, the
//! shell's tables, and the decisions that turn a tree into processes, pipes
//! and an exit status. The system calls themselves are made by the caller;
//! every rule about what to run, with which descriptors, and what comes out
//! is stated and proved here.

pub mod error;
pub mod structures;
pub mod dispatch;
pub mod text;
pub mod shell;
pub mod pipeline;
pub mod sequence;
pub mod expand;
pub mod redirect;
pub mod render;
