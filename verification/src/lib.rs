//! A small interactive command interpreter as a verified decision core, with
//! the text tools that travel with it.
//!
//! The interpreter reads lines at a prompt, cuts each into the stages of a
//! pipeline, and runs every stage as a process whose output feeds the next
//! one. Nothing in this library starts a process or touches the terminal: the
//! interpreter is a state machine that names the action to perform and takes
//! back what came of it, so that every decision it makes is stated in a
//! contract and proved.
//!
//! - [`text`], [`parser`] and [`mode`] turn a line into stages: trimming,
//!   cutting at the separator of stages, cutting into words, and resolving the
//!   execution mode of a stage.
//! - [`shell`] is the interpreter itself, [`error`] what it reports, and
//!   [`guarantees`] what holds of it in every state.
//! - [`sort`] sorts lines by a key column; [`column`], [`number`], [`human`]
//!   and [`order`] find the column and compare what stands in it, and
//!   [`consistency`] says when the comparison is an order.
//! - [`relay`] is the state machine of a line relay between the terminal and
//!   a server.
//! - [`cli`] holds the options of the command line.

pub mod cli;
pub mod column;
pub mod consistency;
pub mod error;
pub mod guarantees;
pub mod human;
pub mod mode;
pub mod number;
pub mod order;
pub mod parser;
pub mod relay;
pub mod shell;
pub mod sort;
pub mod text;

pub use crate::cli::Cli;
