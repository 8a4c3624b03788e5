//! Workflow verbs over `git`: creating a branch from the latest base, rebasing
//! onto it, committing fixups and folding them in, switching and deleting
//! branches from a list, cherry-picking from a log, pruning what is gone at
//! the remote. Each verb is a short sequence of invocations of the tool with
//! an early exit on the first failure.
//!
//! The library never starts a process and never reads the terminal. It
//! reaches the tool through an executor ([`commands::Exec`]) and takes the
//! answer to a prompt as a value. What it decides in between is proved: for
//! each verb, which calls it issues for which replies, in what order, and what
//! it returns ([`commands::Plan`], [`commands::performed`]).
//!
//! - [`text`] and [`order`]: reading the tool's output and writing messages.
//! - [`commands`]: the executor, the record of a session, and the verbs.
//! - [`utils`]: the base resolver and the stash guard.
//! - [`cli`] and [`dispatch`]: from a command line to a verb and to a report.
//! - [`views`]: how results read in contracts.

pub mod cli;
pub mod commands;
pub mod dispatch;
pub mod order;
pub mod text;
pub mod utils;
pub mod views;
