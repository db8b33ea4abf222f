//! A mail-triggered automation relay: one inbound message per run is archived,
//! matched to a conversation, answered by an external agent and replied to.
//!
//! The crate holds the decisions of that relay. Filesystem, database and
//! subprocess work is requested from the caller and its outcome handed back.

pub mod error;
pub mod text;
pub mod message;
pub mod mail;
pub mod thread;
pub mod run;
pub mod subcommand;
