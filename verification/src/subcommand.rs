//! The subcommands of the relay.

use crate::mail::Mail;
use crate::run::{Run, Stage};
use vstd::prelude::*;

verus! {

/// What the relay is asked to do.
#[derive(Debug, Clone, PartialEq, Eq)]
pub enum Subcommand {
    /// Handle one inbound message.
    Mail(Mail),
}

impl Mail {
    /// The run that handles one inbound message with this configuration. It
    /// has asked for nothing yet; its first step asks for the input.
    pub fn run(self) -> (run: Run)
        ensures
            run.mail == self,
            run.stage == Stage::Start,
    {
        Run::new(self)
    }
}

impl Subcommand {
    /// The run that carries this subcommand out.
    pub fn run(self) -> (run: Run)
        ensures
            run.stage == Stage::Start,
            self matches Subcommand::Mail(mail) && run.mail == mail,
    {
        match self {
            Subcommand::Mail(mail) => mail.run(),
        }
    }
}

} // verus!
