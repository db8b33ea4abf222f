//! The ways a run can fail, their diagnostics and their exit statuses.

use vstd::prelude::*;
use vstd::string::*;

verus! {

/// Exit status asking the mail transfer agent to deliver the message again later.
pub const EXIT_TEMPFAIL: u8 = 75;

/// Exit status of every other failure.
pub const EXIT_FAILURE: u8 = 1;

/// Why a run stopped.
#[derive(Debug, Clone, PartialEq, Eq)]
pub enum Error {
    /// A directory could not be made, or a file not written or renamed, at `path`.
    FilesystemIo { path: String },
    /// The input is not a message.
    MailParse,
    /// The message has no `Message-ID` header.
    MissingMessageId,
    /// Neither `Reply-To` nor `From` holds a usable address.
    MissingSender,
    /// The sender is not an address a reply can be sent to.
    Address,
    /// The delivery mechanism failed.
    Send,
    /// Standard input could not be read.
    Stdin,
    /// The thread store at `path` could not be opened.
    DatabaseOpen { path: String },
    /// A thread store transaction could not be started.
    DatabaseTransaction,
    /// A thread store transaction could not be committed.
    DatabaseCommit,
    /// The thread table could not be opened.
    DatabaseTable,
    /// A read or write of the thread table failed.
    DatabaseStorage,
    /// The agent could not be started.
    AgentInvocation,
    /// The agent ended unsuccessfully, with `status` and what it wrote to its error stream.
    AgentFailed { status: String, stderr: String },
    /// The agent's output is not UTF-8.
    AgentOutput,
    /// The session directory at `path` could not be made.
    SessionDir { path: String },
}

impl Error {
    /// The exit status that reports this error.
    pub open spec fn spec_exit_code(&self) -> u8 {
        if self is FilesystemIo {
            EXIT_TEMPFAIL
        } else {
            EXIT_FAILURE
        }
    }

    /// The diagnostic line of this error.
    pub open spec fn spec_message(&self) -> Seq<char> {
        match self {
            Error::FilesystemIo { path } => "I/O error at `"@ + path@ + "`"@,
            Error::MailParse => "failed to parse message"@,
            Error::MissingMessageId => "message has no Message-ID header"@,
            Error::MissingSender => "message has no sender"@,
            Error::Address => "invalid recipient address"@,
            Error::Send => "failed to send reply"@,
            Error::Stdin => "failed to read stdin"@,
            Error::DatabaseOpen { path } => "failed to open database at `"@ + path@ + "`"@,
            Error::DatabaseTransaction => "database transaction error"@,
            Error::DatabaseCommit => "database commit error"@,
            Error::DatabaseTable => "database table error"@,
            Error::DatabaseStorage => "database storage error"@,
            Error::AgentInvocation => "failed to invoke agent"@,
            Error::AgentFailed { status, stderr } => "agent exited with "@ + status@,
            Error::AgentOutput => "agent output is not valid UTF-8"@,
            Error::SessionDir { path } => "failed to create session directory at `"@ + path@
                + "`"@,
        }
    }

    /// Whether the caller of the relay should hand the message in again.
    pub open spec fn spec_is_retryable(&self) -> bool {
        self is FilesystemIo
    }


    /// Whether this is a filesystem failure at `path`.
    pub open spec fn is_filesystem_io(self, at: Seq<char>) -> bool {
        self matches Error::FilesystemIo { path } && path@ == at
    }

    /// Whether this is a failure to open the thread store at `path`.
    pub open spec fn is_database_open(self, at: Seq<char>) -> bool {
        self matches Error::DatabaseOpen { path } && path@ == at
    }

    /// Whether this is a failure to make the session directory at `path`.
    pub open spec fn is_session_dir(self, at: Seq<char>) -> bool {
        self matches Error::SessionDir { path } && path@ == at
    }

    /// A second value of this error.
    pub fn duplicate(&self) -> (copy: Error)
        ensures
            copy == *self,
    {
        match self {
            Error::FilesystemIo { path } => Error::FilesystemIo { path: path.clone() },
            Error::MailParse => Error::MailParse,
            Error::MissingMessageId => Error::MissingMessageId,
            Error::MissingSender => Error::MissingSender,
            Error::Address => Error::Address,
            Error::Send => Error::Send,
            Error::Stdin => Error::Stdin,
            Error::DatabaseOpen { path } => Error::DatabaseOpen { path: path.clone() },
            Error::DatabaseTransaction => Error::DatabaseTransaction,
            Error::DatabaseCommit => Error::DatabaseCommit,
            Error::DatabaseTable => Error::DatabaseTable,
            Error::DatabaseStorage => Error::DatabaseStorage,
            Error::AgentInvocation => Error::AgentInvocation,
            Error::AgentFailed { status, stderr } => Error::AgentFailed {
                status: status.clone(),
                stderr: stderr.clone(),
            },
            Error::AgentOutput => Error::AgentOutput,
            Error::SessionDir { path } => Error::SessionDir { path: path.clone() },
        }
    }

    /// The exit status that reports this error: the temporary-failure status for a
    /// filesystem failure of the archive, the generic failure status otherwise.
    pub fn exit_code(&self) -> (code: u8)
        ensures
            code == self.spec_exit_code(),
            code != 0,
            code == EXIT_TEMPFAIL <==> self.spec_is_retryable(),
    {
        match self {
            Error::FilesystemIo { .. } => EXIT_TEMPFAIL,
            _ => EXIT_FAILURE,
        }
    }

    /// The diagnostic line of this error, without a line end.
    pub fn message(&self) -> (text: String)
        ensures
            text@ == self.spec_message(),
    {
        match self {
            Error::FilesystemIo { path } => quoted("I/O error at `", path),
            Error::MailParse => String::from_str("failed to parse message"),
            Error::MissingMessageId => String::from_str("message has no Message-ID header"),
            Error::MissingSender => String::from_str("message has no sender"),
            Error::Address => String::from_str("invalid recipient address"),
            Error::Send => String::from_str("failed to send reply"),
            Error::Stdin => String::from_str("failed to read stdin"),
            Error::DatabaseOpen { path } => quoted("failed to open database at `", path),
            Error::DatabaseTransaction => String::from_str("database transaction error"),
            Error::DatabaseCommit => String::from_str("database commit error"),
            Error::DatabaseTable => String::from_str("database table error"),
            Error::DatabaseStorage => String::from_str("database storage error"),
            Error::AgentInvocation => String::from_str("failed to invoke agent"),
            Error::AgentFailed { status, stderr } => {
                let mut text = String::from_str("agent exited with ");
                text.append(status.as_str());
                text
            },
            Error::AgentOutput => String::from_str("agent output is not valid UTF-8"),
            Error::SessionDir { path } => quoted("failed to create session directory at `", path),
        }
    }
}

/// `lead`, then `path`, then a closing backquote.
fn quoted(lead: &str, path: &String) -> (text: String)
    ensures
        text@ == lead@ + path@ + "`"@,
{
    let mut text = String::from_str(lead);
    text.append(path.as_str());
    text.append("`");
    text
}

} // verus!
