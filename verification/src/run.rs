//! One run of the relay as a sequence of requests.
//!
//! The run does no outside work itself. Each step names the work to do next:
//! read the input, touch the archive, ask the thread store, run the agent,
//! deliver the reply. The caller does that work and hands its outcome to the
//! next step. The inbound message is archived before anything is read from it,
//! and a failure of any request ends the run with the error that reports it.

use crate::error::Error;
use crate::mail::{
    address_is_valid, bracketed, composed, enclose, is_mail_address, is_token, joined,
    lemma_archive_names_differ, lemma_tmp_and_new_differ, mint_token, new_file_of, rendered_html,
    reply_id_of, serialize_reply, tmp_file_of, AgentCall, Mail, MaildirPaths, Reply,
};
use crate::message::{parse_of, Message, MessageView};
use crate::text::views;
use crate::thread::{lookup_keys, lookup_order, resolved_session, stored_session, Store};
use vstd::prelude::*;
use vstd::string::*;
use vstd::utf8::*;

verus! {

/// The part of a thread store access that failed.
#[derive(Debug, Clone, Copy, PartialEq, Eq)]
pub enum StoreFault {
    Open,
    Transaction,
    Table,
    Storage,
    Commit,
}

/// The place an archive write has reached.
#[derive(Debug, Clone, Copy, PartialEq, Eq)]
pub enum ArchiveStep {
    Cur,
    New,
    Tmp,
    Write,
    Rename,
}

/// One archive write under way: its paths, its bytes, and the request last made.
#[derive(Debug, PartialEq, Eq)]
pub struct Archive {
    pub paths: MaildirPaths,
    pub data: Vec<u8>,
    pub step: ArchiveStep,
}

/// Outside work that a run asks for.
#[derive(Debug, PartialEq, Eq)]
pub enum Request {
    /// Read all of standard input.
    ReadInput,
    /// Read the clock, in nanoseconds since the Unix epoch.
    ReadClock,
    /// Make a directory and its parents.
    CreateDir { path: String },
    /// Write a file.
    WriteFile { path: String, data: Vec<u8> },
    /// Rename a file.
    Rename { from: String, to: String },
    /// Look a message identifier up in the thread store at `db`.
    Lookup { db: String, key: String },
    /// Record a message identifier under a session in the thread store at `db`,
    /// in one transaction.
    Record { db: String, key: String, session: String },
    /// Run the agent and wait for it.
    RunAgent { call: AgentCall },
    /// Hand a message to the delivery program.
    Deliver { program: String, from: String, to: String, message: Vec<u8> },
    /// Stop, with the result of the run.
    Finish { result: Result<(), Error> },
}

/// What came of the request last made.
#[derive(Debug, PartialEq, Eq)]
pub enum Outcome {
    /// The input that was read.
    Input(Vec<u8>),
    /// The clock's reading.
    Time(u128),
    /// The work was done and has nothing to report.
    Done,
    /// The session stored under the identifier looked up.
    Found(String),
    /// The store holds nothing under the identifier looked up.
    Missing,
    /// The store has no thread table yet: nothing was ever recorded in it.
    NoTable,
    /// The agent ran and ended.
    Exited { success: bool, status: String, stdout: Vec<u8>, stderr: String },
    /// The work failed.
    Failed,
    /// The thread store failed.
    StoreFailed(StoreFault),
}

/// How far a run has come, with what it carries from there.
#[derive(Debug, PartialEq, Eq)]
pub enum Stage {
    /// Nothing is asked yet.
    Start,
    /// The input is being read.
    Input,
    /// The clock is read to name the archive file of the input.
    InboundClock { raw: Vec<u8> },
    /// The input is being archived.
    Inbound { archive: Archive },
    /// The thread store is asked for `keys[cursor]`.
    Lookup { message: Message, keys: Vec<String>, cursor: usize },
    /// The message is being recorded under its session.
    RecordInbound { message: Message, session: String },
    /// The session directory is being made.
    SessionDir { message: Message, session: String, call: AgentCall },
    /// The agent is running.
    Agent { message: Message, session: String },
    /// The reply is being recorded under the session.
    RecordReply { message: Message, reply: Reply },
    /// The clock is read to name the archive file of the reply.
    ReplyClock { message: Message, wire: Vec<u8> },
    /// The reply is being archived.
    Outbound { message: Message, archive: Archive },
    /// The reply is being delivered.
    Deliver,
    /// The run is over.
    Finished { result: Result<(), Error> },
}

/// One run of the relay.
#[derive(Debug, PartialEq, Eq)]
pub struct Run {
    pub mail: Mail,
    pub stage: Stage,
}

/// The step after `step` of an archive write, where there is one.
pub open spec fn following(step: ArchiveStep) -> Option<ArchiveStep> {
    match step {
        ArchiveStep::Cur => Some(ArchiveStep::New),
        ArchiveStep::New => Some(ArchiveStep::Tmp),
        ArchiveStep::Tmp => Some(ArchiveStep::Write),
        ArchiveStep::Write => Some(ArchiveStep::Rename),
        ArchiveStep::Rename => None,
    }
}

impl Archive {
    /// The path that the request of the current step touches, and that a
    /// failure of it is reported at.
    pub open spec fn path(self) -> Seq<char> {
        match self.step {
            ArchiveStep::Cur => self.paths.cur@,
            ArchiveStep::New => self.paths.new@,
            ArchiveStep::Tmp => self.paths.tmp@,
            ArchiveStep::Write => self.paths.tmp_file@,
            ArchiveStep::Rename => self.paths.new_file@,
        }
    }

    /// Whether `request` is the request of the current step: the three
    /// directories are made, then the bytes are written under `tmp`, then the
    /// file is renamed into `new`.
    pub open spec fn asks(self, request: Request) -> bool {
        match self.step {
            ArchiveStep::Write => request matches Request::WriteFile { path, data } && path@
                == self.paths.tmp_file@ && data@ == self.data@,
            ArchiveStep::Rename => request matches Request::Rename { from, to } && from@
                == self.paths.tmp_file@ && to@ == self.paths.new_file@,
            _ => request matches Request::CreateDir { path } && path@ == self.path(),
        }
    }

    /// Whether this is the start of an archive write of `data` into `maildir`
    /// at `timestamp`, with `request` its first request.
    pub open spec fn begins(
        self,
        maildir: Seq<char>,
        timestamp: nat,
        data: Seq<u8>,
        request: Request,
    ) -> bool {
        &&& self.step == ArchiveStep::Cur
        &&& self.data@ == data
        &&& self.paths.describes(maildir, timestamp)
        &&& self.asks(request)
    }

    /// Whether `next` is this archive write one step on, with `request` the
    /// request of that step.
    pub open spec fn continues(self, next: Archive, request: Request) -> bool {
        &&& following(self.step) == Some(next.step)
        &&& next.paths == self.paths
        &&& next.data == self.data
        &&& next.asks(request)
    }

    /// The request of the current step.
    pub fn request(&self) -> (request: Request)
        ensures
            self.asks(request),
    {
        match self.step {
            ArchiveStep::Cur => Request::CreateDir { path: self.paths.cur.clone() },
            ArchiveStep::New => Request::CreateDir { path: self.paths.new.clone() },
            ArchiveStep::Tmp => Request::CreateDir { path: self.paths.tmp.clone() },
            ArchiveStep::Write => Request::WriteFile {
                path: self.paths.tmp_file.clone(),
                data: copy_bytes(&self.data),
            },
            ArchiveStep::Rename => Request::Rename {
                from: self.paths.tmp_file.clone(),
                to: self.paths.new_file.clone(),
            },
        }
    }

    /// The path that the request of the current step touches.
    pub fn current_path(&self) -> (path: String)
        ensures
            path@ == self.path(),
    {
        match self.step {
            ArchiveStep::Cur => self.paths.cur.clone(),
            ArchiveStep::New => self.paths.new.clone(),
            ArchiveStep::Tmp => self.paths.tmp.clone(),
            ArchiveStep::Write => self.paths.tmp_file.clone(),
            ArchiveStep::Rename => self.paths.new_file.clone(),
        }
    }
}

/// A second vector of the same bytes.
fn copy_bytes(bytes: &Vec<u8>) -> (copy: Vec<u8>)
    ensures
        copy@ == bytes@,
{
    let mut copy: Vec<u8> = Vec::new();
    let mut i: usize = 0;
    while i < bytes.len()
        invariant
            i <= bytes.len(),
            copy@ == bytes@.subrange(0, i as int),
        decreases bytes.len() - i,
    {
        copy.push(bytes[i]);
        proof {
            assert(copy@ =~= bytes@.subrange(0, i + 1));
        }
        i += 1;
    }
    proof {
        assert(bytes@.subrange(0, i as int) =~= bytes@);
    }
    copy
}

/// Whether `error` reports the store fault `fault` of the store at `db`.
pub open spec fn reports_fault(error: Error, fault: StoreFault, db: Seq<char>) -> bool {
    match fault {
        StoreFault::Open => error.is_database_open(db),
        StoreFault::Transaction => error == Error::DatabaseTransaction,
        StoreFault::Table => error == Error::DatabaseTable,
        StoreFault::Storage => error == Error::DatabaseStorage,
        StoreFault::Commit => error == Error::DatabaseCommit,
    }
}

/// Whether a failed store request is reported by `error`: the fault that the
/// store named, or a storage error where the outcome names none.
pub open spec fn reports_store_failure(error: Error, outcome: Outcome, db: Seq<char>) -> bool {
    match outcome {
        Outcome::StoreFailed(fault) => reports_fault(error, fault, db),
        _ => error == Error::DatabaseStorage,
    }
}

/// The error with which a run stopped at a step, where it stopped with one.
pub open spec fn stopped(post: Run, request: Request) -> Option<Error> {
    match request {
        Request::Finish { result: Err(e) } => {
            if post.stage == (Stage::Finished { result: Err(e) }) {
                Some(e)
            } else {
                None
            }
        },
        _ => None,
    }
}

/// Whether the run now records `message` under `session`.
pub open spec fn records_inbound(
    mail: Mail,
    message: MessageView,
    session: Seq<char>,
    post: Run,
    request: Request,
) -> bool {
    &&& post.stage matches Stage::RecordInbound { message: m, session: s } && m@ == message && s@
        == session
    &&& request matches Request::Record { db, key, session: s } && db@ == mail.db@ && key@
        == message.message_id && s@ == session
}

/// Whether the run now goes on resolving `message` at `keys[cursor]`: it asks
/// the store for that key, or, where the keys are used up, records the message
/// under the minted session `token`.
pub open spec fn resolves(
    mail: Mail,
    message: MessageView,
    keys: Seq<Seq<char>>,
    cursor: int,
    token: Seq<char>,
    post: Run,
    request: Request,
) -> bool {
    if cursor < keys.len() {
        &&& post.stage matches Stage::Lookup { message: m, keys: k, cursor: c } && m@ == message
            && views(k@) == keys && c == cursor
        &&& request matches Request::Lookup { db, key } && db@ == mail.db@ && key@ == keys[cursor]
    } else {
        records_inbound(mail, message, token, post, request)
    }
}

/// What follows the archiving of the input `raw`: the run stops with the error
/// of a message that cannot be read, or begins to resolve the message's thread.
pub open spec fn reads_message(
    mail: Mail,
    raw: Seq<u8>,
    token: Seq<char>,
    post: Run,
    request: Request,
) -> bool {
    match parse_of(raw) {
        Err(e) => stopped(post, request) == Some(e),
        Ok(message) => resolves(mail, message, lookup_order(message), 0, token, post, request),
    }
}

/// What follows the end of the agent's run.
pub open spec fn answers(
    mail: Mail,
    message: MessageView,
    session: Seq<char>,
    outcome: Outcome,
    token: Seq<char>,
    post: Run,
    request: Request,
) -> bool {
    match outcome {
        Outcome::Exited { success, status, stdout, stderr } => if !success {
            stopped(post, request) == Some(Error::AgentFailed { status, stderr })
        } else if !valid_utf8(stdout@) {
            stopped(post, request) == Some(Error::AgentOutput)
        } else {
            &&& post.stage matches Stage::RecordReply { message: m, reply } && m@ == message
                && reply.describes(
                message,
                reply_id_of(token),
                decode_utf8(stdout@),
                rendered_html(decode_utf8(stdout@)),
            )
            &&& request matches Request::Record { db, key, session: s } && db@ == mail.db@ && key@
                == bracketed(reply_id_of(token)) && s@ == session
        },
        _ => stopped(post, request) == Some(Error::AgentInvocation),
    }
}

/// What follows the archiving of the reply: it is handed to the delivery
/// program for the message's sender, or the run stops where the sender is no
/// address that mail can be sent to.
pub open spec fn delivers(
    mail: Mail,
    sender: Seq<char>,
    wire: Seq<u8>,
    post: Run,
    request: Request,
) -> bool {
    if is_mail_address(sender) {
        &&& post.stage == Stage::Deliver
        &&& request matches Request::Deliver { program, from, to, message } && program@
            == mail.sendmail@ && from@ == "root@tulip.farm"@ && to@ == sender && message@ == wire
    } else {
        stopped(post, request) == Some(Error::Address)
    }
}

/// Whether a run in the state `pre` that is handed `outcome`, with `token` the
/// identifier minted for this step, goes to the state `post` and asks `request`.
pub open spec fn advances(pre: Run, outcome: Outcome, token: Seq<char>, post: Run, request: Request)
    -> bool {
    &&& post.mail == pre.mail
    &&& match pre.stage {
        Stage::Start => post.stage == Stage::Input && request == Request::ReadInput,
        Stage::Input => match outcome {
            Outcome::Input(raw) => post.stage == (Stage::InboundClock { raw }) && request
                == Request::ReadClock,
            _ => stopped(post, request) == Some(Error::Stdin),
        },
        Stage::InboundClock { raw } => match outcome {
            Outcome::Time(t) => post.stage matches Stage::Inbound { archive } && archive.begins(
                pre.mail.dir@,
                t as nat,
                raw@,
                request,
            ),
            _ => stopped(post, request) matches Some(e) && e.is_filesystem_io(pre.mail.dir@),
        },
        Stage::Inbound { archive } => match outcome {
            Outcome::Done => if archive.step == ArchiveStep::Rename {
                reads_message(pre.mail, archive.data@, token, post, request)
            } else {
                post.stage matches Stage::Inbound { archive: next } && archive.continues(
                    next,
                    request,
                )
            },
            _ => stopped(post, request) matches Some(e) && e.is_filesystem_io(archive.path()),
        },
        Stage::Lookup { message, keys, cursor } => match outcome {
            Outcome::Found(session) => records_inbound(
                pre.mail,
                message@,
                session@,
                post,
                request,
            ),
            Outcome::Missing => resolves(
                pre.mail,
                message@,
                views(keys@),
                cursor + 1,
                token,
                post,
                request,
            ),
            Outcome::NoTable => records_inbound(pre.mail, message@, token, post, request),
            _ => stopped(post, request) matches Some(e) && reports_store_failure(
                e,
                outcome,
                pre.mail.db@,
            ),
        },
        Stage::RecordInbound { message, session } => match outcome {
            Outcome::Done => {
                &&& post.stage matches Stage::SessionDir { message: m, session: s, call } && m@
                    == message@ && s@ == session@ && call.describes(
                    pre.mail.session_dir@,
                    pre.mail.claude@,
                    session@,
                    message.body@,
                )
                &&& request matches Request::CreateDir { path } && path@ == joined(
                    pre.mail.session_dir@,
                    session@,
                )
            },
            _ => stopped(post, request) matches Some(e) && reports_store_failure(
                e,
                outcome,
                pre.mail.db@,
            ),
        },
        Stage::SessionDir { message, session, call } => match outcome {
            Outcome::Done => {
                &&& post.stage matches Stage::Agent { message: m, session: s } && m@ == message@
                    && s@ == session@
                &&& request == (Request::RunAgent { call })
            },
            _ => stopped(post, request) matches Some(e) && e.is_session_dir(call.dir@),
        },
        Stage::Agent { message, session } => answers(
            pre.mail,
            message@,
            session@,
            outcome,
            token,
            post,
            request,
        ),
        Stage::RecordReply { message, reply } => match outcome {
            Outcome::Done => {
                &&& post.stage matches Stage::ReplyClock { message: m, wire } && m@ == message@
                    && composed(reply, wire@)
                &&& request == Request::ReadClock
            },
            _ => stopped(post, request) matches Some(e) && reports_store_failure(
                e,
                outcome,
                pre.mail.db@,
            ),
        },
        Stage::ReplyClock { message, wire } => match outcome {
            Outcome::Time(t) => post.stage matches Stage::Outbound { message: m, archive } && m@
                == message@ && archive.begins(pre.mail.dir@, t as nat, wire@, request),
            _ => stopped(post, request) matches Some(e) && e.is_filesystem_io(pre.mail.dir@),
        },
        Stage::Outbound { message, archive } => match outcome {
            Outcome::Done => if archive.step == ArchiveStep::Rename {
                delivers(pre.mail, message.sender@, archive.data@, post, request)
            } else {
                post.stage matches Stage::Outbound { message: m, archive: next } && m@ == message@
                    && archive.continues(next, request)
            },
            _ => stopped(post, request) matches Some(e) && e.is_filesystem_io(archive.path()),
        },
        Stage::Deliver => match outcome {
            Outcome::Done => post.stage == (Stage::Finished { result: Ok(()) }) && request == (
            Request::Finish { result: Ok(()) }),
            _ => stopped(post, request) == Some(Error::Send),
        },
        Stage::Finished { result } => post.stage == pre.stage && request == (Request::Finish {
            result,
        }),
    }
}

/// The error that reports a failed store request.
fn store_error(outcome: &Outcome, db: &String) -> (error: Error)
    ensures
        reports_store_failure(error, *outcome, db@),
{
    match outcome {
        Outcome::StoreFailed(StoreFault::Open) => Error::DatabaseOpen { path: db.clone() },
        Outcome::StoreFailed(StoreFault::Transaction) => Error::DatabaseTransaction,
        Outcome::StoreFailed(StoreFault::Table) => Error::DatabaseTable,
        Outcome::StoreFailed(StoreFault::Commit) => Error::DatabaseCommit,
        _ => Error::DatabaseStorage,
    }
}

/// The end of a run with `error`.
fn stop(mail: Mail, error: Error) -> (r: (Run, Request))
    ensures
        r.0.mail == mail,
        stopped(r.0, r.1) == Some(error),
{
    let copy = error.duplicate();
    let run = Run { mail, stage: Stage::Finished { result: Err(error) } };
    (run, Request::Finish { result: Err(copy) })
}

/// The start of an archive write of `data` at `timestamp`.
fn begin_archive(mail: &Mail, timestamp: u128, data: Vec<u8>) -> (r: (Archive, Request))
    ensures
        r.0.begins(mail.dir@, timestamp as nat, data@, r.1),
{
    let paths = Mail::save_to_maildir(mail.dir.as_str(), timestamp);
    let archive = Archive { paths, data, step: ArchiveStep::Cur };
    let request = archive.request();
    (archive, request)
}

/// An archive write one step on, or its bytes where it is complete.
fn continue_archive(archive: Archive) -> (r: Result<(Archive, Request), Vec<u8>>)
    ensures
        match r {
            Ok((next, request)) => archive.step != ArchiveStep::Rename && archive.continues(
                next,
                request,
            ),
            Err(data) => archive.step == ArchiveStep::Rename && data == archive.data,
        },
{
    let Archive { paths, data, step } = archive;
    let step = match step {
        ArchiveStep::Cur => ArchiveStep::New,
        ArchiveStep::New => ArchiveStep::Tmp,
        ArchiveStep::Tmp => ArchiveStep::Write,
        ArchiveStep::Write => ArchiveStep::Rename,
        ArchiveStep::Rename => {
            return Err(data);
        },
    };
    let next = Archive { paths, data, step };
    let request = next.request();
    Ok((next, request))
}

/// Whether `token` is the identifier that a step has at hand: the one given,
/// or, where none is given, one of the shape that is minted.
pub open spec fn supplied(given: Option<String>, token: Seq<char>) -> bool {
    match given {
        Some(t) => token == t@,
        None => is_token(token),
    }
}

/// An identifier that a step which uses none has at hand all the same.
pub open spec fn unused_token(given: Option<String>) -> Seq<char> {
    match given {
        Some(t) => t@,
        None => Seq::new(36, |i: int| '0'),
    }
}

/// The identifier to use: the one given, or a newly minted one where none is.
fn token_from(given: Option<String>) -> (token: String)
    ensures
        supplied(given, token@),
{
    match given {
        Some(token) => token,
        None => mint_token(),
    }
}

/// The recording of `message` under `session`.
fn record_inbound(mail: Mail, message: Message, session: String) -> (r: (Run, Request))
    ensures
        r.0.mail == mail,
        records_inbound(mail, message@, session@, r.0, r.1),
{
    let request = Request::Record {
        db: mail.db.clone(),
        key: message.message_id.clone(),
        session: session.clone(),
    };
    (Run { mail, stage: Stage::RecordInbound { message, session } }, request)
}

/// The next step of resolving `message` at `keys[cursor]`, with the identifier
/// that it used or could have used.
fn resolve(
    mail: Mail,
    message: Message,
    keys: Vec<String>,
    cursor: usize,
    given: Option<String>,
) -> (r: (Run, Request, Ghost<Seq<char>>))
    ensures
        r.0.mail == mail,
        supplied(given, r.2@),
        resolves(mail, message@, views(keys@), cursor as int, r.2@, r.0, r.1),
{
    if cursor < keys.len() {
        let request = Request::Lookup { db: mail.db.clone(), key: keys[cursor].clone() };
        let run = Run { mail, stage: Stage::Lookup { message, keys, cursor } };
        (run, request, Ghost(unused_token(given)))
    } else {
        let token = token_from(given);
        let ghost used = token@;
        let (run, request) = record_inbound(mail, message, token);
        (run, request, Ghost(used))
    }
}

impl Mail {
    /// Begins to resolve the session of `message`: asks the thread store for
    /// the nearest ancestor the message names, or, where it names none, records
    /// the message under a new session. The new session is `token` where one is
    /// given, and is minted otherwise; none is minted where none is needed. The
    /// answers of the store are taken by the steps of the run that is returned.
    pub fn resolve_session(self, message: Message, token: Option<String>) -> (r: (Run, Request))
        ensures
            r.0.mail == self,
            exists|used: Seq<char>|
                supplied(token, used) && resolves(
                    self,
                    message@,
                    lookup_order(message@),
                    0,
                    used,
                    r.0,
                    r.1,
                ),
    {
        let keys = lookup_keys(&message);
        let (run, request, Ghost(used)) = resolve(self, message, keys, 0, token);
        proof {
            assert(supplied(token, used) && resolves(
                self,
                message@,
                lookup_order(message@),
                0,
                used,
                run,
                request,
            ));
        }
        (run, request)
    }
}

impl Run {
    /// A run that has asked for nothing yet.
    pub fn new(mail: Mail) -> (run: Run)
        ensures
            run.mail == mail,
            run.stage == Stage::Start,
    {
        Run { mail, stage: Stage::Start }
    }

    /// Whether the run is over.
    pub fn is_finished(&self) -> (over: bool)
        ensures
            over == (self.stage is Finished),
    {
        match &self.stage {
            Stage::Finished { .. } => true,
            _ => false,
        }
    }

    /// Takes the outcome of the request last made and gives the next request.
    /// An identifier is minted only in a step that uses one: where a message
    /// begins a new thread, and where a reply is given its identifier. The
    /// first call, on a new run, takes any outcome.
    pub fn step(self, outcome: Outcome) -> (r: (Run, Request))
        ensures
            exists|token: Seq<char>| is_token(token) && advances(self, outcome, token, r.0, r.1),
    {
        let (run, request, Ghost(used)) = self.proceed(outcome, None);
        proof {
            assert(is_token(used) && advances(self, outcome, used, run, request));
        }
        (run, request)
    }

    /// Takes the outcome of the request last made and gives the next request,
    /// with `token` the identifier to use for a session or a reply that needs
    /// one.
    pub fn advance(self, outcome: Outcome, token: String) -> (r: (Run, Request))
        ensures
            advances(self, outcome, token@, r.0, r.1),
    {
        let r = self.proceed(outcome, Some(token));
        (r.0, r.1)
    }

    /// The next state and request, with the identifier that the step used or
    /// could have used.
    fn proceed(self, outcome: Outcome, given: Option<String>) -> (r: (
        Run,
        Request,
        Ghost<Seq<char>>,
    ))
        ensures
            supplied(given, r.2@),
            advances(self, outcome, r.2@, r.0, r.1),
    {
        let ghost idle = unused_token(given);
        let Run { mail, stage } = self;
        match stage {
            Stage::Start => (Run { mail, stage: Stage::Input }, Request::ReadInput, Ghost(idle)),
            Stage::Input => match outcome {
                Outcome::Input(raw) => (
                    Run { mail, stage: Stage::InboundClock { raw } },
                    Request::ReadClock,
                    Ghost(idle),
                ),
                _ => {
                    let (run, request) = stop(mail, Error::Stdin);
                    (run, request, Ghost(idle))
                },
            },
            Stage::InboundClock { raw } => match outcome {
                Outcome::Time(t) => {
                    let (archive, request) = begin_archive(&mail, t, raw);
                    (Run { mail, stage: Stage::Inbound { archive } }, request, Ghost(idle))
                },
                _ => {
                    let path = mail.dir.clone();
                    let (run, request) = stop(mail, Error::FilesystemIo { path });
                    (run, request, Ghost(idle))
                },
            },
            Stage::Inbound { archive } => match outcome {
                Outcome::Done => match continue_archive(archive) {
                    Ok((next, request)) => (
                        Run { mail, stage: Stage::Inbound { archive: next } },
                        request,
                        Ghost(idle),
                    ),
                    Err(raw) => match Message::parse(raw.as_slice()) {
                        Ok(message) => {
                            let ghost view = message@;
                            let (run, request) = mail.resolve_session(message, given);
                            let ghost used = choose|used: Seq<char>|
                                supplied(given, used) && resolves(
                                    self.mail,
                                    view,
                                    lookup_order(view),
                                    0,
                                    used,
                                    run,
                                    request,
                                );
                            (run, request, Ghost(used))
                        },
                        Err(e) => {
                            let (run, request) = stop(mail, e);
                            (run, request, Ghost(idle))
                        },
                    },
                },
                _ => {
                    let path = archive.current_path();
                    let (run, request) = stop(mail, Error::FilesystemIo { path });
                    (run, request, Ghost(idle))
                },
            },
            Stage::Lookup { message, keys, cursor } => match outcome {
                Outcome::Found(session) => {
                    let (run, request) = record_inbound(mail, message, session);
                    (run, request, Ghost(idle))
                },
                Outcome::Missing => {
                    if cursor < keys.len() {
                        resolve(mail, message, keys, cursor + 1, given)
                    } else {
                        resolve(mail, message, keys, cursor, given)
                    }
                },
                Outcome::NoTable => {
                    let token = token_from(given);
                    let ghost used = token@;
                    let (run, request) = record_inbound(mail, message, token);
                    (run, request, Ghost(used))
                },
                _ => {
                    let error = store_error(&outcome, &mail.db);
                    let (run, request) = stop(mail, error);
                    (run, request, Ghost(idle))
                },
            },
            Stage::RecordInbound { message, session } => match outcome {
                Outcome::Done => {
                    let call = mail.invoke_agent(session.as_str(), message.body.as_str());
                    let request = Request::CreateDir { path: call.dir.clone() };
                    (
                        Run { mail, stage: Stage::SessionDir { message, session, call } },
                        request,
                        Ghost(idle),
                    )
                },
                _ => {
                    let error = store_error(&outcome, &mail.db);
                    let (run, request) = stop(mail, error);
                    (run, request, Ghost(idle))
                },
            },
            Stage::SessionDir { message, session, call } => match outcome {
                Outcome::Done => (
                    Run { mail, stage: Stage::Agent { message, session } },
                    Request::RunAgent { call },
                    Ghost(idle),
                ),
                _ => {
                    let path = call.dir.clone();
                    let (run, request) = stop(mail, Error::SessionDir { path });
                    (run, request, Ghost(idle))
                },
            },
            Stage::Agent { message, session } => match outcome {
                Outcome::Exited { success, status, stdout, stderr } => {
                    match Mail::agent_response(success, status, stdout, stderr) {
                        Ok(response) => {
                            let token = token_from(given);
                            let html = Mail::markdown_to_html(response.as_str());
                            let id = Mail::reply_id(token.as_str());
                            let reply = Mail::reply(
                                &message,
                                id.as_str(),
                                response.as_str(),
                                html.as_str(),
                            );
                            let request = Request::Record {
                                db: mail.db.clone(),
                                key: enclose(id.as_str()),
                                session,
                            };
                            (
                                Run { mail, stage: Stage::RecordReply { message, reply } },
                                request,
                                Ghost(token@),
                            )
                        },
                        Err(e) => {
                            let (run, request) = stop(mail, e);
                            (run, request, Ghost(idle))
                        },
                    }
                },
                _ => {
                    let (run, request) = stop(mail, Error::AgentInvocation);
                    (run, request, Ghost(idle))
                },
            },
            Stage::RecordReply { message, reply } => match outcome {
                Outcome::Done => {
                    let wire = serialize_reply(&reply);
                    (
                        Run { mail, stage: Stage::ReplyClock { message, wire } },
                        Request::ReadClock,
                        Ghost(idle),
                    )
                },
                _ => {
                    let error = store_error(&outcome, &mail.db);
                    let (run, request) = stop(mail, error);
                    (run, request, Ghost(idle))
                },
            },
            Stage::ReplyClock { message, wire } => match outcome {
                Outcome::Time(t) => {
                    let (archive, request) = begin_archive(&mail, t, wire);
                    (
                        Run { mail, stage: Stage::Outbound { message, archive } },
                        request,
                        Ghost(idle),
                    )
                },
                _ => {
                    let path = mail.dir.clone();
                    let (run, request) = stop(mail, Error::FilesystemIo { path });
                    (run, request, Ghost(idle))
                },
            },
            Stage::Outbound { message, archive } => match outcome {
                Outcome::Done => match continue_archive(archive) {
                    Ok((next, request)) => (
                        Run { mail, stage: Stage::Outbound { message, archive: next } },
                        request,
                        Ghost(idle),
                    ),
                    Err(wire) => {
                        if address_is_valid(message.sender.as_str()) {
                            let request = Request::Deliver {
                                program: mail.sendmail.clone(),
                                from: String::from_str("root@tulip.farm"),
                                to: message.sender,
                                message: wire,
                            };
                            (Run { mail, stage: Stage::Deliver }, request, Ghost(idle))
                        } else {
                            let (run, request) = stop(mail, Error::Address);
                            (run, request, Ghost(idle))
                        }
                    },
                },
                _ => {
                    let path = archive.current_path();
                    let (run, request) = stop(mail, Error::FilesystemIo { path });
                    (run, request, Ghost(idle))
                },
            },
            Stage::Deliver => match outcome {
                Outcome::Done => (
                    Run { mail, stage: Stage::Finished { result: Ok(()) } },
                    Request::Finish { result: Ok(()) },
                    Ghost(idle),
                ),
                _ => {
                    let (run, request) = stop(mail, Error::Send);
                    (run, request, Ghost(idle))
                },
            },
            Stage::Finished { result } => {
                match result {
                    Ok(done) => (
                        Run { mail, stage: Stage::Finished { result: Ok(done) } },
                        Request::Finish { result: Ok(done) },
                        Ghost(idle),
                    ),
                    Err(e) => {
                        let (run, request) = stop(mail, e);
                        (run, request, Ghost(idle))
                    },
                }
            },
        }
    }
}

/// The exit status of a run that ended with `result`.
pub open spec fn exit_status_of(result: Result<(), Error>) -> u8 {
    match result {
        Ok(_) => 0,
        Err(e) => e.spec_exit_code(),
    }
}

/// The exit status of a run that ended with `result`: zero for success, the
/// temporary-failure status where the archive could not be written, the generic
/// failure status otherwise.
pub fn exit_status(result: &Result<(), Error>) -> (code: u8)
    ensures
        code == exit_status_of(*result),
        code == 0 <==> result is Ok,
{
    match result {
        Ok(_) => 0,
        Err(e) => e.exit_code(),
    }
}

/// A run that is over stays over: every further step asks to finish with the
/// same result, and so asks for no write, no agent and no delivery.
pub proof fn lemma_finished_is_final(
    pre: Run,
    outcome: Outcome,
    token: Seq<char>,
    post: Run,
    request: Request,
)
    requires
        pre.stage is Finished,
        advances(pre, outcome, token, post, request),
    ensures
        post.stage == pre.stage,
        request is Finish,
        request == (Request::Finish { result: pre.stage->Finished_result }),
{
}

/// Once the input is archived, an input that cannot be read as a message ends
/// the run with the error of reading it. The run is then over, so nothing is
/// archived or sent for a reply.
pub proof fn lemma_unreadable_input_ends_run(
    pre: Run,
    token: Seq<char>,
    post: Run,
    request: Request,
)
    requires
        pre.stage matches Stage::Inbound { archive } && archive.step == ArchiveStep::Rename
            && parse_of(archive.data@) is Err,
        advances(pre, Outcome::Done, token, post, request),
    ensures
        post.stage is Finished,
        request == (Request::Finish {
            result: Err(parse_of(pre.stage->Inbound_archive.data@)->Err_0),
        }),
        exit_status_of(request->Finish_result) == crate::error::EXIT_FAILURE,
{
    let e = parse_of(pre.stage->Inbound_archive.data@)->Err_0;
    assert(stopped(post, request) == Some(e));
    assert(e == Error::MailParse || e == Error::MissingSender || e == Error::MissingMessageId);
}

/// Nothing is read from the input before it is archived: a step turns to the
/// thread store only from the completed rename of the input's archive file,
/// or from an earlier question to the store.
pub proof fn lemma_archived_before_read(
    pre: Run,
    outcome: Outcome,
    token: Seq<char>,
    post: Run,
    request: Request,
)
    requires
        advances(pre, outcome, token, post, request),
        post.stage is Lookup || post.stage is RecordInbound,
    ensures
        outcome is Done && (pre.stage matches Stage::Inbound { archive } && archive.step
            == ArchiveStep::Rename) || pre.stage is Lookup,
{
}

/// The reply is archived before it is delivered: a step asks for delivery only
/// from the completed rename of the reply's archive file, and hands over the
/// bytes that were archived.
pub proof fn lemma_archived_before_delivery(
    pre: Run,
    outcome: Outcome,
    token: Seq<char>,
    post: Run,
    request: Request,
)
    requires
        advances(pre, outcome, token, post, request),
        request is Deliver,
    ensures
        outcome is Done,
        pre.stage matches Stage::Outbound { message, archive } && archive.step
            == ArchiveStep::Rename && request->Deliver_message@ == archive.data@
            && request->Deliver_to@ == message.sender@,
{
}

/// A failure while archiving, of the input or of the reply, ends the run with
/// the temporary-failure status.
pub proof fn lemma_archive_failure_is_retryable(
    pre: Run,
    outcome: Outcome,
    token: Seq<char>,
    post: Run,
    request: Request,
)
    requires
        advances(pre, outcome, token, post, request),
        (pre.stage is Inbound || pre.stage is Outbound) && !(outcome is Done) || (pre.stage
            is InboundClock || pre.stage is ReplyClock) && !(outcome is Time),
    ensures
        post.stage is Finished,
        request matches Request::Finish { result: Err(e) } && e is FilesystemIo,
        exit_status_of(request->Finish_result) == crate::error::EXIT_TEMPFAIL,
{
}

/// A failure anywhere but in archiving ends the run with the generic failure
/// status.
pub proof fn lemma_other_failure_is_generic(
    pre: Run,
    outcome: Outcome,
    token: Seq<char>,
    post: Run,
    request: Request,
)
    requires
        advances(pre, outcome, token, post, request),
        !(pre.stage is Finished),
        !(pre.stage is Inbound && !(outcome is Done)),
        !(pre.stage is Outbound && !(outcome is Done)),
        !(pre.stage is InboundClock),
        !(pre.stage is ReplyClock),
        request matches Request::Finish { result: Err(_) },
    ensures
        exit_status_of(request->Finish_result) == crate::error::EXIT_FAILURE,
{
    assert(stopped(post, request) == Some(request->Finish_result->Err_0));
}

/// What the thread store `store` answers to a question for `key`: the session
/// it holds under the key, or that it holds none; a store that holds nothing at
/// all may answer that it has no table.
pub open spec fn store_answers(store: Store, key: Seq<char>, outcome: Outcome) -> bool {
    if store.contains_key(key) {
        outcome matches Outcome::Found(session) && session@ == store[key]
    } else {
        outcome is Missing || (outcome is NoTable && store == Store::empty())
    }
}

/// Whether a run is asking the store `store` for an ancestor of its message,
/// having found none of the ancestors it asked for before.
pub open spec fn searching(run: Run, store: Store) -> bool {
    run.stage matches Stage::Lookup { message, keys, cursor } && cursor < keys.len() && views(
        keys@,
    ) == lookup_order(message@) && stored_session(store, lookup_order(message@), 0)
        == stored_session(store, lookup_order(message@), cursor as int)
}

/// Whether a run records its message under the session that the message
/// resolves to in the store `store`, with `token` the session minted for it.
pub open spec fn records_resolved(
    pre: Run,
    store: Store,
    token: Seq<char>,
    post: Run,
    request: Request,
) -> bool {
    pre.stage matches Stage::Lookup { message, keys, cursor } && records_inbound(
        pre.mail,
        message@,
        resolved_session(store, message@, token),
        post,
        request,
    )
}

/// A search that the store answers stays on course: the next step either asks
/// for the next ancestor, having still found none, or records the message under
/// the session it resolves to in that store.
pub proof fn lemma_search_follows_store(
    pre: Run,
    store: Store,
    outcome: Outcome,
    token: Seq<char>,
    post: Run,
    request: Request,
)
    requires
        searching(pre, store),
        store_answers(
            store,
            lookup_order(pre.stage->Lookup_message@)[pre.stage->Lookup_cursor as int],
            outcome,
        ),
        advances(pre, outcome, token, post, request),
    ensures
        searching(post, store) && post.stage->Lookup_message@ == pre.stage->Lookup_message@
            && post.stage->Lookup_cursor == pre.stage->Lookup_cursor + 1 || records_resolved(
            pre,
            store,
            token,
            post,
            request,
        ),
{
    let message = pre.stage->Lookup_message;
    let keys = lookup_order(message@);
    let cursor = pre.stage->Lookup_cursor as int;
    if !store.contains_key(keys[cursor]) {
        if cursor + 1 >= keys.len() {
            assert(stored_session(store, keys, cursor + 1) is None);
        }
        if outcome is NoTable {
            crate::thread::lemma_stored_session_none(store, keys, 0);
        }
    }
}

/// The search begins on course: once the input is archived and read as a
/// message, the run either asks the store for the message's nearest ancestor
/// or, where the message names none, records it under the minted session,
/// which is the session it resolves to in any store.
pub proof fn lemma_search_begins(
    pre: Run,
    store: Store,
    token: Seq<char>,
    post: Run,
    request: Request,
)
    requires
        pre.stage matches Stage::Inbound { archive } && archive.step == ArchiveStep::Rename
            && parse_of(archive.data@) is Ok,
        advances(pre, Outcome::Done, token, post, request),
    ensures
        ({
            let message = parse_of(pre.stage->Inbound_archive.data@)->Ok_0;
            searching(post, store) && post.stage->Lookup_message@ == message
                && post.stage->Lookup_cursor == 0 || records_inbound(
                pre.mail,
                message,
                resolved_session(store, message, token),
                post,
                request,
            )
        }),
{
}

/// The files of a filesystem: the paths that hold a file, with what each holds.
pub type Files = Map<Seq<char>, Seq<u8>>;

/// The files once `request` is carried out with success. A write puts the bytes
/// at the path; a rename of a file that is there moves it; no other request
/// changes a file.
pub open spec fn files_after(files: Files, request: Request) -> Files {
    match request {
        Request::WriteFile { path, data } => files.insert(path@, data@),
        Request::Rename { from, to } => if files.contains_key(from@) {
            files.remove(from@).insert(to@, files[from@])
        } else {
            files
        },
        _ => files,
    }
}

/// An archive write is all or nothing for a reader of `new`. Its write touches
/// only the file under `tmp`, so until the rename `new` is as it was. After the
/// rename the file stands under `new` with exactly the bytes of the archive,
/// nothing is left at its place under `tmp`, and every other file is as it was
/// before the archive write began.
pub proof fn lemma_archive_write_is_atomic(
    files: Files,
    archive: Archive,
    maildir: Seq<char>,
    timestamp: nat,
    write: Request,
    rename: Request,
)
    requires
        archive.paths.describes(maildir, timestamp),
        (Archive { step: ArchiveStep::Write, ..archive }).asks(write),
        (Archive { step: ArchiveStep::Rename, ..archive }).asks(rename),
    ensures
        ({
            let written = files_after(files, write);
            let renamed = files_after(written, rename);
            let tmp_file = archive.paths.tmp_file@;
            let new_file = archive.paths.new_file@;
            &&& tmp_file != new_file
            &&& forall|path: Seq<char>|
                path != tmp_file ==> (written.contains_key(path) <==> files.contains_key(path))
            &&& forall|path: Seq<char>|
                path != tmp_file && files.contains_key(path) ==> written[path] == files[path]
            &&& renamed.contains_key(new_file) && renamed[new_file] == archive.data@
            &&& !renamed.contains_key(tmp_file)
            &&& forall|path: Seq<char>|
                path != tmp_file && path != new_file ==> (renamed.contains_key(path)
                    <==> files.contains_key(path))
            &&& forall|path: Seq<char>|
                path != tmp_file && path != new_file && files.contains_key(path)
                    ==> renamed[path] == files[path]
        }),
{
    crate::mail::lemma_archive_paths_differ(archive.paths, maildir, timestamp);
}

/// An archived input is not undone by the archiving of the reply: where the
/// clock gave the two archive writes different readings, the write and the
/// rename of the second leave the file of the first under `new` as it was.
pub proof fn lemma_archived_input_survives(
    files: Files,
    inbound: MaildirPaths,
    reply: Archive,
    maildir: Seq<char>,
    earlier: nat,
    later: nat,
    write: Request,
    rename: Request,
)
    requires
        inbound.describes(maildir, earlier),
        reply.paths.describes(maildir, later),
        earlier != later,
        files.contains_key(inbound.new_file@),
        (Archive { step: ArchiveStep::Write, ..reply }).asks(write),
        (Archive { step: ArchiveStep::Rename, ..reply }).asks(rename),
    ensures
        files_after(files_after(files, write), rename).contains_key(inbound.new_file@),
        files_after(files_after(files, write), rename)[inbound.new_file@] == files[
            inbound.new_file@],
{
    crate::mail::lemma_archive_files_differ(inbound, reply.paths, maildir, earlier, later);
    crate::mail::lemma_archive_paths_differ(reply.paths, maildir, later);
}

/// Whether an input is a message that a run can answer: it reads as a message,
/// and its sender is an address that mail can be sent to.
pub open spec fn answerable(raw: Seq<u8>) -> bool {
    parse_of(raw) matches Ok(message) && is_mail_address(message.sender)
}

/// Whether `reply` answers `message`: it goes from the administrative address
/// to the message's sender, under the message's reply subject, in reply to the
/// message, with the message's references and then its own identifier, and
/// carries a text with its rendering.
pub open spec fn answers_message(reply: Reply, message: MessageView) -> bool {
    reply.describes(message, reply.message_id@, reply.text@, rendered_html(reply.text@))
}

/// Whether `wire` is what the composer wrote for a reply that answers `message`.
pub open spec fn is_reply_to(message: MessageView, wire: Seq<u8>) -> bool {
    exists|reply: Reply| #[trigger] composed(reply, wire) && answers_message(reply, message)
}

/// Whether `outcome` is the success of what a run in the state `pre` has asked
/// for: the outside work was done, the input read is `raw`, and the agent ended
/// well with text.
pub open spec fn fulfils(pre: Run, outcome: Outcome, raw: Seq<u8>) -> bool {
    match pre.stage {
        Stage::Start => true,
        Stage::Finished { result } => true,
        Stage::Input => outcome matches Outcome::Input(read) && read@ == raw,
        Stage::InboundClock { raw } => outcome is Time,
        Stage::ReplyClock { message, wire } => outcome is Time,
        Stage::Lookup { message, keys, cursor } => outcome is Found || outcome is Missing
            || outcome is NoTable,
        Stage::Agent { message, session } => outcome matches Outcome::Exited {
            success,
            status,
            stdout,
            stderr,
        } && success && valid_utf8(stdout@),
        _ => outcome is Done,
    }
}

/// Whether a run on the input `raw` has met no failure so far: it archives the
/// input as it was read, works on the message that the input reads as, and
/// archives a reply that answers that message.
pub open spec fn on_course(run: Run, raw: Seq<u8>) -> bool {
    let read = parse_of(raw)->Ok_0;
    match run.stage {
        Stage::Start => true,
        Stage::Input => true,
        Stage::InboundClock { raw: held } => held@ == raw,
        Stage::Inbound { archive } => archive.data@ == raw,
        Stage::Lookup { message, keys, cursor } => message@ == read && cursor < keys.len(),
        Stage::RecordInbound { message, session } => message@ == read,
        Stage::SessionDir { message, session, call } => message@ == read,
        Stage::Agent { message, session } => message@ == read,
        Stage::RecordReply { message, reply } => message@ == read && answers_message(reply, read),
        Stage::ReplyClock { message, wire } => message@ == read && is_reply_to(read, wire@),
        Stage::Outbound { message, archive } => message@ == read && is_reply_to(
            read,
            archive.data@,
        ),
        Stage::Deliver => true,
        Stage::Finished { result } => result is Ok,
    }
}

/// The place of an archive step among the five.
pub open spec fn step_number(step: ArchiveStep) -> nat {
    match step {
        ArchiveStep::Cur => 0,
        ArchiveStep::New => 1,
        ArchiveStep::Tmp => 2,
        ArchiveStep::Write => 3,
        ArchiveStep::Rename => 4,
    }
}

/// How far a run has come: the place of its stage in the order of a run, and
/// within the stage the archive step or the ancestor asked for.
pub open spec fn position_of(run: Run) -> (nat, nat) {
    match run.stage {
        Stage::Start => (0, 0),
        Stage::Input => (1, 0),
        Stage::InboundClock { raw } => (2, 0),
        Stage::Inbound { archive } => (3, step_number(archive.step)),
        Stage::Lookup { message, keys, cursor } => (4, cursor as nat),
        Stage::RecordInbound { message, session } => (5, 0),
        Stage::SessionDir { message, session, call } => (6, 0),
        Stage::Agent { message, session } => (7, 0),
        Stage::RecordReply { message, reply } => (8, 0),
        Stage::ReplyClock { message, wire } => (9, 0),
        Stage::Outbound { message, archive } => (10, step_number(archive.step)),
        Stage::Deliver => (11, 0),
        Stage::Finished { result } => (12, 0),
    }
}

/// Whether the run `later` is further on than the run `earlier`.
pub open spec fn is_ahead(later: Run, earlier: Run) -> bool {
    position_of(later).0 > position_of(earlier).0 || (position_of(later).0 == position_of(
        earlier,
    ).0 && position_of(later).1 > position_of(earlier).1)
}

/// Whether a request of a run on the input `raw` is in order: a write from the
/// archiving of the input carries the input, byte for byte; a write from the
/// archiving of the reply carries a reply that answers the message; a delivery
/// goes to the message's sender with such a reply, the one that was archived;
/// and a request to finish reports success.
pub open spec fn in_order(pre: Run, request: Request, raw: Seq<u8>) -> bool {
    let read = parse_of(raw)->Ok_0;
    match request {
        Request::WriteFile { path, data } => match pre.stage {
            Stage::Inbound { archive } => data@ == raw,
            Stage::Outbound { message, archive } => is_reply_to(read, data@),
            _ => false,
        },
        Request::Deliver { program, from, to, message } => to@ == read.sender && is_reply_to(
            read,
            message@,
        ) && (pre.stage matches Stage::Outbound { message: m, archive } && message@
            == archive.data@),
        Request::Finish { result } => result is Ok && (pre.stage is Deliver || pre.stage
            is Finished),
        _ => true,
    }
}

/// One step of a run: the state it began in, the outcome and the identifier it
/// was handed, the state it went to and the request it made.
pub ghost struct Step {
    pub pre: Run,
    pub outcome: Outcome,
    pub token: Seq<char>,
    pub post: Run,
    pub request: Request,
}

/// Whether `steps` are the steps of one run from its beginning, one after the
/// other.
pub open spec fn is_run(steps: Seq<Step>) -> bool {
    &&& steps.len() > 0
    &&& steps[0].pre.stage is Start
    &&& forall|i: int|
        0 <= i < steps.len() ==> advances(
            (#[trigger] steps[i]).pre,
            steps[i].outcome,
            steps[i].token,
            steps[i].post,
            steps[i].request,
        )
    &&& forall|i: int| 0 < i < steps.len() ==> (#[trigger] steps[i]).pre == steps[i - 1].post
}

/// Whether every request of the run `steps` was fulfilled, with `raw` the
/// input that was read.
pub open spec fn all_fulfilled(steps: Seq<Step>, raw: Seq<u8>) -> bool {
    forall|i: int|
        0 <= i < steps.len() ==> fulfils((#[trigger] steps[i]).pre, steps[i].outcome, raw)
}

/// A run on course whose request is fulfilled stays on course and moves on:
/// the step's request is in order, the run is over exactly when the step asks
/// to finish, and the step leaves the run further on than it was unless the run
/// was over.
pub proof fn lemma_fulfilled_step_stays_on_course(
    pre: Run,
    outcome: Outcome,
    token: Seq<char>,
    post: Run,
    request: Request,
    raw: Seq<u8>,
)
    requires
        answerable(raw),
        on_course(pre, raw),
        fulfils(pre, outcome, raw),
        advances(pre, outcome, token, post, request),
    ensures
        on_course(post, raw),
        in_order(pre, request, raw),
        request is Finish <==> post.stage is Finished,
        is_ahead(post, pre) || pre.stage is Finished,
{
    let read = parse_of(raw)->Ok_0;
    if pre.stage is Inbound && pre.stage->Inbound_archive.step == ArchiveStep::Rename {
        assert(resolves(pre.mail, read, lookup_order(read), 0, token, post, request));
    }
    if pre.stage is RecordReply {
        let reply = pre.stage->RecordReply_reply;
        assert(composed(reply, post.stage->ReplyClock_wire@) && answers_message(reply, read));
    }
}

/// In a run whose every request is fulfilled, every step begins and ends on
/// course.
pub proof fn lemma_fulfilled_run_stays_on_course(steps: Seq<Step>, raw: Seq<u8>, i: int)
    requires
        answerable(raw),
        is_run(steps),
        all_fulfilled(steps, raw),
        0 <= i < steps.len(),
    ensures
        on_course(steps[i].pre, raw),
        on_course(steps[i].post, raw),
    decreases i,
{
    if i > 0 {
        lemma_fulfilled_run_stays_on_course(steps, raw, i - 1);
    }
    lemma_fulfilled_step_stays_on_course(
        steps[i].pre,
        steps[i].outcome,
        steps[i].token,
        steps[i].post,
        steps[i].request,
        raw,
    );
}

/// In a run whose every request is fulfilled, a later step begins further on
/// than an earlier one, as long as the run is not over: no state comes twice.
pub proof fn lemma_fulfilled_run_moves_on(steps: Seq<Step>, raw: Seq<u8>, i: int, j: int)
    requires
        answerable(raw),
        is_run(steps),
        all_fulfilled(steps, raw),
        0 <= i < j < steps.len(),
        !(steps[j - 1].pre.stage is Finished),
    ensures
        is_ahead(steps[j].pre, steps[i].pre),
        !(steps[i].pre.stage is Finished),
    decreases j - i,
{
    lemma_fulfilled_run_stays_on_course(steps, raw, j - 1);
    lemma_fulfilled_step_stays_on_course(
        steps[j - 1].pre,
        steps[j - 1].outcome,
        steps[j - 1].token,
        steps[j - 1].post,
        steps[j - 1].request,
        raw,
    );
    if i < j - 1 {
        lemma_fulfilled_run_stays_on_course(steps, raw, j - 2);
        lemma_fulfilled_step_stays_on_course(
            steps[j - 2].pre,
            steps[j - 2].outcome,
            steps[j - 2].token,
            steps[j - 2].post,
            steps[j - 2].request,
            raw,
        );
        lemma_fulfilled_run_moves_on(steps, raw, i, j - 1);
    }
}

/// A step that leaves a run waiting for delivery has asked for delivery.
pub proof fn lemma_delivery_was_asked(
    pre: Run,
    outcome: Outcome,
    token: Seq<char>,
    post: Run,
    request: Request,
)
    requires
        advances(pre, outcome, token, post, request),
        post.stage is Deliver,
    ensures
        request is Deliver,
{
}

/// A whole run, from its beginning, on an answerable input and with every
/// request fulfilled, goes well. Every request is in order: what is archived
/// first is the input, what is archived next and then delivered to the sender
/// is a reply that answers the message. No step asks to finish with an error,
/// and a step that asks to finish reports success, which is exit status zero,
/// after an earlier step has asked for delivery.
pub proof fn lemma_fulfilled_run_succeeds(steps: Seq<Step>, raw: Seq<u8>, i: int)
    requires
        answerable(raw),
        is_run(steps),
        all_fulfilled(steps, raw),
        0 <= i < steps.len(),
    ensures
        in_order(steps[i].pre, steps[i].request, raw),
        !(steps[i].request matches Request::Finish { result: Err(_) }),
        steps[i].request is Finish ==> {
            &&& exit_status_of(steps[i].request->Finish_result) == 0
            &&& exists|k: int| 0 <= k < i && (#[trigger] steps[k]).request is Deliver
        },
    decreases i,
{
    lemma_fulfilled_run_stays_on_course(steps, raw, i);
    lemma_fulfilled_step_stays_on_course(
        steps[i].pre,
        steps[i].outcome,
        steps[i].token,
        steps[i].post,
        steps[i].request,
        raw,
    );
    if steps[i].request is Finish {
        assert(i > 0);
        lemma_fulfilled_run_stays_on_course(steps, raw, i - 1);
        if steps[i].pre.stage is Deliver {
            lemma_delivery_was_asked(
                steps[i - 1].pre,
                steps[i - 1].outcome,
                steps[i - 1].token,
                steps[i - 1].post,
                steps[i - 1].request,
            );
            assert(steps[i - 1].request is Deliver);
        } else {
            lemma_fulfilled_step_stays_on_course(
                steps[i - 1].pre,
                steps[i - 1].outcome,
                steps[i - 1].token,
                steps[i - 1].post,
                steps[i - 1].request,
                raw,
            );
            lemma_fulfilled_run_succeeds(steps, raw, i - 1);
            let k = choose|k: int| 0 <= k < i - 1 && (#[trigger] steps[k]).request is Deliver;
            assert(0 <= k < i && steps[k].request is Deliver);
        }
    }
}

/// The files once `data` is archived into `maildir` at `timestamp`: the file
/// stands under `new`, and nothing is at its place under `tmp`.
pub open spec fn archived(files: Files, maildir: Seq<char>, timestamp: nat, data: Seq<u8>) -> Files {
    files.remove(tmp_file_of(maildir, timestamp)).insert(new_file_of(maildir, timestamp), data)
}

/// The files while `data` is being archived into `maildir` at `timestamp`, with
/// the request of `step` carried out.
pub open spec fn archiving(
    files: Files,
    maildir: Seq<char>,
    timestamp: nat,
    data: Seq<u8>,
    step: ArchiveStep,
) -> Files {
    match step {
        ArchiveStep::Write => files.insert(tmp_file_of(maildir, timestamp), data),
        ArchiveStep::Rename => archived(files, maildir, timestamp, data),
        _ => files,
    }
}

/// The files once the requests of the first `count` steps are carried out, from
/// the files `before`.
pub open spec fn files_at(steps: Seq<Step>, before: Files, count: int) -> Files
    decreases count,
{
    if count <= 0 || count > steps.len() {
        before
    } else {
        files_after(files_at(steps, before, count - 1), steps[count - 1].request)
    }
}

/// What a run reads and writes besides its input: the two readings of the
/// clock and the bytes of the composed reply.
pub ghost struct Readings {
    pub first: nat,
    pub second: nat,
    pub wire: Seq<u8>,
}

/// Whether a step read from the clock and the composer what `readings` holds.
pub open spec fn reads(step: Step, readings: Readings) -> bool {
    &&& step.pre.stage is InboundClock && step.outcome is Time ==> step.outcome->Time_0
        == readings.first
    &&& step.pre.stage is ReplyClock && step.outcome is Time ==> step.outcome->Time_0
        == readings.second
    &&& step.post.stage is ReplyClock ==> step.post.stage->ReplyClock_wire@ == readings.wire
}

/// Whether every step of a run read what `readings` holds.
pub open spec fn all_read(steps: Seq<Step>, readings: Readings) -> bool {
    forall|i: int| 0 <= i < steps.len() ==> reads(#[trigger] steps[i], readings)
}

/// Whether `files` are what a run has made of the files `before` by the time
/// it is in the state `run`: nothing is changed until the input is written
/// under `tmp`; from its rename on the input stands archived; and the reply is
/// archived beside it in the same way.
pub open spec fn files_on_course(
    run: Run,
    raw: Seq<u8>,
    readings: Readings,
    before: Files,
    files: Files,
) -> bool {
    let dir = run.mail.dir@;
    let inbound = archived(before, dir, readings.first, raw);
    match run.stage {
        Stage::Start => files == before,
        Stage::Input => files == before,
        Stage::InboundClock { raw } => files == before,
        Stage::Inbound { archive } => archive.paths.describes(dir, readings.first) && files
            == archiving(before, dir, readings.first, raw, archive.step),
        Stage::ReplyClock { message, wire } => wire@ == readings.wire && files == inbound,
        Stage::Outbound { message, archive } => archive.paths.describes(dir, readings.second)
            && archive.data@ == readings.wire && files == archiving(
            inbound,
            dir,
            readings.second,
            readings.wire,
            archive.step,
        ),
        Stage::Deliver => files == archived(inbound, dir, readings.second, readings.wire),
        Stage::Finished { result } => files == archived(
            inbound,
            dir,
            readings.second,
            readings.wire,
        ),
        _ => files == inbound,
    }
}

/// A fulfilled step of a run on course changes the files as the course says.
pub proof fn lemma_fulfilled_step_keeps_files(
    step: Step,
    raw: Seq<u8>,
    readings: Readings,
    before: Files,
    files: Files,
)
    requires
        answerable(raw),
        on_course(step.pre, raw),
        fulfils(step.pre, step.outcome, raw),
        advances(step.pre, step.outcome, step.token, step.post, step.request),
        reads(step, readings),
        files_on_course(step.pre, raw, readings, before, files),
    ensures
        files_on_course(step.post, raw, readings, before, files_after(files, step.request)),
{
    let dir = step.pre.mail.dir@;
    let read = parse_of(raw)->Ok_0;
    let after = files_after(files, step.request);
    let inbound = archived(before, dir, readings.first, raw);
    if step.pre.stage is Inbound {
        let archive = step.pre.stage->Inbound_archive;
        if archive.step == ArchiveStep::Rename {
            assert(resolves(
                step.pre.mail,
                read,
                lookup_order(read),
                0,
                step.token,
                step.post,
                step.request,
            ));
        }
        if archive.step == ArchiveStep::Write {
            assert(after =~= inbound);
        }
    }
    if step.pre.stage is Outbound && step.pre.stage->Outbound_archive.step == ArchiveStep::Write {
        assert(after =~= archived(inbound, dir, readings.second, readings.wire));
    }
}

/// In a run whose every request is fulfilled, the files are on course at every
/// step.
pub proof fn lemma_fulfilled_run_keeps_files(
    steps: Seq<Step>,
    raw: Seq<u8>,
    readings: Readings,
    before: Files,
    i: int,
)
    requires
        answerable(raw),
        is_run(steps),
        all_fulfilled(steps, raw),
        all_read(steps, readings),
        0 <= i < steps.len(),
    ensures
        steps[i].post.mail == steps[0].pre.mail,
        files_on_course(steps[i].pre, raw, readings, before, files_at(steps, before, i)),
        files_on_course(steps[i].post, raw, readings, before, files_at(steps, before, i + 1)),
    decreases i,
{
    if i > 0 {
        lemma_fulfilled_run_keeps_files(steps, raw, readings, before, i - 1);
    }
    lemma_fulfilled_run_stays_on_course(steps, raw, i);
    lemma_fulfilled_step_keeps_files(steps[i], raw, readings, before, files_at(steps, before, i));
}

/// A whole run, from its beginning, on an answerable input, with every request
/// fulfilled and two different readings of the clock, leaves exactly two new
/// files when it asks to finish: under `new`, the input byte for byte and the
/// reply that was composed, which answers the message. Nothing of the two is
/// left under `tmp`, and every other file is as it was before the run.
#[verifier::rlimit(40)]
pub proof fn lemma_fulfilled_run_archives_both(
    steps: Seq<Step>,
    raw: Seq<u8>,
    readings: Readings,
    before: Files,
    i: int,
)
    requires
        answerable(raw),
        is_run(steps),
        all_fulfilled(steps, raw),
        all_read(steps, readings),
        readings.first != readings.second,
        0 <= i < steps.len(),
        steps[i].request is Finish,
    ensures
        ({
            let dir = steps[0].pre.mail.dir@;
            let files = files_at(steps, before, i + 1);
            let input = new_file_of(dir, readings.first);
            let reply = new_file_of(dir, readings.second);
            let input_tmp = tmp_file_of(dir, readings.first);
            let reply_tmp = tmp_file_of(dir, readings.second);
            &&& input != reply
            &&& files.contains_key(input) && files[input] == raw
            &&& files.contains_key(reply) && files[reply] == readings.wire
            &&& is_reply_to(parse_of(raw)->Ok_0, readings.wire)
            &&& !files.contains_key(input_tmp) && !files.contains_key(reply_tmp)
            &&& forall|path: Seq<char>|
                path != input && path != reply && path != input_tmp && path != reply_tmp ==> (
                files.contains_key(path) <==> before.contains_key(path))
            &&& forall|path: Seq<char>|
                path != input && path != reply && path != input_tmp && path != reply_tmp
                    && before.contains_key(path) ==> files[path] == before[path]
        }),
{
    let dir = steps[0].pre.mail.dir@;
    lemma_fulfilled_run_keeps_files(steps, raw, readings, before, i);
    lemma_fulfilled_run_stays_on_course(steps, raw, i);
    lemma_fulfilled_step_stays_on_course(
        steps[i].pre,
        steps[i].outcome,
        steps[i].token,
        steps[i].post,
        steps[i].request,
        raw,
    );
    lemma_archive_names_differ(dir, readings.first, readings.second);
    lemma_tmp_and_new_differ(dir, readings.first, readings.first);
    lemma_tmp_and_new_differ(dir, readings.first, readings.second);
    lemma_tmp_and_new_differ(dir, readings.second, readings.first);
    lemma_tmp_and_new_differ(dir, readings.second, readings.second);
    lemma_reply_was_composed(steps, raw, readings, i);
}

/// In a run whose every request is fulfilled, once the reply is delivered the
/// bytes that were composed are a reply that answers the message.
pub proof fn lemma_reply_was_composed(steps: Seq<Step>, raw: Seq<u8>, readings: Readings, i: int)
    requires
        answerable(raw),
        is_run(steps),
        all_fulfilled(steps, raw),
        all_read(steps, readings),
        0 <= i < steps.len(),
        position_of(steps[i].post).0 >= 9,
    ensures
        is_reply_to(parse_of(raw)->Ok_0, readings.wire),
    decreases i,
{
    lemma_fulfilled_run_stays_on_course(steps, raw, i);
    if !(steps[i].post.stage is ReplyClock) {
        assert(i > 0) by {
            if i == 0 {
                assert(steps[0].post.stage is Input);
            }
        }
        lemma_fulfilled_run_stays_on_course(steps, raw, i - 1);
        lemma_fulfilled_step_stays_on_course(
            steps[i].pre,
            steps[i].outcome,
            steps[i].token,
            steps[i].post,
            steps[i].request,
            raw,
        );
        assert(position_of(steps[i].pre).0 >= 9);
        lemma_reply_was_composed(steps, raw, readings, i - 1);
    }
}

} // verus!
