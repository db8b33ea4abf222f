use lab::error::{Error, EXIT_FAILURE, EXIT_TEMPFAIL};
use lab::mail::{decimal_text, enclose, join, strip_brackets, AgentCall, Mail};
use lab::message::Message;
use lab::run::{exit_status, Outcome, Request, Run, Stage, StoreFault};
use lab::subcommand::Subcommand;
use lab::thread::lookup_keys;
use std::collections::{BTreeMap, BTreeSet};

struct World {
    input: Option<Vec<u8>>,
    clock: u128,
    unwritable: bool,
    dirs: BTreeSet<String>,
    files: BTreeMap<String, Vec<u8>>,
    store: BTreeMap<String, String>,
    store_fault: Option<StoreFault>,
    agent: Option<(bool, Vec<u8>)>,
    agent_calls: Vec<AgentCall>,
    sendmail_ok: bool,
    delivered: Vec<(String, String, String, Vec<u8>)>,
    requests: Vec<String>,
}

fn world(input: &[u8], agent_output: &[u8]) -> World {
    World {
        input: Some(input.to_vec()),
        clock: 1_700_000_000_000_000_000,
        unwritable: false,
        dirs: BTreeSet::new(),
        files: BTreeMap::new(),
        store: BTreeMap::new(),
        store_fault: None,
        agent: Some((true, agent_output.to_vec())),
        agent_calls: Vec::new(),
        sendmail_ok: true,
        delivered: Vec::new(),
        requests: Vec::new(),
    }
}

fn mail(dir: &str) -> Mail {
    Mail {
        dir: dir.to_string(),
        sendmail: "/bin/sendmail".to_string(),
        db: format!("{dir}/db.redb"),
        claude: "/bin/agent".to_string(),
        session_dir: format!("{dir}/sessions"),
    }
}

fn perform(world: &mut World, request: Request) -> Outcome {
    match request {
        Request::ReadInput => {
            world.requests.push("read".to_string());
            match world.input.take() {
                Some(raw) => Outcome::Input(raw),
                None => Outcome::Failed,
            }
        }
        Request::ReadClock => {
            world.requests.push("clock".to_string());
            world.clock += 1;
            Outcome::Time(world.clock)
        }
        Request::CreateDir { path } => {
            world.requests.push(format!("mkdir {path}"));
            if world.unwritable {
                Outcome::Failed
            } else {
                world.dirs.insert(path);
                Outcome::Done
            }
        }
        Request::WriteFile { path, data } => {
            world.requests.push(format!("write {path}"));
            world.files.insert(path, data);
            Outcome::Done
        }
        Request::Rename { from, to } => {
            world.requests.push(format!("rename {from} {to}"));
            match world.files.remove(&from) {
                Some(data) => {
                    world.files.insert(to, data);
                    Outcome::Done
                }
                None => Outcome::Failed,
            }
        }
        Request::Lookup { db: _, key } => {
            world.requests.push(format!("lookup {key}"));
            match (world.store_fault, world.store.get(&key)) {
                (Some(fault), _) => Outcome::StoreFailed(fault),
                (None, Some(session)) => Outcome::Found(session.clone()),
                (None, None) if world.store.is_empty() => Outcome::NoTable,
                (None, None) => Outcome::Missing,
            }
        }
        Request::Record { db: _, key, session } => {
            world.requests.push(format!("record {key}"));
            match world.store_fault {
                Some(fault) => Outcome::StoreFailed(fault),
                None => {
                    world.store.insert(key, session);
                    Outcome::Done
                }
            }
        }
        Request::RunAgent { call } => {
            world.requests.push("agent".to_string());
            world.agent_calls.push(call);
            match &world.agent {
                Some((success, stdout)) => Outcome::Exited {
                    success: *success,
                    status: "exit status: 1".to_string(),
                    stdout: stdout.clone(),
                    stderr: "oops".to_string(),
                },
                None => Outcome::Failed,
            }
        }
        Request::Deliver { program, from, to, message } => {
            world.requests.push("deliver".to_string());
            world.delivered.push((program, from, to, message));
            if world.sendmail_ok {
                Outcome::Done
            } else {
                Outcome::Failed
            }
        }
        Request::Finish { .. } => unreachable!(),
    }
}

fn drive(world: &mut World, mail: Mail) -> Result<(), Error> {
    let (mut run, mut request) = Subcommand::Mail(mail).run().step(Outcome::Done);
    loop {
        if let Request::Finish { result } = request {
            assert!(run.is_finished());
            return result;
        }
        let outcome = perform(world, request);
        (run, request) = run.step(outcome);
    }
}

fn files_in(world: &World, dir: &str) -> Vec<Vec<u8>> {
    world.files.iter().filter(|(path, _)| path.starts_with(dir)).map(|(_, data)| data.clone()).collect()
}

fn session_dirs(world: &World) -> Vec<String> {
    world.dirs.iter().filter(|path| path.starts_with("/mail/sessions/")).cloned().collect()
}

fn diagnostic(error: &Error) -> String {
    format!("error: {}\n", error.message())
}

const PLAIN: &[u8] =
    b"From: foo@bar.com\r\nMessage-ID: <foo@bar>\r\nContent-Type: text/plain\r\n\r\nbaz";

#[test]
fn mail_missing_sender() {
    let mut world =
        world(b"From: \r\nMessage-ID: <foo@bar>\r\nContent-Type: text/plain\r\n\r\nbaz", b"");
    let error = drive(&mut world, mail("/mail")).unwrap_err();
    assert_eq!(diagnostic(&error), "error: message has no sender\n");
    assert_eq!(error.exit_code(), 1);
    assert_eq!(files_in(&world, "/mail/new/").len(), 1);
    assert!(world.delivered.is_empty());
    assert!(world.agent_calls.is_empty());
    assert!(world.store.is_empty());
}

#[test]
fn mail_missing_message_id() {
    let mut world = world(b"From: foo@bar.com\r\nContent-Type: text/plain\r\n\r\nbaz", b"");
    let error = drive(&mut world, mail("/mail")).unwrap_err();
    assert_eq!(diagnostic(&error), "error: message has no Message-ID header\n");
    assert_eq!(error.exit_code(), 1);
    assert_eq!(files_in(&world, "/mail/new/").len(), 1);
}

#[test]
fn saves_incoming_and_reply() {
    let input = PLAIN;
    let mut world = world(input, b"bar\n");
    drive(&mut world, mail("/mail")).unwrap();

    let files = files_in(&world, "/mail/new/");
    assert_eq!(files.len(), 2);
    assert!(files_in(&world, "/mail/tmp/").is_empty());

    let first = files[0].clone();
    let second = files[1].clone();
    let (incoming, reply) = if first == input { (first, second) } else { (second, first) };

    assert_eq!(incoming, input);

    let reply_str = std::str::from_utf8(&reply).unwrap();
    assert!(reply_str.contains("From: \"Root\" <root@tulip.farm>"));
    assert!(reply_str.contains("To: <foo@bar.com>"));
    assert!(reply_str.contains("Subject: Re:"));
    assert!(reply_str.contains("In-Reply-To: <foo@bar>"));
    assert!(reply_str.contains("References: <foo@bar>"));
    assert!(reply_str.contains("bar"));

    assert_eq!(world.delivered.len(), 1);
    let (program, from, to, message) = world.delivered[0].clone();
    assert_eq!(program, "/bin/sendmail");
    assert_eq!(from, "root@tulip.farm");
    assert_eq!(to, "foo@bar.com");
    assert_eq!(message, reply);
}

#[test]
fn creates_maildir_subdirs() {
    let mut world = world(b"From: foo@bar.com\r\nMessage-ID: <foo@bar>\r\n\r\nbaz", b"bar\n");
    drive(&mut world, mail("/mail")).unwrap();
    assert!(world.dirs.contains("/mail/cur"));
    assert!(world.dirs.contains("/mail/new"));
    assert!(world.dirs.contains("/mail/tmp"));
}

#[test]
fn sendmail_failure() {
    let mut world = world(b"From: foo@bar.com\r\nMessage-ID: <foo@bar>\r\n\r\nbaz", b"bar\n");
    world.sendmail_ok = false;
    let error = drive(&mut world, mail("/mail")).unwrap_err();
    assert!(diagnostic(&error).starts_with("error: failed to send reply\n"));
    assert_eq!(exit_status(&Err(error)), 1);
    assert_eq!(files_in(&world, "/mail/new/").len(), 2);
    assert!(files_in(&world, "/mail/new/").contains(
        &b"From: foo@bar.com\r\nMessage-ID: <foo@bar>\r\n\r\nbaz".to_vec()
    ));
}

#[test]
fn sendmail_not_found() {
    let mut world = world(b"From: foo@bar.com\r\nMessage-ID: <foo@bar>\r\n\r\nbaz", b"bar\n");
    world.sendmail_ok = false;
    let mut config = mail("/mail");
    config.sendmail = "/nonexistent".to_string();
    let error = drive(&mut world, config).unwrap_err();
    assert_eq!(error, Error::Send);
    assert!(diagnostic(&error).starts_with("error: failed to send reply\n"));
    assert_eq!(world.delivered[0].0, "/nonexistent");
}

#[test]
fn unwritable_dir() {
    let mut world = world(b"From: foo@bar.com\r\nMessage-ID: <foo@bar>\r\n\r\nbaz", b"");
    world.unwritable = true;
    let error = drive(&mut world, mail("/proc/foo")).unwrap_err();
    assert!(diagnostic(&error).starts_with("error: I/O error at `/proc/foo/cur`\n"));
    assert_eq!(error.exit_code(), EXIT_TEMPFAIL);
    assert_eq!(error.exit_code(), 75);
    assert!(error.exit_code() != EXIT_FAILURE);
    assert!(world.files.is_empty());
}

#[test]
fn new_thread_creates_session() {
    let mut world = world(PLAIN, b"bar\n");
    drive(&mut world, mail("/mail")).unwrap();
    assert!(world.store.contains_key("<foo@bar>"));
    assert_eq!(session_dirs(&world).len(), 1);
    assert_eq!(world.store.len(), 2);
    let session = world.store["<foo@bar>"].clone();
    assert!(world.store.values().all(|s| *s == session));
    assert_eq!(session_dirs(&world)[0], format!("/mail/sessions/{session}"));
}

#[test]
fn existing_thread_reuses_session() {
    let mut world = world(PLAIN, b"bar\n");
    drive(&mut world, mail("/mail")).unwrap();

    world.input = Some(
        b"From: foo@bar.com\r\nMessage-ID: <baz@bar>\r\nReferences: <foo@bar>\r\nIn-Reply-To: <foo@bar>\r\nContent-Type: text/plain\r\n\r\nqux"
            .to_vec(),
    );
    drive(&mut world, mail("/mail")).unwrap();

    assert_eq!(session_dirs(&world).len(), 1);
    assert_eq!(world.store["<baz@bar>"], world.store["<foo@bar>"]);
    assert_eq!(world.agent_calls[1].input, "qux");
    assert_eq!(world.agent_calls[0].dir, world.agent_calls[1].dir);
}

#[test]
fn markdown_conversion() {
    let input = PLAIN;
    let mut world = world(input, b"# foo\n");
    drive(&mut world, mail("/mail")).unwrap();

    let files = files_in(&world, "/mail/new/");
    let reply = files.iter().find(|f| f.as_slice() != input).expect("reply not found");
    let reply_str = String::from_utf8(reply.clone()).unwrap();

    assert!(reply_str.contains("text/plain"), "missing text/plain part");
    assert!(reply_str.contains("text/html"), "missing text/html part");
    assert!(reply_str.contains("<h1>foo</h1>"), "missing rendered HTML");
}

#[test]
fn markdown_table() {
    let input = PLAIN;
    let mut world = world(input, b"| foo | bar |\n| --- | --- |\n| baz | qux |\n");
    drive(&mut world, mail("/mail")).unwrap();

    let files = files_in(&world, "/mail/new/");
    let reply = files.iter().find(|f| f.as_slice() != input).expect("reply not found");
    let reply_str = String::from_utf8(reply.clone()).unwrap();

    assert!(reply_str.contains("<table>"), "missing table HTML");
    assert!(reply_str.contains("<td>baz</td>"), "missing table cell");
}

#[test]
fn agent_failure() {
    let mut world = world(PLAIN, b"");
    world.agent = Some((false, Vec::new()));
    let error = drive(&mut world, mail("/mail")).unwrap_err();
    assert!(diagnostic(&error).starts_with("error: agent exited with "));
    assert_eq!(
        error,
        Error::AgentFailed { status: "exit status: 1".to_string(), stderr: "oops".to_string() }
    );
    assert_eq!(error.exit_code(), 1);
    assert_eq!(files_in(&world, "/mail/new/").len(), 1);
    assert!(world.delivered.is_empty());
}

#[test]
fn end_to_end_scenario() {
    let input = b"From: a@b.com\r\nMessage-ID: <1>\r\nContent-Type: text/plain\r\n\r\nhello";
    let mut world = world(input, b"world");
    let result = drive(&mut world, mail("/mail"));
    assert_eq!(exit_status(&result), 0);
    let files = files_in(&world, "/mail/new/");
    assert_eq!(files.len(), 2);
    assert!(files.contains(&input.to_vec()));
    let reply = files.iter().find(|f| f.as_slice() != input).unwrap();
    let reply_str = String::from_utf8(reply.clone()).unwrap();
    assert!(reply_str.contains("In-Reply-To: <1>\r\n"));
    assert!(reply_str.contains("References: <1> <"));
    assert!(reply_str.contains("Subject: Re:\r\n"));
    assert!(reply_str.contains("world"));
    assert_eq!(world.delivered.len(), 1);
    assert_eq!(world.agent_calls.len(), 1);
    assert_eq!(world.agent_calls[0].input, "hello");
}

#[test]
fn requests_come_in_order() {
    let mut world = world(PLAIN, b"bar\n");
    drive(&mut world, mail("/mail")).unwrap();
    let session = world.store["<foo@bar>"].clone();
    let reply_key = world.store.keys().find(|k| *k != "<foo@bar>").unwrap().clone();
    assert!(reply_key.starts_with('<') && reply_key.ends_with("@tulip.farm>"));
    let expected = vec![
        "read".to_string(),
        "clock".to_string(),
        "mkdir /mail/cur".to_string(),
        "mkdir /mail/new".to_string(),
        "mkdir /mail/tmp".to_string(),
        "write /mail/tmp/1700000000000000001.lab.tulip.farm".to_string(),
        "rename /mail/tmp/1700000000000000001.lab.tulip.farm /mail/new/1700000000000000001.lab.tulip.farm"
            .to_string(),
        "record <foo@bar>".to_string(),
        format!("mkdir /mail/sessions/{session}"),
        "agent".to_string(),
        format!("record {reply_key}"),
        "clock".to_string(),
        "mkdir /mail/cur".to_string(),
        "mkdir /mail/new".to_string(),
        "mkdir /mail/tmp".to_string(),
        "write /mail/tmp/1700000000000000002.lab.tulip.farm".to_string(),
        "rename /mail/tmp/1700000000000000002.lab.tulip.farm /mail/new/1700000000000000002.lab.tulip.farm"
            .to_string(),
        "deliver".to_string(),
    ];
    assert_eq!(world.requests, expected);
}

#[test]
fn agent_is_called_for_the_session() {
    let mut world = world(PLAIN, b"bar\n");
    drive(&mut world, mail("/mail")).unwrap();
    let session = world.store["<foo@bar>"].clone();
    let call = world.agent_calls[0].clone();
    assert_eq!(call.program, "/bin/agent");
    assert_eq!(call.dir, format!("/mail/sessions/{session}"));
    assert_eq!(
        call.args,
        vec![
            "-p".to_string(),
            "--session-id".to_string(),
            session.clone(),
            "--append-system-prompt".to_string(),
            format!("Your session ID is {session}."),
        ]
    );
    assert_eq!(call.input, "baz");
}

#[test]
fn known_ancestor_gives_its_session() {
    let mut world = world(
        b"From: a@b.com\r\nMessage-ID: <c>\r\nReferences: <x> <a>\r\n\r\nhi",
        b"ok",
    );
    world.store.insert("<a>".to_string(), "S".to_string());
    drive(&mut world, mail("/mail")).unwrap();
    assert_eq!(world.store["<c>"], "S");
    assert_eq!(world.agent_calls[0].dir, "/mail/sessions/S");
    assert!(world.requests.contains(&"lookup <a>".to_string()));
    assert!(!world.requests.contains(&"lookup <x>".to_string()));
    assert!(world.store.values().all(|s| s == "S"));
}

#[test]
fn older_ancestor_is_found_when_newer_is_unknown() {
    let mut world = world(
        b"From: a@b.com\r\nMessage-ID: <c>\r\nReferences: <x> <a>\r\n\r\nhi",
        b"ok",
    );
    world.store.insert("<x>".to_string(), "T".to_string());
    drive(&mut world, mail("/mail")).unwrap();
    assert_eq!(world.store["<c>"], "T");
}

#[test]
fn in_reply_to_is_the_fallback() {
    let mut world = world(
        b"From: a@b.com\r\nMessage-ID: <c>\r\nIn-Reply-To: <p>\r\nReferences: <x>\r\n\r\nhi",
        b"ok",
    );
    world.store.insert("<p>".to_string(), "P".to_string());
    drive(&mut world, mail("/mail")).unwrap();
    assert_eq!(world.store["<c>"], "P");
    let lookups: Vec<&String> =
        world.requests.iter().filter(|r| r.starts_with("lookup")).collect();
    assert_eq!(lookups, ["lookup <x>", "lookup <p>"]);
}

#[test]
fn store_without_table_ends_the_search() {
    let mut world = world(
        b"From: a@b.com\r\nMessage-ID: <c>\r\nReferences: <x> <a>\r\n\r\nhi",
        b"ok",
    );
    drive(&mut world, mail("/mail")).unwrap();
    let lookups: Vec<&String> =
        world.requests.iter().filter(|r| r.starts_with("lookup")).collect();
    assert_eq!(lookups, ["lookup <a>"]);
    assert_eq!(world.store["<c>"].len(), 36);
}

#[test]
fn every_ancestor_is_asked_for() {
    let mut world = world(
        b"From: a@b.com\r\nMessage-ID: <c>\r\nReferences: <x> <a>\r\n\r\nhi",
        b"ok",
    );
    world.store.insert("<other>".to_string(), "O".to_string());
    drive(&mut world, mail("/mail")).unwrap();
    let lookups: Vec<&String> =
        world.requests.iter().filter(|r| r.starts_with("lookup")).collect();
    assert_eq!(lookups, ["lookup <a>", "lookup <x>"]);
    assert_ne!(world.store["<c>"], "O");
}

#[test]
fn answer_to_the_reply_reuses_the_session() {
    let mut world = world(PLAIN, b"bar\n");
    drive(&mut world, mail("/mail")).unwrap();
    let session = world.store["<foo@bar>"].clone();

    let files = files_in(&world, "/mail/new/");
    let reply = files.iter().find(|f| f.as_slice() != PLAIN).unwrap();
    let reply = Message::parse(reply).unwrap();
    assert_eq!(world.store[&reply.message_id], session);

    let answer = format!(
        "From: foo@bar.com\r\nMessage-ID: <next@bar>\r\nIn-Reply-To: {}\r\n\r\nmore",
        reply.message_id
    );
    world.input = Some(answer.into_bytes());
    drive(&mut world, mail("/mail")).unwrap();
    assert_eq!(world.store["<next@bar>"], session);
    assert_eq!(session_dirs(&world).len(), 1);
}

#[test]
fn resolve_session_with_and_without_a_token() {
    let message = Message::parse(b"From: a@b\r\nMessage-ID: <d>\r\n\r\n").unwrap();
    let (_, request) = mail("/mail").resolve_session(message.clone(), Some("s".to_string()));
    assert_eq!(
        request,
        Request::Record {
            db: "/mail/db.redb".to_string(),
            key: "<d>".to_string(),
            session: "s".to_string(),
        }
    );
    let (_, request) = mail("/mail").resolve_session(message, None);
    match request {
        Request::Record { key, session, .. } => {
            assert_eq!(key, "<d>");
            assert_eq!(session.len(), 36);
        }
        _ => panic!("the message is not being recorded"),
    }
    let message =
        Message::parse(b"From: a@b\r\nMessage-ID: <d>\r\nReferences: <a>\r\n\r\n").unwrap();
    let (_, request) = mail("/mail").resolve_session(message, None);
    assert_eq!(
        request,
        Request::Lookup { db: "/mail/db.redb".to_string(), key: "<a>".to_string() }
    );
}

#[test]
fn minted_session_is_the_token() {
    let run = Mail::run(mail("/mail"));
    let (run, _) = run.advance(Outcome::Done, String::new());
    let (run, _) = run.advance(Outcome::Input(PLAIN.to_vec()), String::new());
    let (mut run, mut request) = run.advance(Outcome::Time(7), String::new());
    while !matches!(request, Request::Rename { .. }) {
        (run, request) = run.advance(Outcome::Done, String::new());
    }
    let (run, request) = run.advance(Outcome::Done, "token-1".to_string());
    assert_eq!(
        request,
        Request::Record {
            db: "/mail/db.redb".to_string(),
            key: "<foo@bar>".to_string(),
            session: "token-1".to_string(),
        }
    );
    let (run, request) = run.advance(Outcome::Done, String::new());
    assert_eq!(request, Request::CreateDir { path: "/mail/sessions/token-1".to_string() });
    let (run, request) = run.advance(Outcome::Done, String::new());
    assert!(matches!(request, Request::RunAgent { .. }));
    let (run, request) = run.advance(
        Outcome::Exited {
            success: true,
            status: String::new(),
            stdout: b"hi".to_vec(),
            stderr: String::new(),
        },
        "token-2".to_string(),
    );
    assert_eq!(
        request,
        Request::Record {
            db: "/mail/db.redb".to_string(),
            key: "<token-2@tulip.farm>".to_string(),
            session: "token-1".to_string(),
        }
    );
    match &run.stage {
        Stage::RecordReply { reply, .. } => {
            assert_eq!(reply.from_name, "Root");
            assert_eq!(reply.from_address, "root@tulip.farm");
            assert_eq!(reply.to, "foo@bar.com");
            assert_eq!(reply.subject, "Re:");
            assert_eq!(reply.message_id, "token-2@tulip.farm");
            assert_eq!(reply.in_reply_to, "foo@bar");
            assert_eq!(reply.references, ["foo@bar", "token-2@tulip.farm"]);
            assert_eq!(reply.text, "hi");
            assert_eq!(reply.html, "<p>hi</p>\n");
        }
        _ => panic!("the reply is not being recorded"),
    }
}

#[test]
fn finished_run_stays_finished() {
    let run = Mail::run(mail("/mail"));
    let (run, request) = run.advance(Outcome::Done, String::new());
    assert_eq!(request, Request::ReadInput);
    let (run, request) = run.advance(Outcome::Failed, String::new());
    assert_eq!(request, Request::Finish { result: Err(Error::Stdin) });
    assert!(run.is_finished());
    let (run, request) = run.advance(Outcome::Input(PLAIN.to_vec()), String::new());
    assert_eq!(request, Request::Finish { result: Err(Error::Stdin) });
    assert!(run.is_finished());
}

#[test]
fn each_failure_has_its_error() {
    let mut w = world(PLAIN, b"bar\n");
    w.input = None;
    assert_eq!(drive(&mut w, mail("/mail")), Err(Error::Stdin));

    let mut w = world(b"", b"bar\n");
    assert_eq!(drive(&mut w, mail("/mail")), Err(Error::MissingSender));

    let mut w = world(PLAIN, b"bar\n");
    w.agent = None;
    assert_eq!(drive(&mut w, mail("/mail")), Err(Error::AgentInvocation));

    let mut w = world(PLAIN, b"\xff\xfe");
    assert_eq!(drive(&mut w, mail("/mail")), Err(Error::AgentOutput));

    let mut w = world(b"From: not an address\r\nMessage-ID: <1>\r\n\r\nx", b"bar\n");
    assert_eq!(drive(&mut w, mail("/mail")), Err(Error::Address));
    assert_eq!(files_in(&w, "/mail/new/").len(), 2);
    assert!(w.delivered.is_empty());

    for (fault, error) in [
        (StoreFault::Open, Error::DatabaseOpen { path: "/mail/db.redb".to_string() }),
        (StoreFault::Transaction, Error::DatabaseTransaction),
        (StoreFault::Table, Error::DatabaseTable),
        (StoreFault::Storage, Error::DatabaseStorage),
        (StoreFault::Commit, Error::DatabaseCommit),
    ] {
        let mut w = world(PLAIN, b"bar\n");
        w.store_fault = Some(fault);
        let result = drive(&mut w, mail("/mail"));
        assert_eq!(result, Err(error));
        assert_eq!(exit_status(&result), 1);
        assert_eq!(files_in(&w, "/mail/new/").len(), 1);
    }
}

#[test]
fn malformed_input_is_archived_and_refused() {
    let input = b" From: foo@bar.com\r\n\r\nbaz";
    let mut w = world(input, b"bar\n");
    let result = drive(&mut w, mail("/mail"));
    assert_eq!(result, Err(Error::MailParse));
    assert_eq!(exit_status(&result), 1);
    assert_eq!(files_in(&w, "/mail/new/"), vec![input.to_vec()]);
    assert!(w.store.is_empty());
}

#[test]
fn minted_sessions_have_the_shape_of_a_token() {
    let mut w = world(PLAIN, b"bar\n");
    drive(&mut w, mail("/mail")).unwrap();
    let session = w.store["<foo@bar>"].clone();
    assert_eq!(session.len(), 36);
    assert!(session.chars().all(|c| c == '-' || c.is_ascii_digit() || ('a'..='f').contains(&c)));
}

#[test]
fn session_dir_failure() {
    let run = Mail::run(mail("/mail"));
    let (run, _) = run.advance(Outcome::Done, String::new());
    let (run, _) = run.advance(Outcome::Input(PLAIN.to_vec()), String::new());
    let (mut run, mut request) = run.advance(Outcome::Time(7), String::new());
    while !matches!(request, Request::Record { .. }) {
        (run, request) = run.advance(Outcome::Done, "s".to_string());
    }
    let (run, request) = run.advance(Outcome::Done, String::new());
    assert_eq!(request, Request::CreateDir { path: "/mail/sessions/s".to_string() });
    let (_, request) = run.advance(Outcome::Failed, String::new());
    let error = Error::SessionDir { path: "/mail/sessions/s".to_string() };
    assert_eq!(error.message(), "failed to create session directory at `/mail/sessions/s`");
    assert_eq!(request, Request::Finish { result: Err(error) });
}

#[test]
fn archive_failures_name_their_path() {
    for (fail_at, path) in [
        (0, "/mail/cur"),
        (1, "/mail/new"),
        (2, "/mail/tmp"),
        (3, "/mail/tmp/7.lab.tulip.farm"),
        (4, "/mail/new/7.lab.tulip.farm"),
    ] {
        let run = Mail::run(mail("/mail"));
        let (run, _) = run.advance(Outcome::Done, String::new());
        let (run, _) = run.advance(Outcome::Input(PLAIN.to_vec()), String::new());
        let (mut run, mut request) = run.advance(Outcome::Time(7), String::new());
        for _ in 0..fail_at {
            (run, request) = run.advance(Outcome::Done, String::new());
        }
        assert!(!matches!(request, Request::Finish { .. }));
        let (_, request) = run.advance(Outcome::Failed, String::new());
        let error = Error::FilesystemIo { path: path.to_string() };
        assert_eq!(exit_status(&Err(error.clone())), 75);
        assert_eq!(request, Request::Finish { result: Err(error) });
    }
}

#[test]
fn error_messages() {
    let cases = [
        (Error::FilesystemIo { path: "/x".to_string() }, "I/O error at `/x`"),
        (Error::MailParse, "failed to parse message"),
        (Error::MissingMessageId, "message has no Message-ID header"),
        (Error::MissingSender, "message has no sender"),
        (Error::Address, "invalid recipient address"),
        (Error::Send, "failed to send reply"),
        (Error::Stdin, "failed to read stdin"),
        (Error::DatabaseOpen { path: "/d".to_string() }, "failed to open database at `/d`"),
        (Error::DatabaseTransaction, "database transaction error"),
        (Error::DatabaseCommit, "database commit error"),
        (Error::DatabaseTable, "database table error"),
        (Error::DatabaseStorage, "database storage error"),
        (Error::AgentInvocation, "failed to invoke agent"),
        (
            Error::AgentFailed { status: "exit status: 2".to_string(), stderr: "e".to_string() },
            "agent exited with exit status: 2",
        ),
        (Error::AgentOutput, "agent output is not valid UTF-8"),
        (
            Error::SessionDir { path: "/s".to_string() },
            "failed to create session directory at `/s`",
        ),
    ];
    for (error, text) in cases {
        assert_eq!(error.message(), text);
        assert_eq!(error.duplicate(), error);
        let code = if matches!(error, Error::FilesystemIo { .. }) { 75 } else { 1 };
        assert_eq!(error.exit_code(), code);
    }
}

#[test]
fn maildir_paths() {
    let paths = Mail::save_to_maildir("/var/mail", 1234567890123456789012);
    assert_eq!(paths.cur, "/var/mail/cur");
    assert_eq!(paths.new, "/var/mail/new");
    assert_eq!(paths.tmp, "/var/mail/tmp");
    assert_eq!(paths.tmp_file, "/var/mail/tmp/1234567890123456789012.lab.tulip.farm");
    assert_eq!(paths.new_file, "/var/mail/new/1234567890123456789012.lab.tulip.farm");
    let paths = Mail::save_to_maildir("box/", 0);
    assert_eq!(paths.cur, "box/cur");
    assert_eq!(paths.tmp_file, "box/tmp/0.lab.tulip.farm");
}

#[test]
fn joining_and_digits() {
    assert_eq!(join("a", "b"), "a/b");
    assert_eq!(join("a/", "b"), "a/b");
    assert_eq!(join("", "b"), "b");
    assert_eq!(join("a", "/b"), "/b");
    assert_eq!(join("a", ""), "a/");
    assert_eq!(decimal_text(0), "0");
    assert_eq!(decimal_text(9), "9");
    assert_eq!(decimal_text(10), "10");
    assert_eq!(decimal_text(1234567890), "1234567890");
    assert_eq!(decimal_text(u128::MAX), u128::MAX.to_string());
}

#[test]
fn agent_responses() {
    assert_eq!(
        Mail::agent_response(true, "0".to_string(), "h\u{e9}".as_bytes().to_vec(), String::new()),
        Ok("h\u{e9}".to_string())
    );
    assert_eq!(
        Mail::agent_response(true, "0".to_string(), vec![0xC3], String::new()),
        Err(Error::AgentOutput)
    );
    assert_eq!(
        Mail::agent_response(false, "1".to_string(), b"out".to_vec(), "err".to_string()),
        Err(Error::AgentFailed { status: "1".to_string(), stderr: "err".to_string() })
    );
}

#[test]
fn markdown_rendering() {
    assert_eq!(Mail::markdown_to_html("# foo\n"), "<h1>foo</h1>\n");
    assert_eq!(Mail::markdown_to_html("a *b*"), "<p>a <em>b</em></p>\n");
}

#[test]
fn reply_fields() {
    let message = Message::parse(
        b"From: Foo <foo@bar.com>\r\nMessage-ID: <c@x>\r\nReferences: <a@x> b@x\r\nSubject: s\r\n\r\n",
    )
    .unwrap();
    let reply = Mail::reply(&message, "r@tulip.farm", "text", "<p>text</p>");
    assert_eq!(reply.to, "foo@bar.com");
    assert_eq!(reply.subject, "Re: s");
    assert_eq!(reply.message_id, "r@tulip.farm");
    assert_eq!(reply.in_reply_to, "c@x");
    assert_eq!(reply.references, ["a@x", "b@x", "c@x", "r@tulip.farm"]);
    assert_eq!(reply.text, "text");
    assert_eq!(reply.html, "<p>text</p>");
    assert_eq!(Mail::reply_id("abc"), "abc@tulip.farm");
    assert_eq!(enclose("abc@tulip.farm"), "<abc@tulip.farm>");
    assert_eq!(strip_brackets(&enclose("abc")), "abc");
    assert_eq!(strip_brackets("<a>"), "a");
    assert_eq!(strip_brackets("<>"), "");
    assert_eq!(strip_brackets("<a"), "<a");
    assert_eq!(strip_brackets("<"), "<");
    assert_eq!(strip_brackets(""), "");
}

#[test]
fn lookup_order_of_a_message() {
    let message = Message::parse(
        b"From: a@b\r\nMessage-ID: <d>\r\nIn-Reply-To: <p>\r\nReferences: <a> <b> <c>\r\n\r\n",
    )
    .unwrap();
    assert_eq!(lookup_keys(&message), ["<c>", "<b>", "<a>", "<p>"]);
    let message = Message::parse(
        b"From: a@b\r\nMessage-ID: <d>\r\nIn-Reply-To: <d>\r\nReferences: <a>\r\n\r\n",
    )
    .unwrap();
    assert_eq!(lookup_keys(&message), ["<a>"]);
    let message = Message::parse(b"From: a@b\r\nMessage-ID: <d>\r\n\r\n").unwrap();
    assert!(lookup_keys(&message).is_empty());
}

#[test]
fn steps_mint_distinct_sessions() {
    let mut first = world(PLAIN, b"bar\n");
    drive(&mut first, mail("/mail")).unwrap();
    let mut second = world(PLAIN, b"bar\n");
    drive(&mut second, mail("/mail")).unwrap();
    assert_ne!(first.store["<foo@bar>"], second.store["<foo@bar>"]);
    assert_eq!(first.store["<foo@bar>"].len(), 36);
}
