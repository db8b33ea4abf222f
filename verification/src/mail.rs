//! The `mail` subcommand: where the relay keeps its files, and what it asks of
//! the filesystem, the agent and the mail composer for one message.

use crate::error::Error;
use crate::message::{Message, MessageView};
use crate::text::views;
use vstd::prelude::*;
use vstd::string::*;
use vstd::utf8::*;

verus! {

/// Where one relay keeps its archive, its thread store and its sessions, and
/// which programs it runs.
#[derive(Debug, Clone, PartialEq, Eq)]
pub struct Mail {
    /// The archive directory.
    pub dir: String,
    /// The program that submits mail.
    pub sendmail: String,
    /// The thread store file.
    pub db: String,
    /// The agent program.
    pub claude: String,
    /// The directory that holds one directory per session.
    pub session_dir: String,
}

/// The paths that one archive write touches.
#[derive(Debug, Clone, PartialEq, Eq)]
pub struct MaildirPaths {
    /// The `cur` directory.
    pub cur: String,
    /// The `new` directory.
    pub new: String,
    /// The `tmp` directory.
    pub tmp: String,
    /// The file that is written first, under `tmp`.
    pub tmp_file: String,
    /// The file's final place, under `new`.
    pub new_file: String,
}

/// One run of the agent: the directory to make and run it in, the program, its
/// arguments, and what to write to its input stream.
#[derive(Debug, Clone, PartialEq, Eq)]
pub struct AgentCall {
    pub dir: String,
    pub program: String,
    pub args: Vec<String>,
    pub input: String,
}

/// The fields of an outbound reply.
#[derive(Debug, Clone, PartialEq, Eq)]
pub struct Reply {
    pub from_name: String,
    pub from_address: String,
    pub to: String,
    pub subject: String,
    pub message_id: String,
    pub in_reply_to: String,
    pub references: Vec<String>,
    pub text: String,
    pub html: String,
}

impl MaildirPaths {
    /// Whether these are the paths of an archive write into `maildir` at `timestamp`.
    pub open spec fn describes(self, maildir: Seq<char>, timestamp: nat) -> bool {
        &&& self.cur@ == joined(maildir, "cur"@)
        &&& self.new@ == joined(maildir, "new"@)
        &&& self.tmp@ == joined(maildir, "tmp"@)
        &&& self.tmp_file@ == joined(self.tmp@, archive_file_name(timestamp))
        &&& self.new_file@ == joined(self.new@, archive_file_name(timestamp))
    }
}

impl AgentCall {
    /// Whether this is the run of the agent `program` for `session` on `body`,
    /// with the sessions kept below `root`.
    pub open spec fn describes(
        self,
        root: Seq<char>,
        program: Seq<char>,
        session: Seq<char>,
        body: Seq<char>,
    ) -> bool {
        &&& self.dir@ == joined(root, session)
        &&& self.program@ == program
        &&& views(self.args@) == agent_args(session)
        &&& self.input@ == body
    }
}

/// A message identifier without the angle brackets that enclose it in a header.
pub open spec fn bare(id: Seq<char>) -> Seq<char> {
    if id.len() >= 2 && id[0] == '<' && id.last() == '>' {
        id.subrange(1, id.len() - 1)
    } else {
        id
    }
}

impl Reply {
    /// Whether this is the reply to `message` that carries `response` and its
    /// rendering `html` under the identifier `reply_id`. The identifiers of a
    /// reply stand without angle brackets: the composer encloses each in a pair.
    pub open spec fn describes(
        self,
        message: MessageView,
        reply_id: Seq<char>,
        response: Seq<char>,
        html: Seq<char>,
    ) -> bool {
        &&& self.from_name@ == "Root"@
        &&& self.from_address@ == "root@tulip.farm"@
        &&& self.to@ == message.sender
        &&& self.subject@ == message.subject
        &&& self.message_id@ == reply_id
        &&& self.in_reply_to@ == bare(message.message_id)
        &&& views(self.references@) == message.references.map_values(|id: Seq<char>| bare(id)).push(
            reply_id,
        )
        &&& self.text@ == response
        &&& self.html@ == html
    }
}

/// `name` below the directory `base`: `name` itself where it starts at the root,
/// else `base`, a separator unless `base` is empty or ends with one, and `name`.
pub open spec fn joined(base: Seq<char>, name: Seq<char>) -> Seq<char> {
    if name.len() > 0 && name[0] == '/' {
        name
    } else if base.len() == 0 || base.last() == '/' {
        base + name
    } else {
        base + seq!['/'] + name
    }
}

/// The text of one decimal digit.
pub open spec fn digit(d: nat) -> Seq<char> {
    seq![
        if d == 0 {
            '0'
        } else if d == 1 {
            '1'
        } else if d == 2 {
            '2'
        } else if d == 3 {
            '3'
        } else if d == 4 {
            '4'
        } else if d == 5 {
            '5'
        } else if d == 6 {
            '6'
        } else if d == 7 {
            '7'
        } else if d == 8 {
            '8'
        } else {
            '9'
        },
    ]
}

/// `n` in decimal, without leading zeros.
pub open spec fn decimal(n: nat) -> Seq<char>
    decreases n,
{
    if n < 10 {
        digit(n)
    } else {
        decimal(n / 10) + digit(n % 10)
    }
}

/// The name of the archive file written at `timestamp`.
pub open spec fn archive_file_name(timestamp: nat) -> Seq<char> {
    decimal(timestamp) + ".lab.tulip.farm"@
}

/// The file that an archive write into `maildir` at `timestamp` writes under `tmp`.
pub open spec fn tmp_file_of(maildir: Seq<char>, timestamp: nat) -> Seq<char> {
    joined(joined(maildir, "tmp"@), archive_file_name(timestamp))
}

/// The place under `new` of an archive write into `maildir` at `timestamp`.
pub open spec fn new_file_of(maildir: Seq<char>, timestamp: nat) -> Seq<char> {
    joined(joined(maildir, "new"@), archive_file_name(timestamp))
}

/// The arguments the agent is run with for `session`.
pub open spec fn agent_args(session: Seq<char>) -> Seq<Seq<char>> {
    seq![
        "-p"@,
        "--session-id"@,
        session,
        "--append-system-prompt"@,
        "Your session ID is "@ + session + "."@,
    ]
}

/// The identifier of a reply minted from `token`, without angle brackets.
pub open spec fn reply_id_of(token: Seq<char>) -> Seq<char> {
    token + "@tulip.farm"@
}

/// A message identifier as it stands in a header: between angle brackets.
pub open spec fn bracketed(id: Seq<char>) -> Seq<char> {
    seq!['<'] + id + seq!['>']
}

/// The HTML that the Markdown renderer, with tables enabled, writes for a text.
pub uninterp spec fn rendered_html(markdown: Seq<char>) -> Seq<char>;

/// Calls `pulldown_cmark::Parser::new_ext` with `Options::ENABLE_TABLES` and
/// `pulldown_cmark::html::push_html` on an empty string. The contract claims that
/// the HTML depends on the text alone, and gives it the name `rendered_html`.
#[verifier::external_body]
fn render_markdown(markdown: &str) -> (html: String)
    ensures
        html@ == rendered_html(markdown@),
{
    let parser = pulldown_cmark::Parser::new_ext(markdown, pulldown_cmark::Options::ENABLE_TABLES);
    let mut html = String::new();
    pulldown_cmark::html::push_html(&mut html, parser);
    html
}

/// Calls `String::from_utf8`: the bytes as text where they are UTF-8, none otherwise.
#[verifier::external_body]
fn text_from_utf8(bytes: Vec<u8>) -> (text: Option<String>)
    ensures
        text is Some <==> valid_utf8(bytes@),
        text matches Some(s) ==> s@ == decode_utf8(bytes@),
{
    String::from_utf8(bytes).ok()
}

/// Whether `wire` is a MIME message that the composer writes for `reply`. The
/// composer adds a date and part boundaries of its own, so one reply has more
/// than one such message.
pub uninterp spec fn composed(reply: Reply, wire: Seq<u8>) -> bool;

/// Calls `mail_builder::MessageBuilder` to write a reply out as a MIME message,
/// with a plain-text and an HTML body, through `write_to_vec`. The contract
/// claims only that the bytes are the composer's for this reply, under the name
/// `composed`; it says nothing of what they hold.
#[verifier::external_body]
pub(crate) fn serialize_reply(reply: &Reply) -> (wire: Vec<u8>)
    ensures
        composed(*reply, wire@),
{
    mail_builder::MessageBuilder::new()
        .from((reply.from_name.as_str(), reply.from_address.as_str()))
        .to(reply.to.as_str())
        .subject(reply.subject.as_str())
        .message_id(reply.message_id.as_str())
        .in_reply_to(reply.in_reply_to.as_str())
        .references(reply.references.clone())
        .text_body(reply.text.as_str())
        .html_body(reply.html.as_str())
        .write_to_vec()
        .unwrap_or_default()
}

/// Whether a text is a mail address that the delivery mechanism accepts as a
/// recipient.
pub uninterp spec fn is_mail_address(text: Seq<char>) -> bool;

/// Calls `lettre::Address::from_str`, which checks the user and domain parts of
/// an address. The contract claims that the verdict depends on the text alone,
/// and gives it the name `is_mail_address`.
#[verifier::external_body]
pub(crate) fn address_is_valid(text: &str) -> (valid: bool)
    ensures
        valid == is_mail_address(text@),
{
    text.parse::<lettre::Address>().is_ok()
}

/// Whether a text has the shape of a minted identifier: 36 characters, each a
/// small hexadecimal digit or a hyphen.
pub open spec fn is_token(text: Seq<char>) -> bool {
    &&& text.len() == 36
    &&& forall|i: int|
        0 <= i < text.len() ==> {
            let c = #[trigger] text[i];
            c == '-' || '0' <= c <= '9' || 'a' <= c <= 'f'
        }
}

/// Calls `uuid::Uuid::now_v7` and writes the identifier out with `to_string`,
/// which gives its hyphenated form in small letters. It is made from the clock
/// and from random bits, so the contract claims its shape and nothing of its
/// value.
#[verifier::external_body]
pub(crate) fn mint_token() -> (token: String)
    ensures
        is_token(token@),
{
    uuid::Uuid::now_v7().to_string()
}

/// The text of one decimal digit.
fn digit_text(d: u128) -> (text: &'static str)
    requires
        d < 10,
    ensures
        text@ == digit(d as nat),
{
    proof {
        reveal_strlit("0");
        reveal_strlit("1");
        reveal_strlit("2");
        reveal_strlit("3");
        reveal_strlit("4");
        reveal_strlit("5");
        reveal_strlit("6");
        reveal_strlit("7");
        reveal_strlit("8");
        reveal_strlit("9");
    }
    let text = if d == 0 {
        "0"
    } else if d == 1 {
        "1"
    } else if d == 2 {
        "2"
    } else if d == 3 {
        "3"
    } else if d == 4 {
        "4"
    } else if d == 5 {
        "5"
    } else if d == 6 {
        "6"
    } else if d == 7 {
        "7"
    } else if d == 8 {
        "8"
    } else {
        "9"
    };
    proof {
        assert(text@ =~= digit(d as nat));
    }
    text
}

/// `n` in decimal, without leading zeros.
pub fn decimal_text(n: u128) -> (text: String)
    ensures
        text@ == decimal(n as nat),
    decreases n,
{
    if n < 10 {
        String::from_str(digit_text(n))
    } else {
        let mut text = decimal_text(n / 10);
        text.append(digit_text(n % 10));
        text
    }
}

/// A message identifier without the angle brackets that enclose it in a header.
pub fn strip_brackets(id: &str) -> (out: String)
    ensures
        out@ == bare(id@),
{
    let n: usize = id.unicode_len();
    if n >= 2 && id.get_char(0) == '<' && id.get_char(n - 1) == '>' {
        String::from_str(id.substring_char(1, n - 1))
    } else {
        String::from_str(id)
    }
}

/// A message identifier as it stands in a header: between angle brackets.
pub fn enclose(id: &str) -> (out: String)
    ensures
        out@ == bracketed(id@),
{
    proof {
        reveal_strlit("<");
        reveal_strlit(">");
        assert("<"@ =~= seq!['<']);
        assert(">"@ =~= seq!['>']);
    }
    let mut out = String::from_str("<");
    out.append(id);
    out.append(">");
    out
}

/// `name` below the directory `base`.
pub fn join(base: &str, name: &str) -> (path: String)
    ensures
        path@ == joined(base@, name@),
{
    let base_len: usize = base.unicode_len();
    if name.unicode_len() > 0 && name.get_char(0) == '/' {
        String::from_str(name)
    } else if base_len == 0 || base.get_char(base_len - 1) == '/' {
        let mut path = String::from_str(base);
        path.append(name);
        path
    } else {
        proof {
            reveal_strlit("/");
            assert("/"@ =~= seq!['/']);
        }
        let mut path = String::from_str(base);
        path.append("/");
        path.append(name);
        path
    }
}

impl Mail {
    /// The paths of one archive write into `maildir` at `timestamp`: the three
    /// directories to make, the file to write under `tmp`, and the place under
    /// `new` to rename it to. The file is named by the timestamp in decimal and
    /// the suffix `.lab.tulip.farm`.
    pub fn save_to_maildir(maildir: &str, timestamp: u128) -> (paths: MaildirPaths)
        ensures
            paths.describes(maildir@, timestamp as nat),
    {
        let mut name = decimal_text(timestamp);
        name.append(".lab.tulip.farm");
        let cur = join(maildir, "cur");
        let new = join(maildir, "new");
        let tmp = join(maildir, "tmp");
        let tmp_file = join(tmp.as_str(), name.as_str());
        let new_file = join(new.as_str(), name.as_str());
        MaildirPaths { cur, new, tmp, tmp_file, new_file }
    }

    /// How the agent is run for `session` on `body`: in the session's own
    /// directory below the session root, with the session named in its arguments
    /// and the body on its input stream.
    pub fn invoke_agent(&self, session: &str, body: &str) -> (call: AgentCall)
        ensures
            call.describes(self.session_dir@, self.claude@, session@, body@),
    {
        let mut prompt = String::from_str("Your session ID is ");
        prompt.append(session);
        prompt.append(".");
        let mut args: Vec<String> = Vec::new();
        args.push(String::from_str("-p"));
        args.push(String::from_str("--session-id"));
        args.push(String::from_str(session));
        args.push(String::from_str("--append-system-prompt"));
        args.push(prompt);
        proof {
            assert(views(args@) =~= agent_args(session@));
        }
        AgentCall {
            dir: join(self.session_dir.as_str(), session),
            program: self.claude.clone(),
            args,
            input: String::from_str(body),
        }
    }

    /// What a finished agent run gives: its output as text where it ended
    /// successfully and wrote UTF-8; `AgentFailed` with its status and error
    /// stream where it ended unsuccessfully; `AgentOutput` where it ended
    /// successfully and its output is not UTF-8.
    pub fn agent_response(success: bool, status: String, stdout: Vec<u8>, stderr: String) -> (r:
        Result<String, Error>)
        ensures
            match r {
                Ok(text) => success && valid_utf8(stdout@) && text@ == decode_utf8(stdout@),
                Err(Error::AgentFailed { status: s, stderr: e }) => !success && s == status && e
                    == stderr,
                Err(Error::AgentOutput) => success && !valid_utf8(stdout@),
                Err(_) => false,
            },
    {
        if !success {
            Err(Error::AgentFailed { status, stderr })
        } else {
            match text_from_utf8(stdout) {
                Some(text) => Ok(text),
                None => Err(Error::AgentOutput),
            }
        }
    }

    /// The HTML rendering of the agent's Markdown.
    pub fn markdown_to_html(markdown: &str) -> (html: String)
        ensures
            html@ == rendered_html(markdown@),
    {
        render_markdown(markdown)
    }

    /// The identifier of a reply minted from `token`, without angle brackets.
    pub fn reply_id(token: &str) -> (id: String)
        ensures
            id@ == reply_id_of(token@),
    {
        let mut id = String::from_str(token);
        id.append("@tulip.farm");
        id
    }

    /// The reply to `message` that carries `response` and its rendering `html`
    /// under the identifier `reply_id`: from the administrative address to the
    /// message's sender, under the message's reply subject, in reply to the
    /// message, with the message's references followed by the reply's own
    /// identifier. Identifiers lose their enclosing angle brackets, which the
    /// composer writes itself.
    pub fn reply(message: &Message, reply_id: &str, response: &str, html: &str) -> (reply: Reply)
        ensures
            reply.describes(message@, reply_id@, response@, html@),
    {
        let ghost declared = message@.references.map_values(|id: Seq<char>| bare(id));
        let mut references: Vec<String> = Vec::new();
        let mut i: usize = 0;
        while i < message.references.len()
            invariant
                i <= message.references.len(),
                declared == message@.references.map_values(|id: Seq<char>| bare(id)),
                views(references@) == declared.subrange(0, i as int),
            decreases message.references.len() - i,
        {
            let next = strip_brackets(message.references[i].as_str());
            proof {
                assert(views(references@.push(next)) =~= views(references@).push(next@));
                assert(declared[i as int] == bare(message@.references[i as int]));
                assert(views(references@).push(next@) =~= declared.subrange(0, i + 1));
            }
            references.push(next);
            i += 1;
        }
        let id = String::from_str(reply_id);
        proof {
            assert(declared.subrange(0, i as int) =~= declared);
            assert(views(references@.push(id)) =~= views(references@).push(id@));
        }
        references.push(id);
        Reply {
            from_name: String::from_str("Root"),
            from_address: String::from_str("root@tulip.farm"),
            to: message.sender.clone(),
            subject: message.subject.clone(),
            message_id: String::from_str(reply_id),
            in_reply_to: strip_brackets(message.message_id.as_str()),
            references,
            text: String::from_str(response),
            html: String::from_str(html),
        }
    }
}

/// Angle brackets put around an identifier come off again: the identifier
/// under which a reply is recorded is the header form of the one it is
/// composed with.
pub proof fn lemma_bare_of_bracketed(id: Seq<char>)
    ensures
        bare(bracketed(id)) == id,
{
    let whole = bracketed(id);
    assert(whole.len() == id.len() + 2);
    assert(whole[0] == '<');
    assert(whole.last() == '>');
    assert(whole.subrange(1, whole.len() - 1) =~= id);
}

/// A number in decimal begins with a digit, so it is not empty and does not
/// begin with a path separator.
pub proof fn lemma_decimal_begins_with_digit(n: nat)
    ensures
        decimal(n).len() >= 1,
        decimal(n)[0] != '/',
    decreases n,
{
    if n >= 10 {
        lemma_decimal_begins_with_digit(n / 10);
    }
}

/// The file that an archive write creates under `tmp` and the place under `new`
/// that it is renamed to are different paths, whatever the times of the two.
pub proof fn lemma_tmp_and_new_differ(maildir: Seq<char>, earlier: nat, later: nat)
    ensures
        tmp_file_of(maildir, earlier) != new_file_of(maildir, later),
{
    reveal_strlit("tmp");
    reveal_strlit("new");
    lemma_decimal_begins_with_digit(earlier);
    lemma_decimal_begins_with_digit(later);
    let one = archive_file_name(earlier);
    let two = archive_file_name(later);
    let tmp = joined(maildir, "tmp"@);
    let new = joined(maildir, "new"@);
    assert(one[0] == decimal(earlier)[0]);
    assert(two[0] == decimal(later)[0]);
    assert(tmp.len() == new.len());
    assert(tmp.len() >= 3);
    assert(tmp.last() == 'p');
    assert(new.last() == 'w');
    assert(tmp_file_of(maildir, earlier) == tmp + seq!['/'] + one);
    assert(new_file_of(maildir, later) == new + seq!['/'] + two);
    assert(tmp_file_of(maildir, earlier)[tmp.len() - 1] == 'p');
    assert(new_file_of(maildir, later)[new.len() - 1] == 'w');
}

/// The file that an archive write creates under `tmp` and the place under `new`
/// that it is renamed to are different paths.
pub proof fn lemma_archive_paths_differ(paths: MaildirPaths, maildir: Seq<char>, timestamp: nat)
    requires
        paths.describes(maildir, timestamp),
    ensures
        paths.tmp_file@ != paths.new_file@,
{
    lemma_tmp_and_new_differ(maildir, timestamp, timestamp);
}

/// Different numbers are written differently in decimal.
pub proof fn lemma_decimal_is_injective(a: nat, b: nat)
    requires
        decimal(a) == decimal(b),
    ensures
        a == b,
    decreases a,
{
    lemma_decimal_begins_with_digit(a / 10);
    lemma_decimal_begins_with_digit(b / 10);
    if a < 10 && b < 10 {
        assert(digit(a)[0] == digit(b)[0]);
    } else if a >= 10 && b >= 10 {
        let x = decimal(a / 10);
        let y = decimal(b / 10);
        assert(decimal(a).last() == digit(a % 10)[0]);
        assert(decimal(b).last() == digit(b % 10)[0]);
        assert(decimal(a).drop_last() =~= x);
        assert(decimal(b).drop_last() =~= y);
        lemma_decimal_is_injective(a / 10, b / 10);
    } else {
        assert(decimal(a).len() != decimal(b).len());
    }
}

/// Archive writes into one directory at different times are named differently,
/// under `tmp` and under `new`.
pub proof fn lemma_archive_names_differ(maildir: Seq<char>, earlier: nat, later: nat)
    requires
        earlier != later,
    ensures
        new_file_of(maildir, earlier) != new_file_of(maildir, later),
        tmp_file_of(maildir, earlier) != tmp_file_of(maildir, later),
{
    reveal_strlit("tmp");
    reveal_strlit("new");
    lemma_decimal_begins_with_digit(earlier);
    lemma_decimal_begins_with_digit(later);
    let one = archive_file_name(earlier);
    let two = archive_file_name(later);
    assert(one[0] == decimal(earlier)[0]);
    assert(two[0] == decimal(later)[0]);
    let new = joined(maildir, "new"@) + seq!['/'];
    let tmp = joined(maildir, "tmp"@) + seq!['/'];
    assert(joined(maildir, "new"@).last() == 'w');
    assert(joined(maildir, "tmp"@).last() == 'p');
    assert(new_file_of(maildir, earlier) == new + one);
    assert(new_file_of(maildir, later) == new + two);
    assert(tmp_file_of(maildir, earlier) == tmp + one);
    assert(tmp_file_of(maildir, later) == tmp + two);
    if one == two {
        assert(decimal(earlier).len() == decimal(later).len());
        assert(one.subrange(0, decimal(earlier).len() as int) =~= decimal(earlier));
        assert(two.subrange(0, decimal(later).len() as int) =~= decimal(later));
        lemma_decimal_is_injective(earlier, later);
    }
    if new + one == new + two {
        assert((new + one).subrange(new.len() as int, (new + one).len() as int) =~= one);
        assert((new + two).subrange(new.len() as int, (new + two).len() as int) =~= two);
    }
    if tmp + one == tmp + two {
        assert((tmp + one).subrange(tmp.len() as int, (tmp + one).len() as int) =~= one);
        assert((tmp + two).subrange(tmp.len() as int, (tmp + two).len() as int) =~= two);
    }
}

/// Archive writes into one directory at different times touch different files:
/// the place of the first under `new` is neither the file that the second
/// writes under `tmp` nor the place that it renames that file to.
pub proof fn lemma_archive_files_differ(
    first: MaildirPaths,
    second: MaildirPaths,
    maildir: Seq<char>,
    earlier: nat,
    later: nat,
)
    requires
        first.describes(maildir, earlier),
        second.describes(maildir, later),
        earlier != later,
    ensures
        first.new_file@ != second.tmp_file@,
        first.new_file@ != second.new_file@,
{
    lemma_tmp_and_new_differ(maildir, later, earlier);
    lemma_archive_names_differ(maildir, earlier, later);
}

} // verus!
