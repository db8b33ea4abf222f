//! The message model: what the relay reads from one inbound message.

use crate::error::Error;
use crate::text::{
    ascii_lower, char_ascii_lower, eq_ignore_ascii_case, find_char, has_prefix,
    lemma_trimmed_is_trimmed, position, split_whitespace, starts_with, str_eq_ignore_ascii_case,
    trim, trimmed, views, words,
};
use vstd::prelude::*;
use vstd::string::*;

verus! {

/// One header line: its name and its decoded, unfolded value.
#[derive(Debug, Clone, PartialEq, Eq)]
pub struct Header {
    pub key: String,
    pub value: String,
}

/// One part of a message's MIME structure.
#[derive(Debug, PartialEq, Eq)]
pub struct MailPart {
    /// The content type, such as `text/plain`.
    pub mimetype: String,
    /// The decoded body text, where the part's body can be decoded as text.
    pub body: Option<String>,
    /// The parts inside a multipart container, in order.
    pub subparts: Vec<MailPart>,
}

/// The structure of a message: its top-level headers in order and its part tree.
#[derive(Debug, PartialEq, Eq)]
pub struct Structure {
    pub headers: Vec<Header>,
    pub root: MailPart,
}

/// What the relay needs of an inbound message.
#[derive(Debug, Clone, PartialEq, Eq)]
pub struct Message {
    /// The address a reply goes to.
    pub sender: String,
    /// The subject of a reply to this message.
    pub subject: String,
    /// The first plain-text body, or the empty string.
    pub body: String,
    /// This message's identifier.
    pub message_id: String,
    /// The identifier of the message this one answers, where it names one.
    pub in_reply_to: Option<String>,
    /// The ancestors this message declares, oldest first, then its own identifier.
    pub references: Vec<String>,
}

/// The mathematical content of a [`Message`].
pub ghost struct MessageView {
    pub sender: Seq<char>,
    pub subject: Seq<char>,
    pub body: Seq<char>,
    pub message_id: Seq<char>,
    pub in_reply_to: Option<Seq<char>>,
    pub references: Seq<Seq<char>>,
}

impl MessageView {
    /// The sender is not empty and has no whitespace around it, and the
    /// references end with the message's own identifier.
    pub open spec fn well_formed(self) -> bool {
        &&& self.sender.len() > 0
        &&& trimmed(self.sender) == self.sender
        &&& self.references.len() > 0
        &&& self.references.last() == self.message_id
    }
}

impl View for Message {
    type V = MessageView;

    open spec fn view(&self) -> MessageView {
        MessageView {
            sender: self.sender@,
            subject: self.subject@,
            body: self.body@,
            message_id: self.message_id@,
            in_reply_to: text_of(self.in_reply_to),
            references: views(self.references@),
        }
    }
}

/// The characters of an optional string.
pub open spec fn text_of(s: Option<String>) -> Option<Seq<char>> {
    match s {
        Some(s) => Some(s@),
        None => None,
    }
}

/// The value of the first header of `headers`, from index `from` on, whose name
/// is `name` without regard to ASCII case.
pub open spec fn first_value_from(headers: Seq<Header>, name: Seq<char>, from: int) -> Option<
    Seq<char>,
>
    decreases headers.len() - from,
{
    if from < 0 || from >= headers.len() {
        None
    } else if eq_ignore_ascii_case(headers[from].key@, name) {
        Some(headers[from].value@)
    } else {
        first_value_from(headers, name, from + 1)
    }
}

/// The value of the first header named `name`, without regard to ASCII case.
pub open spec fn first_value(headers: Seq<Header>, name: Seq<char>) -> Option<Seq<char>> {
    first_value_from(headers, name, 0)
}

/// `s` where it is not empty.
pub open spec fn non_empty(s: Seq<char>) -> Option<Seq<char>> {
    if s.len() == 0 {
        None
    } else {
        Some(s)
    }
}

/// The address in a header value: what stands between the first `<` and the first
/// `>` where the value holds a `<`, the whole value otherwise, in both cases
/// without the whitespace around it. None where that is empty, or where the value
/// holds a `<` and its first `>` does not come after it.
pub open spec fn address_in(value: Seq<char>) -> Option<Seq<char>> {
    let start = position(value, '<');
    let end = position(value, '>');
    if start < value.len() {
        if start < end < value.len() {
            non_empty(trimmed(value.subrange(start + 1, end)))
        } else {
            None
        }
    } else {
        non_empty(trimmed(value))
    }
}

/// The address in an optional header value.
pub open spec fn address_of(value: Option<Seq<char>>) -> Option<Seq<char>> {
    match value {
        Some(value) => address_in(value),
        None => None,
    }
}

/// The reply address of a message: the address in `Reply-To` where that header
/// holds one, else the address in `From`.
pub open spec fn sender_of(headers: Seq<Header>) -> Option<Seq<char>> {
    if address_of(first_value(headers, "Reply-To"@)) is Some {
        address_of(first_value(headers, "Reply-To"@))
    } else {
        address_of(first_value(headers, "From"@))
    }
}

/// Whether a subject already carries a reply mark: `re:` in any ASCII case.
pub open spec fn is_reply(subject: Seq<char>) -> bool {
    subject.len() >= 3 && ascii_lower(subject[0]) == 'r' && ascii_lower(subject[1]) == 'e'
        && subject[2] == ':'
}

/// The subject of a reply to a message with the given subject.
pub open spec fn reply_subject(subject: Option<Seq<char>>) -> Seq<char> {
    match subject {
        None => "Re:"@,
        Some(s) => if is_reply(s) {
            s
        } else {
            "Re: "@ + s
        },
    }
}

/// Whether a content type names a multipart container.
pub open spec fn is_multipart(mimetype: Seq<char>) -> bool {
    has_prefix(mimetype, "multipart/"@)
}

/// The first plain-text body met in a depth-first walk of `part`.
pub open spec fn plain_text(part: MailPart) -> Option<Seq<char>>
    decreases part, 0int,
{
    if is_multipart(part.mimetype@) {
        plain_text_among(part.subparts, 0)
    } else if part.mimetype@ == "text/plain"@ {
        text_of(part.body)
    } else {
        None
    }
}

/// The first plain-text body met in a depth-first walk of `parts[from..]`.
pub open spec fn plain_text_among(parts: Vec<MailPart>, from: int) -> Option<Seq<char>>
    decreases parts, parts.len() - from,
{
    if from < 0 || from >= parts.len() {
        None
    } else {
        match plain_text(parts[from]) {
            Some(body) => Some(body),
            None => plain_text_among(parts, from + 1),
        }
    }
}

/// The references a message declares: the words of its `References` header.
pub open spec fn declared_references(headers: Seq<Header>) -> Seq<Seq<char>> {
    match first_value(headers, "References"@) {
        Some(value) => words(value),
        None => Seq::empty(),
    }
}

/// What a message of a given structure is read as.
pub open spec fn message_of(mail: Structure) -> Result<MessageView, Error> {
    let headers = mail.headers@;
    if sender_of(headers) is None {
        Err(Error::MissingSender)
    } else if first_value(headers, "Message-ID"@) is None {
        Err(Error::MissingMessageId)
    } else {
        Ok(
            MessageView {
                sender: sender_of(headers).unwrap(),
                subject: reply_subject(first_value(headers, "Subject"@)),
                body: match plain_text(mail.root) {
                    Some(body) => body,
                    None => Seq::empty(),
                },
                message_id: first_value(headers, "Message-ID"@).unwrap(),
                in_reply_to: first_value(headers, "In-Reply-To"@),
                references: declared_references(headers).push(
                    first_value(headers, "Message-ID"@).unwrap(),
                ),
            },
        )
    }
}

/// The structure that the MIME parser finds in `raw`, or `None` where it finds
/// none: the top-level headers with their names and decoded values, and for each
/// part its content type, its body decoded as text where that succeeds, and its
/// subparts.
pub uninterp spec fn parsed_mail(raw: Seq<u8>) -> Option<Structure>;

/// What `raw` is read as.
pub open spec fn parse_of(raw: Seq<u8>) -> Result<MessageView, Error> {
    match parsed_mail(raw) {
        None => Err(Error::MailParse),
        Some(mail) => message_of(mail),
    }
}

/// `mailparse::ParsedMail`, of which only `part_of` reads anything.
#[verifier::external_type_specification]
#[verifier::external_body]
pub struct ExParsedMail<'a>(mailparse::ParsedMail<'a>);

/// `mailparse::MailParseError`, which is handed on unread.
#[verifier::external_type_specification]
#[verifier::external_body]
pub struct ExMailParseError(mailparse::MailParseError);

/// Copies one part of a `mailparse::ParsedMail` out as plain values: its
/// `ctype.mimetype`, the text that `ParsedMail::get_body` decodes (none where it
/// fails), and its `subparts` in order. Nothing is claimed of the result here.
#[verifier::external_body]
fn part_of(parsed: &mailparse::ParsedMail) -> MailPart {
    MailPart {
        mimetype: parsed.ctype.mimetype.clone(),
        body: parsed.get_body().ok(),
        subparts: parsed.subparts.iter().map(part_of).collect(),
    }
}

/// Calls `mailparse::parse_mail` and copies the result out as plain values: each
/// top-level header by `MailHeader::get_key` and `MailHeader::get_value`, and the
/// part tree. The contract claims that the outcome depends on the bytes alone,
/// and gives it the name `parsed_mail`.
#[verifier::external_body]
fn parse_structure(raw: &[u8]) -> (r: Result<Structure, mailparse::MailParseError>)
    ensures
        r is Ok <==> parsed_mail(raw@) is Some,
        r matches Ok(mail) ==> parsed_mail(raw@) == Some(mail),
{
    let parsed = mailparse::parse_mail(raw)?;
    let headers = parsed.headers.iter().map(
        |h| Header { key: h.get_key(), value: h.get_value() },
    ).collect();
    Ok(Structure { headers, root: part_of(&parsed) })
}

/// Whether two strings hold the same characters.
fn str_eq(a: &str, b: &str) -> (same: bool)
    ensures
        same == (a@ == b@),
{
    let same = a.unicode_len() == b.unicode_len() && starts_with(a, b);
    proof {
        if a@.len() == b@.len() {
            assert(a@.subrange(0, b@.len() as int) =~= a@);
        }
    }
    same
}

/// The value of the first header named `name`, without regard to ASCII case.
pub fn header_value(headers: &Vec<Header>, name: &str) -> (found: Option<String>)
    ensures
        text_of(found) == first_value(headers@, name@),
{
    let mut i: usize = 0;
    while i < headers.len()
        invariant
            i <= headers.len(),
            first_value(headers@, name@) == first_value_from(headers@, name@, i as int),
        decreases headers.len() - i,
    {
        if str_eq_ignore_ascii_case(headers[i].key.as_str(), name) {
            return Some(headers[i].value.clone());
        }
        i += 1;
    }
    None
}

/// The address in a header value, where it holds a usable one.
pub fn sender_address(value: &str) -> (found: Option<String>)
    ensures
        text_of(found) == address_in(value@),
{
    let addr = match find_char(value, '<') {
        Some(start) => match find_char(value, '>') {
            Some(end) => {
                if start < end {
                    trim(value.substring_char(start + 1, end))
                } else {
                    return None;
                }
            },
            None => {
                return None;
            },
        },
        None => trim(value),
    };
    if addr.as_str().unicode_len() == 0 {
        None
    } else {
        Some(addr)
    }
}

/// Whether a subject already carries a reply mark: `re:` in any ASCII case.
pub fn has_reply_mark(subject: &str) -> (marked: bool)
    ensures
        marked == is_reply(subject@),
{
    subject.unicode_len() >= 3 && char_ascii_lower(subject.get_char(0)) == 'r' && char_ascii_lower(
        subject.get_char(1),
    ) == 'e' && subject.get_char(2) == ':'
}

/// The address in an optional header value, where it holds a usable one.
fn address_from(value: Option<String>) -> (found: Option<String>)
    ensures
        text_of(found) == address_of(text_of(value)),
{
    match value {
        Some(value) => sender_address(value.as_str()),
        None => None,
    }
}

/// The subject of a reply: `Re:` for a message without subject, the subject
/// itself where it begins with `re:` in any ASCII case, else `Re: ` and the
/// subject.
pub fn reply_subject_of(subject: Option<String>) -> (out: String)
    ensures
        out@ == reply_subject(text_of(subject)),
{
    match subject {
        None => String::from_str("Re:"),
        Some(s) => {
            if has_reply_mark(s.as_str()) {
                s
            } else {
                let mut out = String::from_str("Re: ");
                out.append(s.as_str());
                out
            }
        },
    }
}

impl Message {
    /// Reads a message from the bytes that a mail transfer agent hands over.
    ///
    /// Fails with `MailParse` where the bytes have no message structure, with
    /// `MissingSender` where neither `Reply-To` nor `From` holds an address, and
    /// with `MissingMessageId` where there is no `Message-ID` header, in that order.
    pub fn parse(raw: &[u8]) -> (r: Result<Message, Error>)
        ensures
            match r {
                Ok(message) => parse_of(raw@) == Ok::<MessageView, Error>(message@)
                    && message@.well_formed(),
                Err(e) => parse_of(raw@) == Err::<MessageView, Error>(e),
            },
    {
        match parse_structure(raw) {
            Ok(mail) => Message::from_structure(&mail),
            Err(_) => Err(Error::MailParse),
        }
    }

    /// Reads a message from its parsed structure.
    pub fn from_structure(mail: &Structure) -> (r: Result<Message, Error>)
        ensures
            match r {
                Ok(message) => message_of(*mail) == Ok::<MessageView, Error>(message@)
                    && message@.well_formed(),
                Err(e) => message_of(*mail) == Err::<MessageView, Error>(e),
            },
    {
        let sender = match address_from(header_value(&mail.headers, "Reply-To")) {
            Some(sender) => sender,
            None => match address_from(header_value(&mail.headers, "From")) {
                Some(sender) => sender,
                None => {
                    return Err(Error::MissingSender);
                },
            },
        };
        proof {
            lemma_sender_is_trimmed(mail.headers@);
        }
        let subject = reply_subject_of(header_value(&mail.headers, "Subject"));
        let body = match Message::extract_body(&mail.root) {
            Some(body) => body,
            None => String::new(),
        };
        let message_id = match header_value(&mail.headers, "Message-ID") {
            Some(id) => id,
            None => {
                return Err(Error::MissingMessageId);
            },
        };
        let in_reply_to = header_value(&mail.headers, "In-Reply-To");
        let mut references = match header_value(&mail.headers, "References") {
            Some(value) => split_whitespace(value.as_str()),
            None => Vec::new(),
        };
        proof {
            assert(views(references@.push(message_id)) =~= views(references@).push(message_id@));
            assert(views(Seq::<String>::empty()) =~= Seq::<Seq<char>>::empty());
        }
        references.push(message_id.clone());
        let message = Message { sender, subject, body, message_id, in_reply_to, references };
        proof {
            assert(message@.references =~= message_of(*mail)->Ok_0.references);
        }
        Ok(message)
    }

    /// The first plain-text body met in a depth-first walk of `part`: a multipart
    /// container is searched part by part, a `text/plain` part gives its body, any
    /// other part gives none.
    pub fn extract_body(part: &MailPart) -> (found: Option<String>)
        ensures
            text_of(found) == plain_text(*part),
        decreases part,
    {
        if starts_with(part.mimetype.as_str(), "multipart/") {
            let mut i: usize = 0;
            while i < part.subparts.len()
                invariant
                    i <= part.subparts.len(),
                    is_multipart(part.mimetype@),
                    plain_text_among(part.subparts, 0) == plain_text_among(part.subparts, i as int),
                decreases part.subparts.len() - i,
            {
                let found = Message::extract_body(&part.subparts[i]);
                proof {
                    assert(plain_text_among(part.subparts, i as int) == match plain_text(
                        part.subparts[i as int],
                    ) {
                        Some(body) => Some(body),
                        None => plain_text_among(part.subparts, i + 1),
                    });
                }
                if found.is_some() {
                    return found;
                }
                i += 1;
            }
            None
        } else if str_eq(part.mimetype.as_str(), "text/plain") {
            part.body.clone()
        } else {
            None
        }
    }
}

/// A message that has a structure but no usable reply address is refused as
/// having no sender, whatever else it holds.
pub proof fn lemma_missing_sender(raw: Seq<u8>)
    requires
        parsed_mail(raw) is Some,
        sender_of(parsed_mail(raw).unwrap().headers@) is None,
    ensures
        parse_of(raw) == Err::<MessageView, Error>(Error::MissingSender),
{
}

/// A message with a usable reply address and no `Message-ID` header is refused
/// as having no identifier.
pub proof fn lemma_missing_message_id(raw: Seq<u8>)
    requires
        parsed_mail(raw) is Some,
        sender_of(parsed_mail(raw).unwrap().headers@) is Some,
        first_value(parsed_mail(raw).unwrap().headers@, "Message-ID"@) is None,
    ensures
        parse_of(raw) == Err::<MessageView, Error>(Error::MissingMessageId),
{
}

/// An address taken from a header value is not empty and has no whitespace
/// around it.
pub proof fn lemma_address_is_trimmed(value: Seq<char>)
    requires
        address_in(value) is Some,
    ensures
        address_in(value)->Some_0.len() > 0,
        trimmed(address_in(value)->Some_0) == address_in(value)->Some_0,
{
    let start = position(value, '<');
    let end = position(value, '>');
    if start < value.len() {
        lemma_trimmed_is_trimmed(value.subrange(start + 1, end));
    } else {
        lemma_trimmed_is_trimmed(value);
    }
}

/// The sender of a message is not empty and has no whitespace around it.
pub proof fn lemma_sender_is_trimmed(headers: Seq<Header>)
    requires
        sender_of(headers) is Some,
    ensures
        sender_of(headers)->Some_0.len() > 0,
        trimmed(sender_of(headers)->Some_0) == sender_of(headers)->Some_0,
{
    if address_of(first_value(headers, "Reply-To"@)) is Some {
        lemma_address_is_trimmed(first_value(headers, "Reply-To"@)->Some_0);
    } else {
        lemma_address_is_trimmed(first_value(headers, "From"@)->Some_0);
    }
}

/// A message is refused as having no sender exactly when neither its
/// `Reply-To` nor its `From` header holds an address: an unusable `Reply-To`
/// does not hide a usable `From`.
pub proof fn lemma_sender_comes_from_reply_to_then_from(headers: Seq<Header>)
    ensures
        sender_of(headers) is None <==> address_of(first_value(headers, "Reply-To"@)) is None
            && address_of(first_value(headers, "From"@)) is None,
        address_of(first_value(headers, "Reply-To"@)) is Some ==> sender_of(headers)
            == address_of(first_value(headers, "Reply-To"@)),
        address_of(first_value(headers, "Reply-To"@)) is None ==> sender_of(headers)
            == address_of(first_value(headers, "From"@)),
{
}

/// A subject that carries a reply mark is its own reply subject.
pub proof fn lemma_reply_subject_keeps_reply(subject: Seq<char>)
    requires
        is_reply(subject),
    ensures
        reply_subject(Some(subject)) == subject,
{
}

/// A reply subject carries a reply mark, so taking the reply subject twice gives
/// what taking it once gives.
pub proof fn lemma_reply_subject_idempotent(subject: Option<Seq<char>>)
    ensures
        is_reply(reply_subject(subject)),
        reply_subject(Some(reply_subject(subject))) == reply_subject(subject),
{
    reveal_strlit("Re:");
    reveal_strlit("Re: ");
    assert(ascii_lower('R') == 'r');
    assert(ascii_lower('e') == 'e');
}

/// The references of a message are the ones it declares, in their order, with its
/// own identifier after them; without a `References` header they are that
/// identifier alone.
pub proof fn lemma_references_accumulate(mail: Structure)
    requires
        message_of(mail) is Ok,
    ensures
        ({
            let message = message_of(mail)->Ok_0;
            let declared = declared_references(mail.headers@);
            &&& message.references == declared.push(message.message_id)
            &&& message.references.len() == declared.len() + 1
            &&& message.references.last() == message.message_id
            &&& forall|i: int| 0 <= i < declared.len() ==> message.references[i] == declared[i]
            &&& first_value(mail.headers@, "References"@) is None ==> message.references
                == seq![message.message_id]
        }),
{
    let message = message_of(mail)->Ok_0;
    assert(Seq::<Seq<char>>::empty().push(message.message_id) =~= seq![message.message_id]);
}

} // verus!
