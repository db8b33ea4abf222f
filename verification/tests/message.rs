use lab::error::Error;
use lab::message::{
    has_reply_mark, header_value, reply_subject_of, sender_address, Header, MailPart, Message, Structure,
};
use lab::text::{
    char_is_whitespace, find_char, split_whitespace, starts_with, str_eq_ignore_ascii_case, trim,
};

fn leaf(mimetype: &str, body: Option<&str>) -> MailPart {
    MailPart { mimetype: mimetype.to_string(), body: body.map(String::from), subparts: Vec::new() }
}

fn container(mimetype: &str, subparts: Vec<MailPart>) -> MailPart {
    MailPart { mimetype: mimetype.to_string(), body: None, subparts }
}

fn header(key: &str, value: &str) -> Header {
    Header { key: key.to_string(), value: value.to_string() }
}

fn subject_case(input: &[u8], expected: &str) {
    let message = Message::parse(input).unwrap();
    assert_eq!(message.subject, expected);
}

#[test]
fn extract_body_plain_text() {
    let raw = b"From: foo@bar.com\r\nMessage-ID: <foo@bar>\r\nContent-Type: text/plain\r\n\r\nbaz";
    let message = Message::parse(raw).unwrap();
    assert_eq!(message.body, "baz");
}

#[test]
fn extract_body_multipart_alternative() {
    let raw = b"From: foo@bar.com\r\nMessage-ID: <foo@bar>\r\n\
            Content-Type: multipart/alternative; boundary=bound\r\n\r\n\
            --bound\r\n\
            Content-Type: text/plain\r\n\r\n\
            baz\r\n\
            --bound\r\n\
            Content-Type: text/html\r\n\r\n\
            <p>baz</p>\r\n\
            --bound--\r\n";
    let message = Message::parse(raw).unwrap();
    assert_eq!(message.body, "baz\r\n");
}

#[test]
fn subject() {
    subject_case(b"From: foo@bar.com\r\nMessage-ID: <foo@bar>\r\n\r\n", "Re:");
    subject_case(
        b"From: foo@bar.com\r\nMessage-ID: <foo@bar>\r\nSubject: foo\r\n\r\n",
        "Re: foo",
    );
    subject_case(
        b"From: foo@bar.com\r\nMessage-ID: <foo@bar>\r\nSubject: Re: foo\r\n\r\n",
        "Re: foo",
    );
    subject_case(
        b"From: foo@bar.com\r\nMessage-ID: <foo@bar>\r\nSubject: re: foo\r\n\r\n",
        "re: foo",
    );
    subject_case(
        b"From: foo@bar.com\r\nMessage-ID: <foo@bar>\r\nSubject: RE: foo\r\n\r\n",
        "RE: foo",
    );
}

#[test]
fn message_missing_sender() {
    let raw = b"From: \r\nMessage-ID: <foo@bar>\r\nContent-Type: text/plain\r\n\r\nbaz";
    assert!(Message::parse(raw).is_err());
}

#[test]
fn message_missing_message_id() {
    let raw = b"From: foo@bar.com\r\nContent-Type: text/plain\r\n\r\nbaz";
    assert!(Message::parse(raw).is_err());
}

#[test]
fn references() {
    let raw = b"From: foo@bar.com\r\nMessage-ID: <baz@bar>\r\n\
                References: <foo@bar> <bar@bar>\r\n\r\n";
    let message = Message::parse(raw).unwrap();
    assert_eq!(message.references, ["<foo@bar>", "<bar@bar>", "<baz@bar>"]);
}

#[test]
fn references_without_existing() {
    let raw = b"From: foo@bar.com\r\nMessage-ID: <baz@bar>\r\n\r\n";
    let message = Message::parse(raw).unwrap();
    assert_eq!(message.references, ["<baz@bar>"]);
}

#[test]
fn missing_sender_is_reported_as_such() {
    let raw = b"From: \r\nMessage-ID: <foo@bar>\r\nContent-Type: text/plain\r\n\r\nbaz";
    assert_eq!(Message::parse(raw), Err(Error::MissingSender));
    let raw = b"Message-ID: <foo@bar>\r\n\r\nbaz";
    assert_eq!(Message::parse(raw), Err(Error::MissingSender));
}

#[test]
fn missing_sender_comes_before_missing_message_id() {
    let raw = b"Subject: foo\r\n\r\nbaz";
    assert_eq!(Message::parse(raw), Err(Error::MissingSender));
}

#[test]
fn missing_message_id_is_reported_as_such() {
    let raw = b"From: foo@bar.com\r\nContent-Type: text/plain\r\n\r\nbaz";
    assert_eq!(Message::parse(raw), Err(Error::MissingMessageId));
}

#[test]
fn parse_reads_every_field() {
    let raw = b"From: Foo <foo@bar.com>\r\nMessage-ID: <c@bar>\r\nIn-Reply-To: <b@bar>\r\n\
                References: <a@bar>\r\n <b@bar>\r\nSubject: hello\r\n\r\nbody text";
    let message = Message::parse(raw).unwrap();
    assert_eq!(message.sender, "foo@bar.com");
    assert_eq!(message.subject, "Re: hello");
    assert_eq!(message.body, "body text");
    assert_eq!(message.message_id, "<c@bar>");
    assert_eq!(message.in_reply_to, Some("<b@bar>".to_string()));
    assert_eq!(message.references, ["<a@bar>", "<b@bar>", "<c@bar>"]);
}

#[test]
fn parse_without_in_reply_to() {
    let raw = b"From: foo@bar.com\r\nMessage-ID: <c@bar>\r\n\r\n";
    let message = Message::parse(raw).unwrap();
    assert_eq!(message.in_reply_to, None);
}

#[test]
fn reply_to_is_preferred_over_from() {
    let raw = b"From: foo@bar.com\r\nReply-To: <list@bar.com>\r\nMessage-ID: <c@bar>\r\n\r\n";
    let message = Message::parse(raw).unwrap();
    assert_eq!(message.sender, "list@bar.com");
}

#[test]
fn unusable_reply_to_gives_way_to_from() {
    let raw = b"From: foo@bar.com\r\nReply-To: <>\r\nMessage-ID: <c@bar>\r\n\r\n";
    assert_eq!(Message::parse(raw).unwrap().sender, "foo@bar.com");
    let raw = b"Reply-To: < >\r\nFrom: Foo <foo@bar.com>\r\nMessage-ID: <c@bar>\r\n\r\n";
    assert_eq!(Message::parse(raw).unwrap().sender, "foo@bar.com");
    let raw = b"Reply-To: <>\r\nFrom: < >\r\nMessage-ID: <c@bar>\r\n\r\n";
    assert_eq!(Message::parse(raw), Err(Error::MissingSender));
}

#[test]
fn blank_sender_is_no_sender() {
    let raw = b"From: < >\r\nMessage-ID: <c@bar>\r\n\r\n";
    assert_eq!(Message::parse(raw), Err(Error::MissingSender));
    let raw = b"From: Foo < \t>\r\nMessage-ID: <c@bar>\r\n\r\n";
    assert_eq!(Message::parse(raw), Err(Error::MissingSender));
}

#[test]
fn subject_mark_in_any_case() {
    subject_case(
        b"From: foo@bar.com\r\nMessage-ID: <foo@bar>\r\nSubject: rE: foo\r\n\r\n",
        "rE: foo",
    );
}

#[test]
fn html_only_message_has_empty_body() {
    let raw = b"From: foo@bar.com\r\nMessage-ID: <c@bar>\r\nContent-Type: text/html\r\n\r\n<p>x</p>";
    let message = Message::parse(raw).unwrap();
    assert_eq!(message.body, "");
}

#[test]
fn header_names_match_without_case() {
    let raw = b"FROM: foo@bar.com\r\nmessage-id: <c@bar>\r\nSUBJECT: x\r\n\r\n";
    let message = Message::parse(raw).unwrap();
    assert_eq!(message.sender, "foo@bar.com");
    assert_eq!(message.message_id, "<c@bar>");
    assert_eq!(message.subject, "Re: x");
}

#[test]
fn from_structure_reads_every_field() {
    let mail = Structure {
        headers: vec![
            header("from", "  foo@bar.com \t"),
            header("Message-Id", "<m@x>"),
            header("References", " <a@x>\t<b@x>  "),
            header("Subject", "re: thing"),
        ],
        root: container(
            "multipart/mixed",
            vec![
                leaf("text/html", Some("<p>no</p>")),
                container("multipart/alternative", vec![leaf("text/plain", Some("yes"))]),
                leaf("text/plain", Some("later")),
            ],
        ),
    };
    let message = Message::from_structure(&mail).unwrap();
    assert_eq!(message.sender, "foo@bar.com");
    assert_eq!(message.subject, "re: thing");
    assert_eq!(message.body, "yes");
    assert_eq!(message.message_id, "<m@x>");
    assert_eq!(message.in_reply_to, None);
    assert_eq!(message.references, ["<a@x>", "<b@x>", "<m@x>"]);
}

#[test]
fn from_structure_reports_each_error() {
    let mail = Structure { headers: vec![header("Message-ID", "<m@x>")], root: leaf("text/plain", None) };
    assert_eq!(Message::from_structure(&mail), Err(Error::MissingSender));
    let mail = Structure { headers: vec![header("From", "a@b")], root: leaf("text/plain", None) };
    assert_eq!(Message::from_structure(&mail), Err(Error::MissingMessageId));
}

#[test]
fn extract_body_walks_depth_first() {
    let tree = container(
        "multipart/mixed",
        vec![
            container("multipart/related", vec![leaf("image/png", Some("x"))]),
            container(
                "multipart/alternative",
                vec![leaf("text/plain", Some("first")), leaf("text/plain", Some("second"))],
            ),
        ],
    );
    assert_eq!(Message::extract_body(&tree), Some("first".to_string()));
}

#[test]
fn extract_body_skips_undecodable_plain_text() {
    let tree = container(
        "multipart/mixed",
        vec![leaf("text/plain", None), leaf("text/plain", Some("readable"))],
    );
    assert_eq!(Message::extract_body(&tree), Some("readable".to_string()));
}

#[test]
fn extract_body_finds_nothing() {
    assert_eq!(Message::extract_body(&leaf("text/html", Some("x"))), None);
    assert_eq!(Message::extract_body(&leaf("text/plainer", Some("x"))), None);
    assert_eq!(Message::extract_body(&container("multipart/mixed", vec![])), None);
    let odd = MailPart {
        mimetype: "application/x".to_string(),
        body: None,
        subparts: vec![leaf("text/plain", Some("hidden"))],
    };
    assert_eq!(Message::extract_body(&odd), None);
}

#[test]
fn sender_address_forms() {
    assert_eq!(sender_address("Foo Bar <foo@bar.com>"), Some("foo@bar.com".to_string()));
    assert_eq!(sender_address("  foo@bar.com\r\n"), Some("foo@bar.com".to_string()));
    assert_eq!(sender_address("<a@b> <c@d>"), Some("a@b".to_string()));
    assert_eq!(sender_address(""), None);
    assert_eq!(sender_address("   "), None);
    assert_eq!(sender_address("<>"), None);
    assert_eq!(sender_address("< >"), None);
    assert_eq!(sender_address("Foo < foo@bar.com\t>"), Some("foo@bar.com".to_string()));
    assert_eq!(sender_address("Foo <foo@bar.com"), None);
    assert_eq!(sender_address("> <"), None);
    assert_eq!(sender_address("a > b <c"), None);
}

#[test]
fn reply_subject_forms() {
    assert_eq!(reply_subject_of(None), "Re:");
    assert_eq!(reply_subject_of(Some("".to_string())), "Re: ");
    assert_eq!(reply_subject_of(Some("foo".to_string())), "Re: foo");
    assert_eq!(reply_subject_of(Some("Re:foo".to_string())), "Re:foo");
    assert_eq!(reply_subject_of(Some("rE: foo".to_string())), "rE: foo");
    assert_eq!(reply_subject_of(Some("re:".to_string())), "re:");
    assert_eq!(reply_subject_of(Some("Re foo".to_string())), "Re: Re foo");
    assert_eq!(reply_subject_of(Some(" Re: foo".to_string())), "Re:  Re: foo");
    assert_eq!(reply_subject_of(Some("Re".to_string())), "Re: Re");
}

#[test]
fn reply_subject_is_idempotent() {
    for subject in
        [None, Some(""), Some("foo"), Some("Re: foo"), Some("re: x"), Some("RE:"), Some("rE: y")]
    {
        let once = reply_subject_of(subject.map(String::from));
        let twice = reply_subject_of(Some(once.clone()));
        assert_eq!(once, twice);
    }
}

#[test]
fn header_value_takes_the_first_match() {
    let headers =
        vec![header("X-One", "1"), header("subject", "a"), header("Subject", "b")];
    assert_eq!(header_value(&headers, "Subject"), Some("a".to_string()));
    assert_eq!(header_value(&headers, "SUBJECT"), Some("a".to_string()));
    assert_eq!(header_value(&headers, "Subjec"), None);
    assert_eq!(header_value(&Vec::new(), "Subject"), None);
}

#[test]
fn text_scanning() {
    assert_eq!(find_char("a<b<", '<'), Some(1));
    assert_eq!(find_char("abc", '<'), None);
    assert_eq!(find_char("é<", '<'), Some(1));
    assert_eq!(trim(" \t a b \u{a0}\n"), "a b");
    assert_eq!(trim(""), "");
    assert_eq!(trim(" \u{3000} "), "");
    assert_eq!(split_whitespace(" a  bc\td\r\n"), ["a", "bc", "d"]);
    assert_eq!(split_whitespace("abc"), ["abc"]);
    assert!(split_whitespace("  \n").is_empty());
    assert!(starts_with("multipart/mixed", "multipart/"));
    assert!(!starts_with("multipart", "multipart/"));
    assert!(starts_with("x", ""));
    assert!(str_eq_ignore_ascii_case("Message-ID", "message-id"));
    assert!(!str_eq_ignore_ascii_case("Message-ID", "message_id"));
    assert!(!str_eq_ignore_ascii_case("ab", "abc"));
}

#[test]
fn whitespace_is_what_std_calls_whitespace() {
    for n in 0u32..0x3100 {
        if let Some(c) = char::from_u32(n) {
            assert_eq!(char_is_whitespace(c), c.is_whitespace());
        }
    }
}

#[test]
fn split_whitespace_agrees_with_std() {
    for text in ["", " ", "a", " a ", "a b", "\u{2003}x\u{85}y z\u{3000}", "<a> <b>\r\n\t<c>"] {
        let expected: Vec<String> = text.split_whitespace().map(String::from).collect();
        assert_eq!(split_whitespace(text), expected);
        assert_eq!(trim(text), text.trim());
    }
}

#[test]
fn malformed_message_is_reported_as_such() {
    assert_eq!(Message::parse(b" From: foo@bar.com\r\n\r\nbaz"), Err(Error::MailParse));
    assert_eq!(Message::parse(b"From: foo@bar.com\r\n\rbaz"), Err(Error::MailParse));
    assert_eq!(Message::parse(b"no colon in sight"), Err(Error::MissingSender));
}

#[test]
fn reply_marks() {
    for marked in ["Re:", "re:", "RE:", "rE:", "Re: x", "rE:x"] {
        assert!(has_reply_mark(marked));
    }
    for plain in ["", "Re", "R e:", "Res:", " Re:", "Fwd: Re:"] {
        assert!(!has_reply_mark(plain));
    }
}
