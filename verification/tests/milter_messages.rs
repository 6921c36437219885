use mailcore::message::{AuthenticatedMessage, Header};
use mailcore::milter::message::{Command, Milter, MilterRun, Stage, Transport};
use mailcore::milter::{strip_brackets, Action, Error, Modification, Rejection};
use mailcore::reporting::types::IpAddress;
use mailcore::session::{Session, SessionAddress, SessionData};

fn data() -> SessionData {
    SessionData {
        session_id: 1,
        remote_ip: IpAddress::V6(1),
        helo_domain: "client.example".to_string(),
        mail_from: None,
        rcpt_to: vec![rcpt("first@example.org")],
        spf_ehlo: None,
        spf_mail_from: None,
    }
}

fn rcpt(address: &str) -> SessionAddress {
    SessionAddress {
        address: address.to_string(),
        address_lcase: address.to_lowercase(),
        domain: address.rsplit_once('@').map(|(_, d)| d.to_lowercase()).unwrap_or_default(),
        flags: 0,
        dsn_info: None,
    }
}

fn message() -> AuthenticatedMessage {
    AuthenticatedMessage {
        from: "a@example.org".to_string(),
        headers: vec![
            Header { name: b"From".to_vec(), value: b" a@example.org\r\n".to_vec() },
            Header { name: b"X-Tag".to_vec(), value: b" one\r\n".to_vec() },
            Header { name: b"Subject".to_vec(), value: b" hi\r\n".to_vec() },
            Header { name: b"x-tag".to_vec(), value: b" two\r\n".to_vec() },
        ],
        raw_headers: b"From: a@example.org\r\nX-Tag: one\r\nSubject: hi\r\nx-tag: two\r\n\r\n".to_vec(),
        raw_body: b"body\r\n".to_vec(),
    }
}

fn text(bytes: Option<Vec<u8>>) -> Option<String> {
    bytes.map(|b| String::from_utf8(b).unwrap())
}

#[test]
fn strip_brackets_cases() {
    assert_eq!(strip_brackets("<a@b.c>"), "a@b.c");
    assert_eq!(strip_brackets("  <a@b.c>  "), "a@b.c");
    assert_eq!(strip_brackets("< a@b.c > trailing"), "a@b.c");
    assert_eq!(strip_brackets("<a@b.c"), "a@b.c");
    assert_eq!(strip_brackets("<<a>b>c>"), "<a>b>c");
    assert_eq!(strip_brackets("a@b.c"), "a@b.c");
    assert_eq!(strip_brackets(" \t a@b.c\r\n"), "a@b.c");
    assert_eq!(strip_brackets("a@b.c>"), "a@b.c>");
    assert_eq!(strip_brackets("\u{a0}<\u{2003}x\u{3000}>"), "x");
    assert_eq!(strip_brackets(""), "");
    assert_eq!(strip_brackets("   "), "");
    assert_eq!(strip_brackets("<>"), "");
    // U+200B is no white space
    assert_eq!(strip_brackets("\u{200b}a"), "\u{200b}a");
}

#[test]
fn assert_continue_lets_only_two_actions_pass() {
    assert!(Action::Continue.assert_continue().is_ok());
    assert!(Action::Accept.assert_continue().is_ok());
    assert!(matches!(Action::Reject.assert_continue(), Err(Rejection::Action(Action::Reject))));
    assert!(matches!(Action::Discard.assert_continue(), Err(Rejection::Action(Action::Discard))));
    assert!(matches!(
        Action::ReplyCode { code: *b"550", text: "no".to_string() }.assert_continue(),
        Err(Rejection::Action(Action::ReplyCode { .. }))
    ));
    assert!(matches!(Rejection::from(Error::Timeout), Rejection::Error(Error::Timeout)));
}

#[test]
fn change_sender_and_recipients() {
    let mut data = data();
    let changed = data.apply_modifications(
        vec![
            Modification::ChangeFrom {
                sender: " <New.Sender@Example.ORG> ".to_string(),
                args: "BODY=8BITMIME ENVID=abc123 RET=HDRS".to_string(),
            },
            Modification::AddRcpt {
                recipient: "<Second@Example.org>".to_string(),
                args: "NOTIFY=SUCCESS,FAILURE".to_string(),
            },
            Modification::AddRcpt { recipient: "no-at-sign".to_string(), args: String::new() },
            Modification::AddRcpt { recipient: "FIRST@example.org".to_string(), args: String::new() },
            Modification::AddRcpt {
                recipient: "third@example.org".to_string(),
                args: "NOTIFY=BOGUS".to_string(),
            },
        ],
        &message(),
    );
    assert!(changed.is_none());
    let sender = data.mail_from.as_ref().unwrap();
    assert_eq!(sender.address, "New.Sender@Example.ORG");
    assert_eq!(sender.address_lcase, "new.sender@example.org");
    assert_eq!(sender.domain, "example.org");
    assert_eq!(sender.flags, smtp_proto::MAIL_BODY_8BITMIME | smtp_proto::MAIL_RET_HDRS);
    assert_eq!(sender.dsn_info.as_deref(), Some("abc123"));
    let addresses: Vec<&str> = data.rcpt_to.iter().map(|r| r.address_lcase.as_str()).collect();
    assert_eq!(addresses, vec!["first@example.org", "second@example.org", "third@example.org"]);
    assert_eq!(
        data.rcpt_to[1].flags,
        smtp_proto::RCPT_NOTIFY_SUCCESS | smtp_proto::RCPT_NOTIFY_FAILURE
    );
    assert_eq!(data.rcpt_to[1].address, "Second@Example.org");
    // parameters that cannot be read are passed over
    assert_eq!(data.rcpt_to[2].flags, 0);
    assert_eq!(data.rcpt_to[2].dsn_info, None);

    let changed = data.apply_modifications(
        vec![
            Modification::DeleteRcpt { recipient: "<first@example.org>".to_string() },
            Modification::DeleteRcpt { recipient: "THIRD@example.org".to_string() },
            Modification::ChangeFrom { sender: "plain@example.org".to_string(), args: String::new() },
        ],
        &message(),
    );
    assert!(changed.is_none());
    let addresses: Vec<&str> = data.rcpt_to.iter().map(|r| r.address_lcase.as_str()).collect();
    // the address is compared as it is written
    assert_eq!(addresses, vec!["second@example.org", "third@example.org"]);
    assert_eq!(data.mail_from.as_ref().unwrap().flags, 0);
}

#[test]
fn body_replacement_keeps_the_headers() {
    let mut data = data();
    let changed = data.apply_modifications(
        vec![
            Modification::ReplaceBody { value: b"new ".to_vec() },
            Modification::ReplaceBody { value: b"body".to_vec() },
        ],
        &message(),
    );
    assert_eq!(
        text(changed).as_deref(),
        Some("From: a@example.org\r\nX-Tag: one\r\nSubject: hi\r\nx-tag: two\r\n\r\nnew body")
    );
    assert!(data.apply_modifications(vec![], &message()).is_none());
    assert!(data
        .apply_modifications(vec![Modification::ReplaceBody { value: vec![] }], &message())
        .is_none());
}

#[test]
fn added_headers_go_in_front() {
    let mut data = data();
    let changed = data.apply_modifications(
        vec![
            Modification::AddHeader { name: "X-One".to_string(), value: "1".to_string() },
            Modification::Quarantine { reason: "spam\n".to_string() },
            Modification::ChangeHeader {
                index: 1,
                name: "X-Missing".to_string(),
                value: "added".to_string(),
            },
        ],
        &message(),
    );
    assert_eq!(
        text(changed).as_deref(),
        Some(
            "X-One: 1\r\nX-Quarantine: spam\nX-Missing: added\r\nFrom: a@example.org\r\nX-Tag: one\r\nSubject: hi\r\nx-tag: two\r\n\r\nbody\r\n"
        )
    );
}

#[test]
fn header_changes_rewrite_the_header_section() {
    let mut data = data();
    let changed = data.apply_modifications(
        vec![
            Modification::ChangeHeader { index: 2, name: "X-TAG".to_string(), value: "2!".to_string() },
            Modification::ReplaceBody { value: b"B".to_vec() },
        ],
        &message(),
    );
    assert_eq!(
        text(changed).as_deref(),
        Some("From: a@example.org\r\nX-Tag: one\r\nSubject: hi\r\nx-tag: 2!\r\n\r\nB")
    );

    // an empty value removes the header
    let changed = data.apply_modifications(
        vec![Modification::ChangeHeader { index: 1, name: "x-tag".to_string(), value: String::new() }],
        &message(),
    );
    assert_eq!(
        text(changed).as_deref(),
        Some("From: a@example.org\r\nSubject: hi\r\nx-tag: two\r\n\r\nbody\r\n")
    );

    // no such occurrence: nothing changes, but the section is written anew
    let changed = data.apply_modifications(
        vec![Modification::ChangeHeader { index: 3, name: "x-tag".to_string(), value: "x".to_string() }],
        &message(),
    );
    assert_eq!(
        text(changed).as_deref(),
        Some("From: a@example.org\r\nX-Tag: one\r\nSubject: hi\r\nx-tag: two\r\n\r\nbody\r\n")
    );
    let changed = data.apply_modifications(
        vec![Modification::ChangeHeader { index: 0, name: "x-tag".to_string(), value: "x".to_string() }],
        &message(),
    );
    assert_eq!(
        text(changed).as_deref(),
        Some("From: a@example.org\r\nX-Tag: one\r\nSubject: hi\r\nx-tag: two\r\n\r\nbody\r\n")
    );
}

#[test]
fn inserted_headers_find_their_place() {
    let mut data = data();
    let insert = |index: u32, name: &str| Modification::InsertHeader {
        index,
        name: name.to_string(),
        value: "v".to_string(),
    };
    let expect = |data: &mut SessionData, index: u32, name: &str, expected: &str| {
        let changed = data.apply_modifications(vec![insert(index, name)], &message());
        assert_eq!(text(changed).as_deref(), Some(expected), "index {} name {}", index, name);
    };
    expect(
        &mut data,
        0,
        "X-New",
        "X-New: v\r\nFrom: a@example.org\r\nX-Tag: one\r\nSubject: hi\r\nx-tag: two\r\n\r\nbody\r\n",
    );
    expect(
        &mut data,
        1,
        "X-Tag",
        "From: a@example.org\r\nX-Tag: v\r\nX-Tag: one\r\nSubject: hi\r\nx-tag: two\r\n\r\nbody\r\n",
    );
    expect(
        &mut data,
        2,
        "X-Tag",
        "From: a@example.org\r\nX-Tag: one\r\nSubject: hi\r\nX-Tag: v\r\nx-tag: two\r\n\r\nbody\r\n",
    );
    // fewer than five: in front of the last of the name
    expect(
        &mut data,
        5,
        "X-Tag",
        "From: a@example.org\r\nX-Tag: one\r\nSubject: hi\r\nX-Tag: v\r\nx-tag: two\r\n\r\nbody\r\n",
    );
    // none of the name: at the top
    expect(
        &mut data,
        3,
        "X-None",
        "X-None: v\r\nFrom: a@example.org\r\nX-Tag: one\r\nSubject: hi\r\nx-tag: two\r\n\r\nbody\r\n",
    );
}

#[test]
fn changes_apply_in_order() {
    let mut data = data();
    let changed = data.apply_modifications(
        vec![
            Modification::InsertHeader { index: 1, name: "Subject".to_string(), value: "first".to_string() },
            Modification::ChangeHeader { index: 2, name: "subject".to_string(), value: " changed".to_string() },
            Modification::AddHeader { name: "X-Top".to_string(), value: "t".to_string() },
        ],
        &message(),
    );
    assert_eq!(
        text(changed).as_deref(),
        Some(
            "X-Top: t\r\nFrom: a@example.org\r\nX-Tag: one\r\nSubject: first\r\nSubject: changed\r\nx-tag: two\r\n\r\nbody\r\n"
        )
    );
}

fn ok(changes: Vec<Modification>) -> MilterRun {
    MilterRun { tempfail_on_error: false, outcome: Ok(changes) }
}

fn session() -> Session {
    Session { data: data() }
}

#[test]
fn run_milters_gathers_changes() {
    let result = session()
        .run_milters(vec![
            ok(vec![
                Modification::ReplaceBody { value: b"one".to_vec() },
                Modification::AddHeader { name: "A".to_string(), value: "1".to_string() },
            ]),
            MilterRun { tempfail_on_error: false, outcome: Err(Rejection::Error(Error::Timeout)) },
            ok(vec![]),
            ok(vec![Modification::ReplaceBody { value: b"two".to_vec() }]),
        ])
        .unwrap();
    assert_eq!(result.len(), 2);
    assert!(matches!(&result[0], Modification::AddHeader { name, .. } if name == "A"));
    assert!(matches!(&result[1], Modification::ReplaceBody { value } if value == b"two"));
    assert!(session().run_milters(vec![]).unwrap().is_empty());
}

#[test]
fn run_milters_replies() {
    let reply = |run: MilterRun| {
        String::from_utf8(
            session()
                .run_milters(vec![ok(vec![]), run, ok(vec![])])
                .expect_err("the filter ends the handling"),
        )
        .unwrap()
    };
    let action = |action: Action| MilterRun {
        tempfail_on_error: false,
        outcome: Err(Rejection::Action(action)),
    };
    assert_eq!(reply(action(Action::Discard)), "250 2.0.0 Message queued for delivery.\r\n");
    assert_eq!(reply(action(Action::Reject)), "503 5.5.3 Message rejected.\r\n");
    assert_eq!(
        reply(action(Action::TempFail)),
        "451 4.3.5 Unable to accept message at this time.\r\n"
    );
    assert_eq!(reply(action(Action::Shutdown)), "421 4.3.0 Server shutting down.\r\n");
    assert_eq!(reply(action(Action::ConnectionFailure)), "");
    assert_eq!(
        reply(action(Action::ReplyCode { code: *b"554", text: "5.7.1 No".to_string() })),
        "554 5.7.1 No\r\n"
    );
    assert_eq!(
        reply(action(Action::ReplyCode { code: *b"554", text: "5.7.1 No\n".to_string() })),
        "554 5.7.1 No\n"
    );
    assert_eq!(
        reply(MilterRun { tempfail_on_error: true, outcome: Err(Rejection::Error(Error::Io)) }),
        "451 4.3.5 Unable to accept message at this time.\r\n"
    );
}

#[test]
fn conversation_goes_through_its_stages() {
    let mut session = session();
    session.data.rcpt_to.push(rcpt("second@example.org"));
    session.data.mail_from = Some(rcpt("Sender@example.org"));
    let mut stage = Stage::Connect;
    let mut seen = vec![stage];
    while let Some(next) = session.run(stage, Action::Continue).unwrap() {
        seen.push(next);
        stage = next;
    }
    assert_eq!(seen, vec![
        Stage::Connect,
        Stage::Helo,
        Stage::MailFrom,
        Stage::RcptTo(0),
        Stage::RcptTo(1),
        Stage::Headers,
        Stage::Data,
        Stage::Body
    ]);
    assert!(matches!(
        session.run(Stage::Helo, Action::TempFail),
        Err(Rejection::Action(Action::TempFail))
    ));
    assert_eq!(session.run(Stage::Data, Action::Accept).unwrap(), Some(Stage::Body));

    assert!(matches!(
        session.command(Stage::Connect, None),
        Command::Connection { hostname, client_ptr } if hostname == "client.example" && client_ptr == "unknown"
    ));
    assert!(matches!(
        session.command(Stage::Connect, Some("ptr.example")),
        Command::Connection { hostname, client_ptr } if hostname == "ptr.example" && client_ptr == "ptr.example"
    ));
    assert!(matches!(
        session.command(Stage::MailFrom, None),
        Command::MailFrom { address } if address == "<sender@example.org>"
    ));
    assert!(matches!(
        session.command(Stage::RcptTo(1), None),
        Command::RcptTo { address } if address == "<second@example.org>"
    ));
    session.data.rcpt_to.clear();
    assert_eq!(session.run(Stage::MailFrom, Action::Continue).unwrap(), Some(Stage::Headers));
}

#[test]
fn transport_of_a_filter() {
    let milter = |tls: bool, any: bool| Milter {
        enable: true,
        hostname: "filter.example".to_string(),
        port: 11332,
        tls,
        tls_allow_invalid_certs: any,
        tempfail_on_error: true,
    };
    assert_eq!(session().connect_and_run(&milter(false, true)), Transport::Plain);
    assert_eq!(session().connect_and_run(&milter(true, false)), Transport::Tls);
    assert_eq!(session().connect_and_run(&milter(true, true)), Transport::TlsUnverified);
}

#[test]
fn white_space_is_what_the_standard_library_trims() {
    for code in 0..=0x11_0000u32 {
        let Some(c) = char::from_u32(code) else { continue };
        if c == '<' {
            continue;
        }
        let text = format!("{c}x{c}");
        assert_eq!(strip_brackets(&text), text.trim(), "U+{code:04X}");
    }
}
