use mailcore::imap::append::{ImapUidToId, IngestError, MailboxId, ResponseCode, Session};
use mailcore::imap::list::{Arguments, ReturnOption, SelectionOption, Status};
use mailcore::imap::receiver::{Command, Request, Token};
use mailcore::imap::utf7::{utf7_decode, utf7_maybe_decode, ProtocolVersion};
use mailcore::managesieve::Session as SieveSession;

/// Splits a command line into its tag, its command and its tokens.
fn receive(line: &str) -> Request {
    let line = line.trim_end_matches("\r\n");
    let mut words = line.splitn(3, ' ');
    let tag = words.next().unwrap().to_string();
    assert!(words.next().unwrap().eq_ignore_ascii_case("LIST"));
    let rest = words.next().unwrap_or("");
    let mut tokens = Vec::new();
    let mut chars = rest.chars().peekable();
    while let Some(c) = chars.next() {
        match c {
            ' ' => {}
            '(' => tokens.push(Token::ParenthesisOpen),
            ')' => tokens.push(Token::ParenthesisClose),
            '"' => {
                let mut value = String::new();
                for c in chars.by_ref() {
                    if c == '"' {
                        break;
                    }
                    value.push(c);
                }
                tokens.push(Token::Argument(value.into_bytes()));
            }
            c => {
                let mut value = String::from(c);
                while let Some(&next) = chars.peek() {
                    if next == ' ' || next == '(' || next == ')' {
                        break;
                    }
                    value.push(next);
                    chars.next();
                }
                tokens.push(Token::Argument(value.into_bytes()));
            }
        }
    }
    Request { tag, command: Command::List, tokens }
}

fn words(tokens: &[&str]) -> Vec<Token> {
    tokens
        .iter()
        .map(|t| match *t {
            "(" => Token::ParenthesisOpen,
            ")" => Token::ParenthesisClose,
            "[" => Token::BracketOpen,
            "NIL" => Token::Nil,
            other => Token::Argument(other.as_bytes().to_vec()),
        })
        .collect()
}

fn parse(tokens: &[&str]) -> Result<Arguments, String> {
    Request { tag: "t1".to_string(), command: Command::List, tokens: words(tokens) }
        .parse_list(ProtocolVersion::Rev2)
        .map_err(|error| {
            assert_eq!(error.tag, "t1");
            error.message
        })
}

#[test]
fn parse_list() {
    for (command, arguments) in [
        (
            "A682 LIST \"\" *\r\n",
            Arguments::Basic {
                tag: "A682".into(),
                reference_name: "".into(),
                mailbox_name: "*".into(),
            },
        ),
        (
            "A02 LIST (SUBSCRIBED) \"\" \"*\"\r\n",
            Arguments::Extended {
                tag: "A02".into(),
                reference_name: "".into(),
                mailbox_name: vec!["*".into()],
                selection_options: vec![SelectionOption::Subscribed],
                return_options: vec![],
            },
        ),
        (
            "A03 LIST () \"\" \"%\" RETURN (CHILDREN)\r\n",
            Arguments::Extended {
                tag: "A03".into(),
                reference_name: "".into(),
                mailbox_name: vec!["%".into()],
                selection_options: vec![],
                return_options: vec![ReturnOption::Children],
            },
        ),
        (
            "A04 LIST (REMOTE) \"\" \"%\" RETURN (CHILDREN)\r\n",
            Arguments::Extended {
                tag: "A04".into(),
                reference_name: "".into(),
                mailbox_name: vec!["%".into()],
                selection_options: vec![SelectionOption::Remote],
                return_options: vec![ReturnOption::Children],
            },
        ),
        (
            "A05 LIST (REMOTE SUBSCRIBED) \"\" \"*\"\r\n",
            Arguments::Extended {
                tag: "A05".into(),
                reference_name: "".into(),
                mailbox_name: vec!["*".into()],
                selection_options: vec![SelectionOption::Remote, SelectionOption::Subscribed],
                return_options: vec![],
            },
        ),
        (
            "A06 LIST (REMOTE) \"\" \"*\" RETURN (SUBSCRIBED)\r\n",
            Arguments::Extended {
                tag: "A06".into(),
                reference_name: "".into(),
                mailbox_name: vec!["*".into()],
                selection_options: vec![SelectionOption::Remote],
                return_options: vec![ReturnOption::Subscribed],
            },
        ),
        (
            "C04 LIST (SUBSCRIBED RECURSIVEMATCH) \"\" \"%\"\r\n",
            Arguments::Extended {
                tag: "C04".into(),
                reference_name: "".into(),
                mailbox_name: vec!["%".into()],
                selection_options: vec![
                    SelectionOption::Subscribed,
                    SelectionOption::RecursiveMatch,
                ],
                return_options: vec![],
            },
        ),
        (
            "C04 LIST (SUBSCRIBED RECURSIVEMATCH) \"\" \"%\" RETURN (CHILDREN)\r\n",
            Arguments::Extended {
                tag: "C04".into(),
                reference_name: "".into(),
                mailbox_name: vec!["%".into()],
                selection_options: vec![
                    SelectionOption::Subscribed,
                    SelectionOption::RecursiveMatch,
                ],
                return_options: vec![ReturnOption::Children],
            },
        ),
        (
            "a1 LIST \"\" (\"foo\")\r\n",
            Arguments::Extended {
                tag: "a1".into(),
                reference_name: "".into(),
                mailbox_name: vec!["foo".into()],
                selection_options: vec![],
                return_options: vec![],
            },
        ),
        (
            "a3.1 LIST \"\" (% music/rock)\r\n",
            Arguments::Extended {
                tag: "a3.1".into(),
                reference_name: "".into(),
                mailbox_name: vec!["%".into(), "music/rock".into()],
                selection_options: vec![],
                return_options: vec![],
            },
        ),
        (
            "BBB LIST \"\" (\"INBOX\" \"Drafts\" \"Sent/%\")\r\n",
            Arguments::Extended {
                tag: "BBB".into(),
                reference_name: "".into(),
                mailbox_name: vec!["INBOX".into(), "Drafts".into(), "Sent/%".into()],
                selection_options: vec![],
                return_options: vec![],
            },
        ),
        (
            "A01 LIST \"\" % RETURN (STATUS (MESSAGES UNSEEN))\r\n",
            Arguments::Extended {
                tag: "A01".into(),
                reference_name: "".into(),
                mailbox_name: vec!["%".into()],
                selection_options: vec![],
                return_options: vec![ReturnOption::Status(vec![
                    Status::Messages,
                    Status::Unseen,
                ])],
            },
        ),
        (
            "A02 LIST (SUBSCRIBED RECURSIVEMATCH) \"\" % RETURN (CHILDREN STATUS (MESSAGES))\r\n",
            Arguments::Extended {
                tag: "A02".into(),
                reference_name: "".into(),
                mailbox_name: vec!["%".into()],
                selection_options: vec![
                    SelectionOption::Subscribed,
                    SelectionOption::RecursiveMatch,
                ],
                return_options: vec![
                    ReturnOption::Children,
                    ReturnOption::Status(vec![Status::Messages]),
                ],
            },
        ),
    ] {
        assert_eq!(receive(command).parse_list(ProtocolVersion::Rev2).unwrap(), arguments);
    }
}

#[test]
fn list_errors() {
    assert_eq!(parse(&[]).unwrap_err(), "Missing arguments.");
    assert_eq!(parse(&["only"]).unwrap_err(), "Missing arguments.");
    assert_eq!(
        parse(&["(", "bogus", ")", "", "*"]).unwrap_err(),
        "Unsupported selection option 'bogus'."
    );
    assert_eq!(
        parse(&["(", "(", ")", "", "*"]).unwrap_err(),
        "Invalid selection option argument."
    );
    assert_eq!(parse(&["(", "REMOTE", ")"]).unwrap_err(), "Missing reference name.");
    assert_eq!(parse(&["(", "REMOTE", "subscribed"]).unwrap_err(), "Missing reference name.");
    assert_eq!(parse(&["(", ")", "ref"]).unwrap_err(), "Missing mailbox name.");
    assert_eq!(
        parse(&["", "%", "return", "children"]).unwrap_err(),
        "Invalid return option, expected parenthesis."
    );
    assert_eq!(
        parse(&["", "%", "RETURN"]).unwrap_err(),
        "Invalid return option, expected parenthesis."
    );
    assert_eq!(
        parse(&["", "%", "RETURN", "(", "what\"", ")"]).unwrap_err(),
        "Invalid return option \"what\\\"\""
    );
    assert_eq!(
        parse(&["", "%", "RETURN", "(", "(", ")"]).unwrap_err(),
        "Invalid return option argument."
    );
    assert_eq!(
        parse(&["", "%", "RETURN", "(", "STATUS", "MESSAGES", ")"]).unwrap_err(),
        "Invalid return option, expected parenthesis after STATUS."
    );
    assert_eq!(
        parse(&["", "%", "RETURN", "(", "STATUS"]).unwrap_err(),
        "Invalid return option, expected parenthesis after STATUS."
    );
    assert_eq!(
        parse(&["", "%", "RETURN", "(", "STATUS", "(", "messages", "nope", ")", ")"]).unwrap_err(),
        "Invalid status option 'nope'."
    );
    assert_eq!(
        parse(&["", "%", "RETURN", "(", "STATUS", "(", "(", ")", ")"]).unwrap_err(),
        "Invalid status return option argument."
    );
    let bad = Request {
        tag: "t".to_string(),
        command: Command::List,
        tokens: vec![Token::Argument(vec![0xff]), Token::Argument(b"x".to_vec())],
    };
    assert_eq!(bad.parse_list(ProtocolVersion::Rev2).unwrap_err().message, "Invalid UTF-8 in argument.");
    let bad = Request {
        tag: "t".to_string(),
        command: Command::List,
        tokens: vec![
            Token::ParenthesisOpen,
            Token::Argument(vec![b'a', 0xff]),
            Token::ParenthesisClose,
            Token::Argument(b"x".to_vec()),
            Token::Argument(b"y".to_vec()),
        ],
    };
    assert_eq!(
        bad.parse_list(ProtocolVersion::Rev2).unwrap_err().message,
        "Unsupported selection option 'a\u{fffd}'."
    );
}

#[test]
fn list_details() {
    // what follows the mailbox and is not RETURN is passed over
    assert_eq!(
        parse(&["ref", "box", "other", "(", "x", ")"]).unwrap(),
        Arguments::Extended {
            tag: "t1".into(),
            reference_name: "ref".into(),
            mailbox_name: vec!["box".into()],
            selection_options: vec![],
            return_options: vec![],
        }
    );
    // a list that is not closed ends with the tokens; NIL is the empty name
    assert_eq!(
        parse(&["ref", "(", "a", "NIL", "["]).unwrap(),
        Arguments::Extended {
            tag: "t1".into(),
            reference_name: "ref".into(),
            mailbox_name: vec!["a".into(), "".into(), "[".into()],
            selection_options: vec![],
            return_options: vec![],
        }
    );
    assert_eq!(
        parse(&["(", "special-use", "Remote", ")", "r", "m", "ReTuRn", "(", "special-use", "status", "(", "uidnext", "UIDVALIDITY", "deleted", "size", "highestmodseq", "mailboxid", "recent", "deleted-storage", ")", "subscribed"]).unwrap(),
        Arguments::Extended {
            tag: "t1".into(),
            reference_name: "r".into(),
            mailbox_name: vec!["m".into()],
            selection_options: vec![SelectionOption::SpecialUse, SelectionOption::Remote],
            return_options: vec![
                ReturnOption::SpecialUse,
                ReturnOption::Status(vec![
                    Status::UidNext,
                    Status::UidValidity,
                    Status::Deleted,
                    Status::Size,
                    Status::HighestModSeq,
                    Status::MailboxId,
                    Status::Recent,
                    Status::DeletedStorage,
                ]),
                ReturnOption::Subscribed,
            ],
        }
    );
    assert_eq!(SelectionOption::parse(b"Subscribed"), Ok(SelectionOption::Subscribed));
    assert_eq!(ReturnOption::parse(b"status"), Ok(ReturnOption::Status(vec![])));
    assert!(SelectionOption::parse(b"SUBSCRIBE").is_err());
    assert!(SelectionOption::parse(b"CHILDREN").is_err());
    assert!(ReturnOption::parse(b"REMOTE").is_err());
}

#[test]
fn mailbox_names_are_decoded_under_rev1() {
    let request = |name: &str| Request {
        tag: "t".to_string(),
        command: Command::List,
        tokens: vec![Token::Argument(vec![]), Token::Argument(name.as_bytes().to_vec())],
    };
    assert_eq!(
        request("Entw&APw-rfe").parse_list(ProtocolVersion::Rev1).unwrap(),
        Arguments::Basic { tag: "t".into(), reference_name: "".into(), mailbox_name: "Entw\u{fc}rfe".into() }
    );
    assert_eq!(
        request("Entw&APw-rfe").parse_list(ProtocolVersion::Rev2).unwrap(),
        Arguments::Basic { tag: "t".into(), reference_name: "".into(), mailbox_name: "Entw&APw-rfe".into() }
    );
    // several patterns in parentheses are taken as they are written
    let several = Request {
        tag: "t".to_string(),
        command: Command::List,
        tokens: vec![
            Token::Argument(vec![]),
            Token::ParenthesisOpen,
            Token::Argument(b"&APw-".to_vec()),
            Token::ParenthesisClose,
        ],
    };
    assert_eq!(
        several.parse_list(ProtocolVersion::Rev1).unwrap(),
        Arguments::Extended {
            tag: "t".into(),
            reference_name: "".into(),
            mailbox_name: vec!["&APw-".into()],
            selection_options: vec![],
            return_options: vec![],
        }
    );
    let single = Request {
        tag: "t".to_string(),
        command: Command::List,
        tokens: vec![
            Token::Argument(vec![]),
            Token::Argument(b"&APw-".to_vec()),
            Token::Argument(b"x".to_vec()),
        ],
    };
    assert_eq!(
        single.parse_list(ProtocolVersion::Rev1).unwrap(),
        Arguments::Extended {
            tag: "t".into(),
            reference_name: "".into(),
            mailbox_name: vec!["\u{fc}".into()],
            selection_options: vec![],
            return_options: vec![],
        }
    );
}

#[test]
fn modified_utf7() {
    assert_eq!(utf7_decode("INBOX").as_deref(), Some("INBOX"));
    assert_eq!(utf7_decode("").as_deref(), Some(""));
    assert_eq!(utf7_decode("a&-b").as_deref(), Some("a&b"));
    assert_eq!(utf7_decode("~peter/mail/&U,BTFw-/&ZeVnLIqe-").as_deref(), Some("~peter/mail/\u{53f0}\u{5317}/\u{65e5}\u{672c}\u{8a9e}"));
    assert_eq!(utf7_decode("&2D3eAA-").as_deref(), Some("\u{1f600}"));
    assert_eq!(utf7_decode("&AOkA6Q-x").as_deref(), Some("\u{e9}\u{e9}x"));
    assert_eq!(utf7_decode("&APw"), None); // not closed
    assert_eq!(utf7_decode("&A*w-"), None); // no digit
    assert_eq!(utf7_decode("&2D0-"), None); // half a pair
    assert_eq!(utf7_decode("&3gA-"), None); // a low surrogate alone
    assert_eq!(utf7_decode("&2D0AYQ-"), None); // no low surrogate behind the high one
    assert_eq!(utf7_decode("caf\u{e9}").as_deref(), Some("caf\u{e9}"));
    assert_eq!(utf7_maybe_decode("&APw".to_string(), ProtocolVersion::Rev1), "&APw");
    assert_eq!(utf7_maybe_decode("&APw-".to_string(), ProtocolVersion::Rev1), "\u{fc}");
    assert_eq!(utf7_maybe_decode("&APw-".to_string(), ProtocolVersion::Rev2), "&APw-");
}

#[test]
fn tokens_as_text() {
    assert_eq!(Token::Argument(b"abc".to_vec()).unwrap_string().unwrap(), "abc");
    assert_eq!(Token::Argument(vec![0xc3, 0xa9]).unwrap_string().unwrap(), "\u{e9}");
    assert_eq!(Token::Argument(vec![0xc3]).unwrap_string().unwrap_err(), "Invalid UTF-8 in argument.");
    assert_eq!(Token::ParenthesisOpen.unwrap_string().unwrap(), "(");
    assert_eq!(Token::ParenthesisClose.unwrap_string().unwrap(), ")");
    assert_eq!(Token::BracketOpen.unwrap_string().unwrap(), "[");
    assert_eq!(Token::BracketClose.unwrap_string().unwrap(), "]");
    assert_eq!(Token::Lt.unwrap_string().unwrap(), "<");
    assert_eq!(Token::Gt.unwrap_string().unwrap(), ">");
    assert_eq!(Token::Dot.unwrap_string().unwrap(), ".");
    assert_eq!(Token::Nil.unwrap_string().unwrap(), "");
    assert!(Token::Argument(b"ReTurn".to_vec()).eq_ignore_ascii_case(b"return"));
    assert!(!Token::Argument(b"returns".to_vec()).eq_ignore_ascii_case(b"return"));
    assert!(Token::ParenthesisOpen.eq_ignore_ascii_case(b"("));
    assert!(!Token::ParenthesisOpen.eq_ignore_ascii_case(b")"));
    assert!(Token::Nil.eq_ignore_ascii_case(b""));
    assert!(Token::ParenthesisOpen.is_parenthesis_open());
    assert!(!Token::ParenthesisClose.is_parenthesis_open());
    assert_eq!(Token::Dot.unwrap_bytes(), b".".to_vec());
    assert_eq!(Token::Argument(vec![1, 2, 255]).unwrap_bytes(), vec![1, 2, 255]);
}

#[test]
fn checkscript() {
    let session = SieveSession { session_id: 1 };
    assert_eq!(
        session.handle_checkscript(&Vec::new()).unwrap_err(),
        "Expected script as a parameter."
    );
    assert_eq!(
        session.handle_checkscript(&vec![Token::Argument(b"keep;".to_vec()), Token::Nil]).unwrap(),
        b"keep;".to_vec()
    );
    assert_eq!(session.handle_checkscript(&vec![Token::Dot]).unwrap(), b".".to_vec());
    assert_eq!(session.script_checked(Ok(())).unwrap(), "Script is valid.");
    assert_eq!(session.script_checked(Err("line 1: oops".to_string())).unwrap_err(), "line 1: oops");
}

#[test]
fn append_answers() {
    let inbox = MailboxId { account_id: 1, mailbox_id: 2 };
    let other = MailboxId { account_id: 1, mailbox_id: 3 };
    let created = vec![ImapUidToId { uid: 10, id: 100 }, ImapUidToId { uid: 11, id: 101 }];
    let session = |is_qresync: bool, selected: Option<MailboxId>| Session { is_qresync, selected };
    let done = session(true, Some(inbox)).append_messages(&created, Some(77), inbox, Some(5));
    assert_eq!(done.announce, Some(77));
    assert!(done.update_selected);
    assert_eq!(done.code, Some(ResponseCode::AppendUid { uid_validity: 5, uids: vec![10, 11] }));
    let done = session(true, Some(other)).append_messages(&created, Some(77), inbox, None);
    assert_eq!(done.announce, None);
    assert!(!done.update_selected);
    assert_eq!(done.code, Some(ResponseCode::AppendUid { uid_validity: 0, uids: vec![10, 11] }));
    let done = session(false, Some(inbox)).append_messages(&created, None, inbox, Some(5));
    assert_eq!(done.announce, None);
    assert!(done.update_selected);
    let done = session(true, Some(inbox)).append_messages(&created, None, inbox, Some(5));
    assert_eq!(done.announce, Some(0));
    let done = session(true, None).append_messages(&created, Some(3), inbox, Some(5));
    assert_eq!((done.announce, done.update_selected), (None, false));
    let done = session(true, Some(inbox)).append_messages(&vec![], Some(1), inbox, Some(5));
    assert_eq!((done.announce, done.update_selected, done.code), (None, false, None));

    let plain = session(false, None);
    assert_eq!(plain.ingest_error_details(IngestError::Quota).as_deref(), Some("Disk quota exceeded."));
    assert_eq!(
        plain.ingest_error_details(IngestError::TenantQuota).as_deref(),
        Some("Organization disk quota exceeded.")
    );
    assert_eq!(plain.ingest_error_details(IngestError::Other), None);

    assert_eq!(plain.handle_append(Some(inbox), true).unwrap(), inbox);
    let missing = plain.handle_append(None, true).unwrap_err();
    assert_eq!((missing.details.as_str(), missing.code), ("Mailbox does not exist.", ResponseCode::TryCreate));
    let denied = plain.handle_append(Some(inbox), false).unwrap_err();
    assert_eq!(
        (denied.details.as_str(), denied.code),
        (
            "You do not have the required permissions to append messages to this mailbox.",
            ResponseCode::NoPerm
        )
    );
}
