use mailcore::message::{AuthenticatedMessage, Header};
use mailcore::reporting::dmarc::AggregateFrequency;
use mailcore::reporting::failure::{
    ArcOutput, DkimOutput, DkimSignature, DmarcActions, DmarcOutput, FailureOptions,
    IdentityAlignment, OutgoingReportEvent, Rate, Replies,
};
use mailcore::reporting::types::{
    ActionDisposition, Alignment, Discovery, Disposition, DkimResult, DmarcResult, IpAddress,
    PolicyOverride, PolicyPublished, SPFDomainScope, SpfResult, URI,
};
use mailcore::session::{Session, SessionAddress, SessionData, SpfOutput};

fn session(spf_ehlo: Option<SpfResult>, spf_mail_from: Option<SpfResult>) -> Session {
    Session {
        data: SessionData {
            session_id: 7,
            remote_ip: IpAddress::V4(0x0a00_0001),
            helo_domain: "mx.sender.example".to_string(),
            mail_from: Some(SessionAddress {
                address: "Bob@Sender.Example".to_string(),
                address_lcase: "bob@sender.example".to_string(),
                domain: "sender.example".to_string(),
                flags: 0,
                dsn_info: None,
            }),
            rcpt_to: vec![],
            spf_ehlo: spf_ehlo
                .map(|result| SpfOutput { result, domain: "mx.sender.example".to_string() }),
            spf_mail_from: spf_mail_from
                .map(|result| SpfOutput { result, domain: "sender.example".to_string() }),
        },
    }
}

fn message() -> AuthenticatedMessage {
    AuthenticatedMessage {
        from: "alice@example.com".to_string(),
        headers: vec![Header { name: b"From".to_vec(), value: b" alice@example.com\r\n".to_vec() }],
        raw_headers: b"From: alice@example.com\r\n\r\n".to_vec(),
        raw_body: b"hello\r\n".to_vec(),
    }
}

fn policy() -> PolicyPublished {
    PolicyPublished {
        domain: "example.com".to_string(),
        adkim: Alignment::Relaxed,
        aspf: Alignment::Relaxed,
        p: Disposition::Reject,
        sp: Disposition::Reject,
        np: Disposition::Unspecified,
        testing: false,
        discovery_method: Discovery::Treewalk,
        fo: Some("d".to_string()),
    }
}

fn dmarc_output(options: Option<FailureOptions>, rua: bool) -> DmarcOutput {
    DmarcOutput {
        domain: "example.com".to_string(),
        failure_report: options,
        ruf: vec![URI { uri: "mailto:ruf@example.com".to_string(), max_size: 0 }],
        rua: if rua {
            vec![URI { uri: "mailto:rua@example.com".to_string(), max_size: 0 }]
        } else {
            vec![]
        },
        policy_published: policy(),
        policy_hash: 99,
        disposition: ActionDisposition::Reject,
        dkim_result: DmarcResult::Fail,
        spf_result: DmarcResult::Fail,
    }
}

fn dkim_outputs() -> Vec<DkimOutput> {
    vec![
        DkimOutput { result: DkimResult::Absent, human_result: None, signature: None },
        DkimOutput {
            result: DkimResult::Pass,
            human_result: None,
            signature: Some(DkimSignature {
                domain: "other.example".to_string(),
                selector: "s0".to_string(),
                identity: "@other.example".to_string(),
            }),
        },
        DkimOutput {
            result: DkimResult::Fail,
            human_result: Some("body hash did not verify".to_string()),
            signature: Some(DkimSignature {
                domain: "example.com".to_string(),
                selector: "s1".to_string(),
                identity: "@example.com".to_string(),
            }),
        },
        DkimOutput {
            result: DkimResult::PermError,
            human_result: Some("no key".to_string()),
            signature: Some(DkimSignature {
                domain: "example.com".to_string(),
                selector: "s2".to_string(),
                identity: "@example.com".to_string(),
            }),
        },
    ]
}

fn replies(authorized: Option<Vec<&str>>, throttle: Vec<bool>) -> Replies {
    Replies {
        failure_rate: Some(Rate { requests: 1, period: 86400 }),
        authorized: authorized.map(|list| list.into_iter().map(|a| a.to_string()).collect()),
        throttle,
        address: None,
        name: None,
        subject: None,
        interval: Some(AggregateFrequency::Daily),
        record_size: 321,
    }
}

fn run(
    session: &Session,
    options: Option<FailureOptions>,
    replies: Replies,
    rua: bool,
) -> DmarcActions {
    session.send_dmarc_report(
        &message(),
        "dkim=fail; spf=fail",
        true,
        dmarc_output(options, rua),
        &dkim_outputs(),
        &None,
        replies,
    )
}

#[test]
fn dkim_only_policy_reports_dkim_alignment_when_both_fail() {
    let session = session(Some(SpfResult::Fail), Some(SpfResult::Fail));
    let actions = run(
        &session,
        Some(FailureOptions::Dkim),
        replies(Some(vec!["mailto:ruf@example.com"]), vec![true]),
        true,
    );
    let report = actions.report.expect("a report goes out");
    assert_eq!(report.feedback.identity_alignment, IdentityAlignment::Dkim);
    assert!(report.feedback.spf_dns.is_none());
    let signature = report.feedback.dkim.expect("the failed signature is shown");
    assert_eq!(signature.domain, "example.com");
    assert_eq!(signature.selector, "s1");
    assert_eq!(signature.identity, "@example.com");
    assert_eq!(actions.events, vec![OutgoingReportEvent::DmarcReport]);
}

#[test]
fn alignment_follows_the_failures_that_are_shown() {
    let both = session(Some(SpfResult::Pass), Some(SpfResult::SoftFail));
    for (options, expected, spf_shown, dkim_shown) in [
        (FailureOptions::Spf, IdentityAlignment::Spf, true, false),
        (FailureOptions::DkimSpf, IdentityAlignment::DkimSpf, true, true),
        (FailureOptions::All, IdentityAlignment::DkimSpf, true, true),
        (FailureOptions::Any, IdentityAlignment::DkimSpf, true, true),
        (FailureOptions::Dkim, IdentityAlignment::Dkim, false, true),
    ] {
        let actions = run(&both, Some(options), replies(Some(vec!["a@b"]), vec![true]), false);
        let report = actions.report.unwrap();
        assert_eq!(report.feedback.identity_alignment, expected);
        assert_eq!(report.feedback.dkim.is_some(), dkim_shown);
        assert_eq!(
            report.feedback.spf_dns.as_deref(),
            if spf_shown { Some("txt : sender.example : v=SPF1") } else { None }
        );
    }
    // The EHLO identity comes first if it did not pass.
    let ehlo = session(Some(SpfResult::Fail), Some(SpfResult::Fail));
    let report = run(&ehlo, Some(FailureOptions::Spf), replies(Some(vec!["a@b"]), vec![true]), false)
        .report
        .unwrap();
    assert_eq!(report.feedback.spf_dns.as_deref(), Some("txt : mx.sender.example : v=SPF1"));
    // Nothing failed that is asked for: the alignment falls back to SPF.
    let passing = session(Some(SpfResult::Pass), None);
    let report =
        run(&passing, Some(FailureOptions::Spf), replies(Some(vec!["a@b"]), vec![true]), false)
            .report
            .unwrap();
    assert_eq!(report.feedback.identity_alignment, IdentityAlignment::Spf);
    assert!(report.feedback.spf_dns.is_none() && report.feedback.dkim.is_none());
}

#[test]
fn report_addresses_and_texts() {
    let session = session(None, None);
    let mut answers = replies(Some(vec!["a@x.example", "b@x.example", "c@x.example"]), vec![
        true, false, true,
    ]);
    answers.name = Some("Postmaster".to_string());
    answers.address = Some("postmaster@host.example".to_string());
    let actions = run(&session, Some(FailureOptions::Any), answers, false);
    let report = actions.report.unwrap();
    assert_eq!(report.rcpts, vec!["a@x.example".to_string(), "c@x.example".to_string()]);
    assert_eq!(report.to, "a@x.example, c@x.example");
    assert_eq!(report.from_name, "Postmaster");
    assert_eq!(report.from_addr, "postmaster@host.example");
    assert_eq!(report.subject, "DMARC Report");
    assert_eq!(report.feedback.authentication_results, "dkim=fail; spf=fail");
    assert_eq!(report.feedback.headers, "From: alice@example.com\r\n\r\n");
    assert!(report.feedback.rejected);

    let defaults = run(
        &session,
        Some(FailureOptions::Any),
        replies(Some(vec!["a@x.example"]), vec![true]),
        false,
    )
    .report
    .unwrap();
    assert_eq!(defaults.from_name, "Mail Delivery Subsystem");
    assert_eq!(defaults.from_addr, "MAILER-DAEMON@localhost");
    assert_eq!(defaults.to, "a@x.example");
}

#[test]
fn headers_that_are_not_utf8_are_left_out() {
    let session = session(None, None);
    let mut message = message();
    message.raw_headers = vec![b'X', b':', 0xff, 0xfe, b'\r', b'\n'];
    let actions = session.send_dmarc_report(
        &message,
        "",
        false,
        dmarc_output(Some(FailureOptions::Any), false),
        &dkim_outputs(),
        &None,
        replies(Some(vec!["a@b"]), vec![true]),
    );
    let report = actions.report.unwrap();
    assert_eq!(report.feedback.headers, "");
    assert!(!report.feedback.rejected);
}

#[test]
fn no_report_without_recipients() {
    let session = session(Some(SpfResult::Fail), None);
    // resolution failed
    let actions = run(&session, Some(FailureOptions::Any), replies(None, vec![]), false);
    assert!(actions.report.is_none());
    assert_eq!(actions.events, vec![
        OutgoingReportEvent::ReportingAddressValidationError,
        OutgoingReportEvent::DmarcRateLimited
    ]);
    // nothing authorized
    let actions = run(&session, Some(FailureOptions::Any), replies(Some(vec![]), vec![]), false);
    assert!(actions.report.is_none());
    assert_eq!(actions.events, vec![
        OutgoingReportEvent::UnauthorizedReportingAddress,
        OutgoingReportEvent::DmarcRateLimited
    ]);
    // all throttled; a missing verdict holds the address back
    let actions = run(
        &session,
        Some(FailureOptions::Any),
        replies(Some(vec!["a@b", "c@d"]), vec![false]),
        false,
    );
    assert!(actions.report.is_none());
    assert_eq!(actions.events, vec![OutgoingReportEvent::DmarcRateLimited]);
    // the policy asks for no report
    let actions = run(&session, None, replies(Some(vec!["a@b"]), vec![true]), false);
    assert!(actions.report.is_none() && actions.events.is_empty());
    // failure reports are switched off
    let mut off = replies(Some(vec!["a@b"]), vec![true]);
    off.failure_rate = None;
    let actions = run(&session, Some(FailureOptions::Any), off, false);
    assert!(actions.report.is_none() && actions.events.is_empty());
}

#[test]
fn aggregate_event_carries_the_record() {
    let session = session(Some(SpfResult::Pass), Some(SpfResult::Fail));
    let arc = Some(ArcOutput { result: DkimResult::Pass, comment: "arc=pass as[1].d=x".to_string() });
    let actions = session.send_dmarc_report(
        &message(),
        "",
        false,
        dmarc_output(None, true),
        &dkim_outputs(),
        &arc,
        replies(None, vec![]),
    );
    let event = actions.aggregate.expect("the record is accumulated");
    assert_eq!(event.domain, "example.com");
    assert_eq!(event.policy_hash, 99);
    assert_eq!(event.interval, AggregateFrequency::Daily);
    assert_eq!(event.rua.len(), 1);
    assert_eq!(event.policy.p, Disposition::Reject);
    assert_eq!(event.report_record.serialized_size, 321);
    let record = event.report_record.record;
    assert_eq!(record.count, 1);
    assert_eq!(record.source_ip, Some(IpAddress::V4(0x0a00_0001)));
    assert_eq!(record.header_from, "example.com");
    assert_eq!(record.envelope_from, "sender.example");
    assert_eq!(record.disposition, ActionDisposition::Reject);
    assert_eq!(record.dkim, DmarcResult::Fail);
    assert_eq!(record.spf, DmarcResult::Fail);
    assert_eq!(record.dkim_results.len(), 3);
    assert_eq!(record.dkim_results[0].domain, "other.example");
    assert_eq!(record.dkim_results[0].result, DkimResult::Pass);
    assert_eq!(record.dkim_results[1].selector, "s1");
    assert_eq!(record.dkim_results[1].human_result.as_deref(), Some("body hash did not verify"));
    assert_eq!(record.dkim_results[2].result, DkimResult::PermError);
    assert_eq!(record.spf_results.len(), 2);
    assert_eq!(record.spf_results[0].scope, SPFDomainScope::Helo);
    assert_eq!(record.spf_results[0].domain, "mx.sender.example");
    assert_eq!(record.spf_results[0].result, SpfResult::Pass);
    assert_eq!(record.spf_results[1].scope, SPFDomainScope::MailFrom);
    assert_eq!(record.spf_results[1].result, SpfResult::Fail);
    assert_eq!(record.reason.len(), 1);
    assert_eq!(record.reason[0].type_, PolicyOverride::LocalPolicy);
    assert_eq!(record.reason[0].comment.as_deref(), Some("arc=pass as[1].d=x"));
}

#[test]
fn aggregate_event_needs_interval_and_rua() {
    let mut session = session(None, None);
    session.data.mail_from = None;
    let mut never = replies(None, vec![]);
    never.interval = Some(AggregateFrequency::Never);
    assert!(run(&session, None, never, true).aggregate.is_none());
    let mut unset = replies(None, vec![]);
    unset.interval = None;
    assert!(run(&session, None, unset, true).aggregate.is_none());
    assert!(run(&session, None, replies(None, vec![]), false).aggregate.is_none());
    let event = run(&session, None, replies(None, vec![]), true).aggregate.unwrap();
    // without a sender the HELO domain stands in
    assert_eq!(event.report_record.record.envelope_from, "mx.sender.example");
    assert!(event.report_record.record.spf_results.is_empty());
    assert!(event.report_record.record.reason.is_empty());
}

#[test]
fn failing_arc_chain_leaves_no_note() {
    let session = session(None, None);
    let arc = Some(ArcOutput { result: DkimResult::Fail, comment: "arc=fail".to_string() });
    let actions = session.send_dmarc_report(
        &message(),
        "",
        false,
        dmarc_output(None, true),
        &Vec::new(),
        &arc,
        replies(None, vec![]),
    );
    let record = actions.aggregate.unwrap().report_record.record;
    assert!(record.reason.is_empty());
    assert!(record.dkim_results.is_empty());
}

#[test]
fn failure_options_name_their_mechanisms() {
    assert!(FailureOptions::Dkim.reports_dkim() && !FailureOptions::Dkim.reports_spf());
    assert!(!FailureOptions::Spf.reports_dkim() && FailureOptions::Spf.reports_spf());
    for both in [FailureOptions::All, FailureOptions::Any, FailureOptions::DkimSpf] {
        assert!(both.reports_dkim() && both.reports_spf());
    }
}
