use mailcore::reporting::aggregate::{assemble, ReportRecord, SizedRecord};
use mailcore::reporting::dmarc::{
    AggregateFrequency, AggregateSettings, Delivery, DmarcEvent, DmarcReporting, Dropped,
    SerializedSize, Server,
};
use mailcore::reporting::sequence::SequenceGenerator;
use mailcore::reporting::store::{ReportEvent, ReportStore, StoreError};
use mailcore::reporting::types::{
    ActionDisposition, Alignment, DKIMAuthResult, Discovery, Disposition, DkimResult, DmarcResult,
    IpAddress, PolicyPublished, Record, SPFAuthResult, SPFDomainScope, SpfResult, URI,
};

const HOUR: u64 = 3600;
const NOW: u64 = 1_700_000_123;
const START: u64 = NOW - NOW % HOUR;
const DUE: u64 = START + HOUR;
const POLICY_HASH: u64 = 0xfeed_beef;

fn record(ip: u32, from: &str) -> Record {
    Record::new()
        .with_source_ip(IpAddress::V4(ip))
        .with_header_from(from.to_string())
        .with_envelope_from(from.to_string())
        .with_dkim_auth_result(DKIMAuthResult {
            domain: from.to_string(),
            selector: "default".to_string(),
            result: DkimResult::Fail,
            human_result: Some("signature did not verify".to_string()),
        })
        .with_spf_auth_result(SPFAuthResult {
            domain: from.to_string(),
            scope: SPFDomainScope::MailFrom,
            result: SpfResult::Pass,
            human_result: None,
        })
        .with_count(1)
}

fn sized(record: Record, serialized_size: usize) -> SizedRecord {
    SizedRecord { record, serialized_size }
}

fn policy() -> PolicyPublished {
    PolicyPublished {
        domain: "example.com".to_string(),
        adkim: Alignment::Relaxed,
        aspf: Alignment::Strict,
        p: Disposition::Reject,
        sp: Disposition::Quarantine,
        np: Disposition::Unspecified,
        testing: false,
        discovery_method: Discovery::Treewalk,
        fo: Some("1".to_string()),
    }
}

fn event(record: SizedRecord) -> DmarcEvent {
    DmarcEvent {
        domain: "example.com".to_string(),
        report_record: record,
        rua: vec![URI { uri: "mailto:dmarc@example.com".to_string(), max_size: 0 }],
        policy: policy(),
        policy_hash: POLICY_HASH,
        interval: AggregateFrequency::Hourly,
    }
}

fn window() -> ReportEvent {
    ReportEvent { due: DUE, policy_hash: POLICY_HASH, seq_id: START, domain: "example.com".to_string() }
}

fn settings() -> AggregateSettings {
    AggregateSettings {
        max_size: None,
        address: None,
        name: None,
        org_name: Some("Example Org".to_string()),
        contact_info: None,
        submitter: None,
    }
}

fn server() -> Server {
    Server { store: ReportStore::new(), queue_id_gen: SequenceGenerator::starting_at(1) }
}

fn counts(rows: &[ReportRecord]) -> Vec<u64> {
    rows.iter().map(|row| row.count()).collect()
}

#[test]
fn identical_records_collapse_into_one_row() {
    let mut server = server();
    assert_eq!(server.schedule_dmarc(event(sized(record(1, "a.org"), 100)), NOW), Ok(()));
    assert_eq!(server.schedule_dmarc(event(sized(record(1, "a.org"), 100)), NOW + 5), Ok(()));
    assert_eq!(server.store.records.len(), 2);
    assert_eq!(server.store.headers.len(), 1);

    let mut rua = Vec::new();
    let report = server
        .generate_dmarc_aggregate_report(&window(), &mut rua, None, &settings())
        .unwrap()
        .unwrap();
    assert_eq!(report.records.len(), 1);
    assert_eq!(report.records[0].count(), 2);
    assert_eq!(report.records[0].record.header_from, "a.org");
    assert_eq!(rua.len(), 1);
    assert_eq!(rua[0].uri, "mailto:dmarc@example.com");
    // Generation leaves the stored records alone.
    assert_eq!(server.store.records.len(), 2);
    assert_eq!(server.store.records[0].record.as_ref().unwrap().record.count, 1);
}

#[test]
fn end_to_end_window() {
    let mut server = server();
    server.schedule_dmarc(event(sized(record(7, "a.org"), 64)), NOW).unwrap();
    server.schedule_dmarc(event(sized(record(7, "a.org"), 64)), NOW + 1).unwrap();

    let mut rua = Vec::new();
    let report = server
        .generate_dmarc_aggregate_report(&window(), &mut rua, None, &settings())
        .unwrap()
        .unwrap();
    assert_eq!(counts(&report.records), vec![2]);
    assert_eq!(report.date_range_begin, DUE - HOUR);
    assert_eq!(report.date_range_end, DUE);
    assert_eq!(report.report_id, format!("{}_{}", POLICY_HASH, START));
    assert_eq!(report.email, "MAILER-DAEMON@localhost");
    assert_eq!(report.org_name.as_deref(), Some("Example Org"));
    assert_eq!(report.policy_published.domain, "example.com");

    let delivery = server.send_dmarc_aggregate_report(
        window(),
        &settings(),
        200,
        Some(vec!["dmarc@example.com".to_string()]),
    );
    match delivery {
        Delivery::Sent(outgoing) => {
            assert_eq!(outgoing.rcpts, vec!["dmarc@example.com".to_string()]);
            assert_eq!(outgoing.from_addr, "MAILER-DAEMON@localhost");
            assert_eq!(outgoing.from_name, "Mail Delivery Subsystem");
            assert_eq!(outgoing.submitter, "localhost");
            assert_eq!(counts(&outgoing.report.records), vec![2]);
        }
        other => panic!("expected a report to send, got {:?}", other),
    }
    assert!(server.store.headers.is_empty());
    assert!(server.store.records.is_empty());
    let mut rua = Vec::new();
    let again = server.generate_dmarc_aggregate_report(&window(), &mut rua, None, &settings());
    assert!(matches!(again, Ok(None)));
    assert!(matches!(
        server.send_dmarc_aggregate_report(window(), &settings(), 200, Some(vec!["x@y".to_string()])),
        Delivery::NotFound
    ));
}

#[test]
fn budget_below_shell_gives_empty_report() {
    let mut server = server();
    server.schedule_dmarc(event(sized(record(1, "a.org"), 10)), NOW).unwrap();
    server.schedule_dmarc(event(sized(record(2, "b.org"), 10)), NOW).unwrap();
    let mut rua = Vec::new();
    let report = server
        .generate_dmarc_aggregate_report(
            &window(),
            &mut rua,
            Some(SerializedSize { limit: 99, shell_size: 100 }),
            &settings(),
        )
        .unwrap()
        .unwrap();
    assert!(report.records.is_empty());
    assert_eq!(report.date_range_begin, START);
    assert_eq!(report.date_range_end, DUE);
    assert_eq!(report.policy_published.p, Disposition::Reject);
}

#[test]
fn budget_admits_a_prefix_and_still_folds() {
    let records = vec![
        sized(record(1, "a.org"), 40),
        sized(record(2, "b.org"), 40),
        sized(record(3, "c.org"), 40), // does not fit: admission closes
        sized(record(4, "d.org"), 1),  // would fit, but comes after the close
        sized(record(1, "a.org"), 40), // folded whatever the budget says
        sized(record(3, "c.org"), 40),
        sized(record(2, "b.org"), 40),
        sized(record(1, "a.org"), 40),
    ];
    let rows = assemble(&records, 10, Some(100));
    assert_eq!(rows.len(), 2);
    assert_eq!(rows[0].record.header_from, "a.org");
    assert_eq!(rows[1].record.header_from, "b.org");
    assert_eq!(counts(&rows), vec![3, 2]);

    // exact fit is admitted
    let rows = assemble(&records, 10, Some(130));
    assert_eq!(counts(&rows), vec![3, 2, 2]);
    let rows = assemble(&records, 10, Some(131));
    assert_eq!(counts(&rows), vec![3, 2, 2, 1]);
    let rows = assemble(&records, 10, None);
    assert_eq!(counts(&rows), vec![3, 2, 2, 1]);
    let rows = assemble(&records, 10, Some(9));
    assert!(rows.is_empty());
}

#[test]
fn larger_budget_never_admits_fewer_groups() {
    let records: Vec<SizedRecord> =
        (0..20u32).map(|i| sized(record(i % 7, "a.org"), 10 + (i as usize * 13) % 17)).collect();
    let mut last = 0;
    for budget in 0..200usize {
        let rows = assemble(&records, 25, Some(budget));
        assert!(rows.len() >= last, "budget {} admitted fewer groups", budget);
        last = rows.len();
    }
    assert_eq!(assemble(&records, 25, None).len(), 7);
    assert!(last <= 7);
}

#[test]
fn own_count_of_first_record_is_kept() {
    let records = vec![
        sized(record(1, "a.org").with_count(5), 10),
        sized(record(1, "a.org").with_count(9), 10),
    ];
    let rows = assemble(&records, 0, None);
    assert_eq!(rows.len(), 1);
    assert_eq!(rows[0].count(), 6);
    assert_eq!(rows[0].duplicates, 1);
    assert_eq!(rows[0].record.count, 5);
}

#[test]
fn records_that_differ_in_one_field_stay_apart() {
    let base = record(1, "a.org");
    let mut other_ip = record(2, "a.org");
    other_ip.count = 1;
    let mut other_spf = record(1, "a.org");
    other_spf.spf_results[0].result = SpfResult::Fail;
    let mut other_disposition = record(1, "a.org");
    other_disposition.disposition = ActionDisposition::Reject;
    let mut other_dmarc = record(1, "a.org");
    other_dmarc.dkim = DmarcResult::Fail;
    assert!(base.same_group(&record(1, "a.org").with_count(77)));
    assert!(!base.same_group(&other_ip));
    assert!(!base.same_group(&other_spf));
    assert!(!base.same_group(&other_disposition));
    assert!(!base.same_group(&other_dmarc));
    let records = vec![
        sized(base, 1),
        sized(other_ip, 1),
        sized(other_spf, 1),
        sized(other_disposition, 1),
        sized(other_dmarc, 1),
    ];
    assert_eq!(assemble(&records, 0, None).len(), 5);
}

#[test]
fn accumulation_persists_one_record_per_call() {
    let mut server = server();
    for i in 0..10u64 {
        assert_eq!(server.schedule_dmarc(event(sized(record(i as u32, "a.org"), 10)), NOW + i), Ok(()));
    }
    assert_eq!(server.store.headers.len(), 1);
    assert_eq!(server.store.records.len(), 10);
    let seqs: Vec<u64> = server.store.records.iter().map(|r| r.event.seq_id).collect();
    assert_eq!(seqs, (1..=10).collect::<Vec<u64>>());
    assert!(server.store.records.iter().all(|r| r.event.due == DUE));
    assert_eq!(server.store.headers[0].event.seq_id, START);
    assert!(server.store.headers[0].format.as_ref().unwrap().records.is_empty());
}

#[test]
fn policy_change_opens_a_new_window() {
    let mut server = server();
    server.schedule_dmarc(event(sized(record(1, "a.org"), 10)), NOW).unwrap();
    let mut changed = event(sized(record(1, "a.org"), 10));
    changed.policy_hash = POLICY_HASH + 1;
    server.schedule_dmarc(changed, NOW).unwrap();
    let mut next_hour = event(sized(record(1, "a.org"), 10));
    next_hour.interval = AggregateFrequency::Hourly;
    server.schedule_dmarc(next_hour, NOW + HOUR).unwrap();
    assert_eq!(server.store.headers.len(), 3);
    let mut rua = Vec::new();
    let report = server
        .generate_dmarc_aggregate_report(&window(), &mut rua, None, &settings())
        .unwrap()
        .unwrap();
    assert_eq!(counts(&report.records), vec![1]);
}

#[test]
fn never_and_exhaustion_drop_the_event() {
    let mut server = server();
    let mut never = event(sized(record(1, "a.org"), 10));
    never.interval = AggregateFrequency::Never;
    assert_eq!(server.schedule_dmarc(never, NOW), Err(Dropped::NotReported));
    assert!(server.store.records.is_empty() && server.store.headers.is_empty());

    let mut full = Server {
        store: ReportStore::new(),
        queue_id_gen: SequenceGenerator::starting_at(u64::MAX),
    };
    assert_eq!(
        full.schedule_dmarc(event(sized(record(1, "a.org"), 10)), NOW),
        Err(Dropped::Exhausted)
    );
    assert!(full.store.records.is_empty() && full.store.headers.is_empty());
}

#[test]
fn unreachable_store_drops_writes_and_keeps_windows() {
    let mut server = server();
    server.schedule_dmarc(event(sized(record(1, "a.org"), 10)), NOW).unwrap();
    server.store.online = false;
    assert_eq!(
        server.schedule_dmarc(event(sized(record(2, "a.org"), 10)), NOW),
        Err(Dropped::Store(StoreError::Unavailable))
    );
    let mut rua = Vec::new();
    assert!(matches!(
        server.generate_dmarc_aggregate_report(&window(), &mut rua, None, &settings()),
        Err(StoreError::Unavailable)
    ));
    assert!(matches!(
        server.send_dmarc_aggregate_report(window(), &settings(), 0, None),
        Delivery::ReadFailed(StoreError::Unavailable)
    ));
    assert_eq!(server.delete_dmarc_report(window()), Err(StoreError::Unavailable));
    assert_eq!(server.store.headers.len(), 1);
    assert_eq!(server.store.records.len(), 1);
    server.store.online = true;
    // the failed write used up a sequence number
    server.schedule_dmarc(event(sized(record(3, "a.org"), 10)), NOW).unwrap();
    assert_eq!(server.store.records[1].event.seq_id, 3);
}

#[test]
fn failed_authorization_deletes_the_window_and_sends_nothing() {
    for authorized in [None, Some(Vec::new())] {
        let mut server = server();
        server.schedule_dmarc(event(sized(record(1, "a.org"), 10)), NOW).unwrap();
        server.schedule_dmarc(event(sized(record(2, "a.org"), 10)), NOW).unwrap();
        let mut other = event(sized(record(1, "a.org"), 10));
        other.domain = "other.org".to_string();
        server.schedule_dmarc(other, NOW).unwrap();
        let resolved = authorized.is_some();
        let delivery = server.send_dmarc_aggregate_report(window(), &settings(), 0, authorized);
        match delivery {
            Delivery::ValidationError(rua) => {
                assert!(!resolved);
                assert_eq!(rua[0].uri, "mailto:dmarc@example.com");
            }
            Delivery::Unauthorized(rua) => {
                assert!(resolved);
                assert_eq!(rua[0].uri, "mailto:dmarc@example.com");
            }
            other => panic!("nothing may be sent, got {:?}", other),
        }
        assert_eq!(server.store.headers.len(), 1);
        assert_eq!(server.store.headers[0].event.domain, "other.org");
        assert_eq!(server.store.records.len(), 1);
        assert_eq!(server.store.records[0].event.domain, "other.org");
    }
}

#[test]
fn deleting_twice_is_deleting_once() {
    let mut server = server();
    server.schedule_dmarc(event(sized(record(1, "a.org"), 10)), NOW).unwrap();
    let mut other = event(sized(record(1, "a.org"), 10));
    other.interval = AggregateFrequency::Daily;
    server.schedule_dmarc(other, NOW).unwrap();
    assert_eq!(server.delete_dmarc_report(window()), Ok(()));
    let headers_once = server.store.headers.len();
    let records_once = server.store.records.len();
    assert_eq!((headers_once, records_once), (1, 1));
    assert_eq!(server.delete_dmarc_report(window()), Ok(()));
    assert_eq!(server.store.headers.len(), headers_once);
    assert_eq!(server.store.records.len(), records_once);
    assert_eq!(server.store.records[0].event.due, NOW - NOW % 86400 + 86400);
}

#[test]
fn window_boundaries() {
    assert_eq!(AggregateFrequency::Hourly.as_secs(), 3600);
    assert_eq!(AggregateFrequency::Daily.as_secs(), 86400);
    assert_eq!(AggregateFrequency::Weekly.as_secs(), 604800);
    assert_eq!(AggregateFrequency::Never.as_secs(), 0);
    assert_eq!(AggregateFrequency::Hourly.to_timestamp(7199), 3600);
    assert_eq!(AggregateFrequency::Hourly.to_timestamp(7200), 7200);
    assert_eq!(AggregateFrequency::Daily.to_timestamp(86400 * 3 + 5), 86400 * 3);
    assert_eq!(AggregateFrequency::Weekly.to_timestamp(604800 * 2 - 1), 604800);
    assert_eq!(AggregateFrequency::Never.to_timestamp(12345), 12345);
}

#[test]
fn sequence_numbers_increase_and_stop_before_the_maximum() {
    let mut generator = SequenceGenerator::starting_at(u64::MAX - 2);
    assert_eq!(generator.generate(), Some(u64::MAX - 2));
    assert_eq!(generator.generate(), Some(u64::MAX - 1));
    assert_eq!(generator.generate(), None);
    assert_eq!(generator.generate(), None);
}

#[test]
fn report_id_is_written_in_decimal() {
    let shell = mailcore::reporting::dmarc::report_shell(
        &ReportEvent { due: 10, policy_hash: 0, seq_id: 1_000_000_007, domain: "d".to_string() },
        policy(),
        &settings(),
    );
    assert_eq!(shell.report_id, "0_1000000007");
    let shell = mailcore::reporting::dmarc::report_shell(
        &ReportEvent { due: 10, policy_hash: u64::MAX, seq_id: 90, domain: "d".to_string() },
        policy(),
        &settings(),
    );
    assert_eq!(shell.report_id, "18446744073709551615_90");
}

#[test]
fn undecodable_values_abort_generation_and_keep_the_window() {
    // a record of the window that does not decode
    let mut server = server();
    server.schedule_dmarc(event(sized(record(1, "a.org"), 10)), NOW).unwrap();
    server.schedule_dmarc(event(sized(record(2, "a.org"), 10)), NOW).unwrap();
    server.store.records[1].record = None;
    let mut rua = Vec::new();
    assert!(matches!(
        server.generate_dmarc_aggregate_report(&window(), &mut rua, None, &settings()),
        Err(StoreError::Corrupt)
    ));
    assert!(rua.is_empty());
    assert!(matches!(
        server.send_dmarc_aggregate_report(window(), &settings(), 0, Some(vec!["a@b".to_string()])),
        Delivery::ReadFailed(StoreError::Corrupt)
    ));
    assert_eq!((server.store.headers.len(), server.store.records.len()), (1, 2));
    // a record of another window that does not decode is no hindrance
    let mut other = event(sized(record(3, "a.org"), 10));
    other.domain = "other.org".to_string();
    server.schedule_dmarc(other, NOW).unwrap();
    server.store.records[1].record = Some(sized(record(2, "a.org"), 10));
    server.store.records[2].record = None;
    let report = server
        .generate_dmarc_aggregate_report(&window(), &mut rua, None, &settings())
        .unwrap()
        .unwrap();
    assert_eq!(counts(&report.records), vec![1, 1]);

    // a header that does not decode
    server.store.headers[0].format = None;
    assert!(matches!(
        server.generate_dmarc_aggregate_report(&window(), &mut rua, None, &settings()),
        Err(StoreError::Corrupt)
    ));
    // it still counts as the window's header when records are accumulated
    server.schedule_dmarc(event(sized(record(9, "a.org"), 10)), NOW).unwrap();
    assert_eq!(server.store.headers.len(), 2);
    assert!(server.store.headers[0].format.is_none());
    // and the window can still be deleted
    assert_eq!(server.delete_dmarc_report(window()), Ok(()));
    assert_eq!(server.store.headers.len(), 1);
    assert_eq!(server.store.records.len(), 1);
}
