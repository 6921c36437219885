//! Aggregate reporting: accumulation of records into windows, generation
//! of a window's report, and its delivery.

use vstd::prelude::*;
use vstd::string::StringExecFns;
use crate::compare::{Structured, views, option_view, duplicate_option, duplicate_items,
    same_option, same_items};
use crate::reporting::aggregate::{Group, ReportRecord, SizedRecord, SizedRecordView, assemble,
    scan};
use crate::reporting::sequence::{SequenceGenerator, issued, after_issue};
use crate::reporting::store::{DmarcFormat, DmarcFormatView, HeaderEntry, HeaderEntryView,
    RecordEntry, RecordEntryView, ReportEvent, ReportEventView, ReportStore, StoreError, StoreView,
    Window, all_below, header_of, headers_with, headers_without, records_of, records_without,
    lemma_header_at, lemma_headers_without_one_each, lemma_without_ascending, lemma_without_below};
use crate::reporting::types::{PolicyPublished, PolicyPublishedView, URI, URIView};
use crate::text::{decimal, decimal_string};

verus! {

/// How often aggregate reports are sent for a domain.
#[derive(Clone, Copy, Debug, PartialEq, Eq, Structural)]
pub enum AggregateFrequency {
    Hourly,
    Daily,
    Weekly,
    Never,
}

impl AggregateFrequency {
    /// The length of a window in seconds; 0 where no reports are sent.
    pub open spec fn spec_as_secs(self) -> u64 {
        match self {
            AggregateFrequency::Hourly => 3600,
            AggregateFrequency::Daily => 86400,
            AggregateFrequency::Weekly => 604800,
            AggregateFrequency::Never => 0,
        }
    }

    /// The start of the window that `now` falls into: the last multiple
    /// of the window's length at or before `now`. Without windows it is
    /// `now` itself.
    pub open spec fn spec_to_timestamp(self, now: u64) -> u64 {
        if self.spec_as_secs() == 0 {
            now
        } else {
            (now - now % self.spec_as_secs()) as u64
        }
    }

    /// The length of a window in seconds; 0 where no reports are sent.
    #[verifier::when_used_as_spec(spec_as_secs)]
    pub fn as_secs(self) -> (secs: u64)
        ensures
            secs == self.spec_as_secs(),
    {
        match self {
            AggregateFrequency::Hourly => 3600,
            AggregateFrequency::Daily => 86400,
            AggregateFrequency::Weekly => 604800,
            AggregateFrequency::Never => 0,
        }
    }

    /// The start of the window that `now` falls into.
    #[verifier::when_used_as_spec(spec_to_timestamp)]
    pub fn to_timestamp(self, now: u64) -> (start: u64)
        ensures
            start == self.spec_to_timestamp(now),
            start <= now,
    {
        let secs = self.as_secs();
        if secs == 0 {
            now
        } else {
            now - now % secs
        }
    }
}

/// One authentication outcome to be accumulated: the domain, the hash
/// and the snapshot of the policy it published, where its aggregate
/// reports go, how often, and the record itself.
#[derive(Debug)]
pub struct DmarcEvent {
    pub domain: String,
    pub report_record: SizedRecord,
    pub rua: Vec<URI>,
    pub policy: PolicyPublished,
    pub policy_hash: u64,
    pub interval: AggregateFrequency,
}

pub struct DmarcEventView {
    pub domain: Seq<char>,
    pub report_record: SizedRecordView,
    pub rua: Seq<URIView>,
    pub policy: PolicyPublishedView,
    pub policy_hash: u64,
    pub interval: AggregateFrequency,
}

impl View for DmarcEvent {
    type V = DmarcEventView;

    open spec fn view(&self) -> DmarcEventView {
        DmarcEventView {
            domain: self.domain@,
            report_record: self.report_record@,
            rua: views(self.rua@),
            policy: self.policy@,
            policy_hash: self.policy_hash,
            interval: self.interval,
        }
    }
}

impl DmarcEventView {
    /// The key of the header of the window that the event falls into at
    /// time `now`.
    pub open spec fn header_key(self, now: u64) -> ReportEventView {
        ReportEventView {
            due: (self.interval.spec_to_timestamp(now) + self.interval.spec_as_secs()) as u64,
            policy_hash: self.policy_hash,
            seq_id: self.interval.spec_to_timestamp(now),
            domain: self.domain,
        }
    }

    /// The header that the event's window gets if it has none.
    pub open spec fn header(self, now: u64) -> HeaderEntryView {
        HeaderEntryView {
            event: self.header_key(now),
            format: Some(
                DmarcFormatView { rua: self.rua, policy: self.policy, records: Seq::empty() },
            ),
        }
    }

    /// The record entry that the event is stored as under `seq_id`.
    pub open spec fn record(self, now: u64, seq_id: u64) -> RecordEntryView {
        RecordEntryView {
            event: ReportEventView { seq_id, ..self.header_key(now) },
            record: Some(self.report_record),
        }
    }
}

/// Why an event was not accumulated.
#[derive(Clone, Copy, Debug, PartialEq, Eq, Structural)]
pub enum Dropped {
    /// No aggregate reports are sent for the domain.
    NotReported,
    /// No sequence number is left.
    Exhausted,
    /// The store did not take the write.
    Store(StoreError),
}

/// The values that the configuration gives for one domain.
#[derive(Debug)]
pub struct AggregateSettings {
    /// The largest serialized report, if the size is limited.
    pub max_size: Option<usize>,
    /// The address reports are sent from.
    pub address: Option<String>,
    /// The display name reports are sent under.
    pub name: Option<String>,
    /// The name of the reporting organization.
    pub org_name: Option<String>,
    /// Further contact information.
    pub contact_info: Option<String>,
    /// The host that submits the report.
    pub submitter: Option<String>,
}

/// The size budget of one report: the limit, and what the report costs
/// before its first record.
#[derive(Clone, Copy, Debug)]
pub struct SerializedSize {
    pub limit: usize,
    pub shell_size: usize,
}

/// The limit of a budget, if there is a budget.
pub open spec fn limit_of(budget: Option<SerializedSize>) -> Option<usize> {
    match budget {
        Some(size) => Some(size.limit),
        None => None,
    }
}

/// What a report costs before its first record; nothing is accounted
/// without a budget.
pub open spec fn shell_of(budget: Option<SerializedSize>) -> usize {
    match budget {
        Some(size) => size.shell_size,
        None => 0,
    }
}

/// An aggregate report: who reports, for which time, under which
/// published policy, and one row per group of records.
#[derive(Debug)]
pub struct Report {
    pub org_name: Option<String>,
    pub email: String,
    pub extra_contact_info: Option<String>,
    pub report_id: String,
    pub date_range_begin: u64,
    pub date_range_end: u64,
    pub policy_published: PolicyPublished,
    pub records: Vec<ReportRecord>,
}

pub struct ReportView {
    pub org_name: Option<Seq<char>>,
    pub email: Seq<char>,
    pub extra_contact_info: Option<Seq<char>>,
    pub report_id: Seq<char>,
    pub date_range_begin: u64,
    pub date_range_end: u64,
    pub policy_published: PolicyPublishedView,
    pub records: Seq<Group>,
}

impl View for Report {
    type V = ReportView;

    open spec fn view(&self) -> ReportView {
        ReportView {
            org_name: option_view(self.org_name),
            email: self.email@,
            extra_contact_info: option_view(self.extra_contact_info),
            report_id: self.report_id@,
            date_range_begin: self.date_range_begin,
            date_range_end: self.date_range_end,
            policy_published: self.policy_published@,
            records: views(self.records@),
        }
    }
}

/// The address that reports come from where none is configured.
pub open spec fn default_address() -> Seq<char> {
    "MAILER-DAEMON@localhost"@
}

/// The configured text, or the default.
pub open spec fn text_or(configured: Option<String>, default: Seq<char>) -> Seq<char> {
    match configured {
        Some(text) => text@,
        None => default,
    }
}

/// A report's id: the policy hash and the window's start in decimal,
/// with an underscore between them.
pub open spec fn report_id(policy_hash: u64, start: u64) -> Seq<char> {
    decimal(policy_hash as nat).push('_') + decimal(start as nat)
}

/// The report of a window before its first row: the window runs from
/// the key's `seq_id` to its `due`.
pub open spec fn shell(
    event: ReportEventView,
    policy: PolicyPublishedView,
    settings: AggregateSettings,
) -> ReportView {
    ReportView {
        org_name: option_view(settings.org_name),
        email: text_or(settings.address, default_address()),
        extra_contact_info: option_view(settings.contact_info),
        report_id: report_id(event.policy_hash, event.seq_id),
        date_range_begin: event.seq_id,
        date_range_end: event.due,
        policy_published: policy,
        records: Seq::empty(),
    }
}

/// The configured text, or the default.
pub fn configured_or(configured: &Option<String>, default: &str) -> (text: String)
    ensures
        text@ == text_or(*configured, default@),
{
    match configured {
        Some(text) => text.duplicate(),
        None => String::from_str(default),
    }
}

/// Builds the report of a window before its first row.
pub fn report_shell(event: &ReportEvent, policy: PolicyPublished, settings: &AggregateSettings) -> (report:
    Report)
    ensures
        report@ == shell(event@, policy@, *settings),
{
    let mut id = decimal_string(event.policy_hash);
    proof {
        reveal_strlit("_");
    }
    id.append("_");
    let start = decimal_string(event.seq_id);
    id.append(start.as_str());
    assert(id@ =~= report_id(event.policy_hash, event.seq_id));
    let report = Report {
        org_name: duplicate_option(&settings.org_name),
        email: configured_or(&settings.address, "MAILER-DAEMON@localhost"),
        extra_contact_info: duplicate_option(&settings.contact_info),
        report_id: id,
        date_range_begin: event.seq_id,
        date_range_end: event.due,
        policy_published: policy,
        records: Vec::new(),
    };
    assert(report@.records =~= Seq::empty());
    report
}

/// The reporting state of a server: the stored windows and the source
/// of sequence numbers.
#[derive(Debug)]
pub struct Server {
    pub store: ReportStore,
    pub queue_id_gen: SequenceGenerator,
}

pub struct ServerView {
    pub store: StoreView,
    pub next_id: u64,
}

impl View for Server {
    type V = ServerView;

    open spec fn view(&self) -> ServerView {
        ServerView { store: self.store@, next_id: self.queue_id_gen@ }
    }
}

impl ServerView {
    /// The store is well formed, and every stored record has a sequence
    /// number that was handed out already.
    pub open spec fn wf(self) -> bool {
        self.store.wf() && all_below(self.store.records, self.next_id as int)
    }
}

/// The state after an event is accumulated at time `now`, and what the
/// caller is told. Where reports are sent, a sequence number is used up
/// even if the write fails. The header is written only if the window
/// has none; the record is always written, under the new number.
pub open spec fn scheduled(state: ServerView, event: DmarcEventView, now: u64) -> (
    ServerView,
    Result<(), Dropped>,
) {
    if event.interval == AggregateFrequency::Never {
        (state, Err(Dropped::NotReported))
    } else {
        match issued(state.next_id) {
            None => (state, Err(Dropped::Exhausted)),
            Some(seq_id) => {
                let minted = ServerView { next_id: after_issue(state.next_id), ..state };
                if !state.store.online {
                    (minted, Err(Dropped::Store(StoreError::Unavailable)))
                } else {
                    let window = event.header_key(now).window();
                    let headers = if header_of(state.store.headers, window) is None {
                        headers_with(state.store.headers, event.header(now))
                    } else {
                        state.store.headers
                    };
                    (
                        ServerView {
                            store: StoreView {
                                headers,
                                records: state.store.records.push(event.record(now, seq_id)),
                                online: true,
                            },
                            ..minted
                        },
                        Ok(()),
                    )
                }
            },
        }
    }
}

/// The store after a window is deleted: its records and its header are
/// gone, unless the store cannot be reached.
pub open spec fn deleted(store: StoreView, window: Window) -> StoreView {
    if store.online {
        StoreView {
            headers: headers_without(store.headers, window),
            records: records_without(store.records, window),
            online: true,
        }
    } else {
        store
    }
}

/// The report that is generated for a window: an error if the store
/// cannot be reached or the header or a record of the window does not
/// decode, nothing if the window has no header, else the shell with one
/// row per admitted group.
pub open spec fn generated(
    store: StoreView,
    event: ReportEventView,
    budget: Option<SerializedSize>,
    settings: AggregateSettings,
) -> Result<Option<ReportView>, StoreError> {
    match store.read_header(event.window()) {
        Err(error) => Err(error),
        Ok(None) => Ok(None),
        Ok(Some(header)) => match store.read_records(event.window()) {
            Err(error) => Err(error),
            Ok(records) => Ok(
                Some(
                    ReportView {
                        records: scan(records, shell_of(budget), limit_of(budget)).groups,
                        ..shell(event, header.policy, settings)
                    },
                ),
            ),
        },
    }
}

/// Where the report of a window goes, as its header says.
pub open spec fn rua_of(store: StoreView, window: Window) -> Seq<URIView> {
    match store.read_header(window) {
        Ok(Some(header)) => header.rua,
        _ => Seq::empty(),
    }
}

/// What the recipient authorizer said of a window's destinations:
/// `None` if they could not be resolved, else the addresses that are
/// authorized, which may be none.
pub type Authorized = Option<Vec<String>>;

/// A report that is handed to the transmitter.
#[derive(Debug)]
pub struct OutgoingReport {
    pub from_addr: String,
    pub from_name: String,
    pub submitter: String,
    pub rcpts: Vec<String>,
    pub report: Report,
}

/// How the delivery of a due window ended.
#[derive(Debug)]
pub enum Delivery {
    /// The window has no header: there is nothing to do.
    NotFound,
    /// The window could not be read; it is left as it is.
    ReadFailed(StoreError),
    /// The destinations could not be resolved. Nothing is sent, and the
    /// window is deleted.
    ValidationError(Vec<URI>),
    /// No destination is authorized. Nothing is sent, and the window is
    /// deleted.
    Unauthorized(Vec<URI>),
    /// The report goes to the transmitter, and the window is deleted.
    Sent(OutgoingReport),
}

/// The size that a report may have where the configuration names none.
pub const DEFAULT_MAX_SIZE: usize = 26214400;

/// The budget of a delivery: the configured limit or the default, and
/// the measured size of the shell.
pub open spec fn delivery_budget(settings: AggregateSettings, shell_size: usize) -> Option<
    SerializedSize,
> {
    Some(
        SerializedSize {
            limit: match settings.max_size {
                Some(limit) => limit,
                None => DEFAULT_MAX_SIZE,
            },
            shell_size,
        },
    )
}

/// The store after the delivery of a due window: the window is deleted
/// whenever its report was generated, whatever the authorizer said;
/// otherwise nothing changes.
pub open spec fn delivered(
    store: StoreView,
    event: ReportEventView,
    settings: AggregateSettings,
    shell_size: usize,
) -> StoreView {
    match generated(store, event, delivery_budget(settings, shell_size), settings) {
        Ok(Some(_)) => deleted(store, event.window()),
        _ => store,
    }
}

/// The reporting operations of a server.
pub trait DmarcReporting {
    spec fn state(&self) -> ServerView;

    /// Delivers the report of a due window. `authorized` is what the
    /// recipient authorizer says of the window's destinations at this
    /// time, and `shell_size` the measured size of the report's shell.
    /// The report is handed out for transmission exactly if it was
    /// generated and at least one recipient is authorized.
    fn send_dmarc_aggregate_report(
        &mut self,
        event: ReportEvent,
        settings: &AggregateSettings,
        shell_size: usize,
        authorized: Authorized,
    ) -> (delivery: Delivery)
        requires
            old(self).state().wf(),
        ensures
            final(self).state().wf(),
            final(self).state().next_id == old(self).state().next_id,
            final(self).state().store == delivered(
                old(self).state().store,
                event@,
                *settings,
                shell_size,
            ),
            match generated(
                old(self).state().store,
                event@,
                delivery_budget(*settings, shell_size),
                *settings,
            ) {
                Err(error) => delivery matches Delivery::ReadFailed(e) && e == error,
                Ok(None) => delivery is NotFound,
                Ok(Some(report)) => {
                    let rua = rua_of(old(self).state().store, event@.window());
                    match authorized {
                        None => delivery matches Delivery::ValidationError(to) && views(to@) == rua,
                        Some(rcpts) => if rcpts@.len() == 0 {
                            delivery matches Delivery::Unauthorized(to) && views(to@) == rua
                        } else {
                            delivery matches Delivery::Sent(out) && out.report@ == report && views(
                                out.rcpts@,
                            ) == views(rcpts@) && out.from_addr@ == text_or(
                                settings.address,
                                default_address(),
                            ) && out.from_name@ == text_or(settings.name, "Mail Delivery Subsystem"@)
                                && out.submitter@ == text_or(settings.submitter, "localhost"@)
                        },
                    }
                },
            },
    ;

    /// Generates the report of a window, and puts the window's
    /// destinations into `rua`. Nothing stored is changed.
    fn generate_dmarc_aggregate_report(
        &self,
        event: &ReportEvent,
        rua: &mut Vec<URI>,
        serialized_size: Option<SerializedSize>,
        settings: &AggregateSettings,
    ) -> (report: Result<Option<Report>, StoreError>)
        ensures
            match generated(self.state().store, event@, serialized_size, *settings) {
                Err(error) => report == Err::<Option<Report>, StoreError>(error) && *final(rua)
                    == *old(rua),
                Ok(None) => report matches Ok(None) && *final(rua) == *old(rua),
                Ok(Some(expected)) => report matches Ok(Some(found)) && found@ == expected
                    && views(final(rua)@) == rua_of(self.state().store, event@.window()),
            },
    ;

    /// Deletes a window: its records and its header.
    fn delete_dmarc_report(&mut self, event: ReportEvent) -> (done: Result<(), StoreError>)
        requires
            old(self).state().wf(),
        ensures
            final(self).state().wf(),
            final(self).state().next_id == old(self).state().next_id,
            final(self).state().store == deleted(old(self).state().store, event@.window()),
            done == if old(self).state().store.online {
                Ok::<(), StoreError>(())
            } else {
                Err::<(), StoreError>(StoreError::Unavailable)
            },
    ;

    /// Accumulates one event at time `now`.
    fn schedule_dmarc(&mut self, event: DmarcEvent, now: u64) -> (done: Result<(), Dropped>)
        requires
            old(self).state().wf(),
            now + event.interval.spec_as_secs() <= u64::MAX,
        ensures
            final(self).state().wf(),
            final(self).state() == scheduled(old(self).state(), event@, now).0,
            done == scheduled(old(self).state(), event@, now).1,
    ;
}

impl DmarcReporting for Server {
    open spec fn state(&self) -> ServerView {
        self@
    }

    fn send_dmarc_aggregate_report(
        &mut self,
        event: ReportEvent,
        settings: &AggregateSettings,
        shell_size: usize,
        authorized: Authorized,
    ) -> (delivery: Delivery) {
        let limit = match settings.max_size {
            Some(limit) => limit,
            None => DEFAULT_MAX_SIZE,
        };
        let mut rua: Vec<URI> = Vec::new();
        let report = match self.generate_dmarc_aggregate_report(
            &event,
            &mut rua,
            Some(SerializedSize { limit, shell_size }),
            settings,
        ) {
            Ok(Some(report)) => report,
            Ok(None) => {
                return Delivery::NotFound;
            },
            Err(error) => {
                return Delivery::ReadFailed(error);
            },
        };
        let rcpts = match authorized {
            Some(rcpts) => {
                if rcpts.len() == 0 {
                    let _ = self.delete_dmarc_report(event);
                    return Delivery::Unauthorized(rua);
                }
                rcpts
            },
            None => {
                let _ = self.delete_dmarc_report(event);
                return Delivery::ValidationError(rua);
            },
        };
        let outgoing = OutgoingReport {
            from_addr: configured_or(&settings.address, "MAILER-DAEMON@localhost"),
            from_name: configured_or(&settings.name, "Mail Delivery Subsystem"),
            submitter: configured_or(&settings.submitter, "localhost"),
            rcpts,
            report,
        };
        let _ = self.delete_dmarc_report(event);
        Delivery::Sent(outgoing)
    }

    fn generate_dmarc_aggregate_report(
        &self,
        event: &ReportEvent,
        rua: &mut Vec<URI>,
        serialized_size: Option<SerializedSize>,
        settings: &AggregateSettings,
    ) -> (report: Result<Option<Report>, StoreError>) {
        let header = match self.store.get_header(event) {
            Ok(Some(header)) => header,
            Ok(None) => {
                return Ok(None);
            },
            Err(error) => {
                return Err(error);
            },
        };
        let records = match self.store.scan(event) {
            Ok(records) => records,
            Err(error) => {
                return Err(error);
            },
        };
        *rua = header.rua;
        let mut report = report_shell(event, header.policy, settings);
        let rows = match serialized_size {
            Some(size) => assemble(&records, size.shell_size, Some(size.limit)),
            None => assemble(&records, 0, None),
        };
        report.records = rows;
        Ok(Some(report))
    }

    fn delete_dmarc_report(&mut self, event: ReportEvent) -> (done: Result<(), StoreError>) {
        proof {
            lemma_without_ascending(self@.store.records, event@.window());
            lemma_without_below(self@.store.records, event@.window(), self@.next_id as int);
            lemma_headers_without_one_each(self@.store.headers, event@.window());
        }
        match self.store.delete_range(&event) {
            Ok(()) => {},
            Err(error) => {
                return Err(error);
            },
        }
        self.store.clear_header(&event)
    }

    fn schedule_dmarc(&mut self, event: DmarcEvent, now: u64) -> (done: Result<(), Dropped>) {
        match event.interval {
            AggregateFrequency::Never => {
                return Err(Dropped::NotReported);
            },
            _ => {},
        }
        let created = event.interval.to_timestamp(now);
        let deliver_at = created + event.interval.as_secs();
        let ghost spec_event = event@;
        let DmarcEvent { domain, report_record, rua, policy, policy_hash, interval } = event;
        let header_event = ReportEvent { due: deliver_at, policy_hash, seq_id: created, domain };
        assert(header_event@ == spec_event.header_key(now));
        // A header that cannot be read counts as missing.
        let missing = match self.store.has_header(&header_event) {
            Ok(found) => !found,
            Err(_) => true,
        };
        let seq_id = match self.queue_id_gen.generate() {
            Some(seq_id) => seq_id,
            None => {
                return Err(Dropped::Exhausted);
            },
        };
        let record = RecordEntry {
            event: header_event.with_seq_id(seq_id),
            record: Some(report_record),
        };
        let header = if missing {
            let format = DmarcFormat { rua, policy, records: Vec::new() };
            assert(format@.records =~= Seq::empty());
            Some(HeaderEntry { event: header_event, format: Some(format) })
        } else {
            None
        };
        proof {
            lemma_header_at(old(self)@.store.headers, spec_event.header_key(now).window());
        }
        match self.store.write(header, record) {
            Ok(()) => Ok(()),
            Err(error) => Err(Dropped::Store(error)),
        }
    }
}

} // verus!
