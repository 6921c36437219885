//! Failure reports: what a session decides, at the time a message fails
//! DMARC, about the report that goes to the domain's `ruf` addresses and
//! about the record that goes into the domain's aggregate window.

use vstd::prelude::*;
use vstd::string::StringExecFns;
use crate::compare::{Structured, views, option_view, duplicate_option, duplicate_items,
    same_option, lemma_views_push};
use crate::reporting::aggregate::{SizedRecord, SizedRecordView};
use crate::reporting::dmarc::{AggregateFrequency, DmarcEvent, DmarcEventView, configured_or,
    text_or};
use crate::reporting::types::{ActionDisposition, DKIMAuthResult, DKIMAuthResultView, DkimResult,
    DmarcResult, PolicyOverride, PolicyOverrideReason, PolicyOverrideReasonView, PolicyPublished,
    PolicyPublishedView, Record, RecordView, SPFAuthResult, SPFAuthResultView, SPFDomainScope,
    SpfResult, URI, URIView};
use crate::message::{AuthenticatedMessage, AuthenticatedMessageView, text_of};
use crate::session::{Session, SessionData, SessionDataView, SpfOutput, SpfOutputView};
use crate::text::{domain_of, domain_part, join, joined};

verus! {

/// The failures that a policy asks to hear of (its `fo` tag).
#[derive(Clone, Copy, Debug, PartialEq, Eq, Structural)]
pub enum FailureOptions {
    /// Report if every mechanism fails.
    All,
    /// Report if any mechanism fails.
    Any,
    /// Report DKIM failures.
    Dkim,
    /// Report SPF failures.
    Spf,
    /// Report DKIM and SPF failures.
    DkimSpf,
}

impl FailureOptions {
    /// Whether DKIM failures are to be shown in a report.
    pub open spec fn spec_reports_dkim(self) -> bool {
        !(self is Spf)
    }

    /// Whether SPF failures are to be shown in a report.
    pub open spec fn spec_reports_spf(self) -> bool {
        !(self is Dkim)
    }

    /// Whether DKIM failures are to be shown in a report.
    #[verifier::when_used_as_spec(spec_reports_dkim)]
    pub fn reports_dkim(self) -> (shown: bool)
        ensures
            shown == self.spec_reports_dkim(),
    {
        match self {
            FailureOptions::Dkim
            | FailureOptions::DkimSpf
            | FailureOptions::All
            | FailureOptions::Any => true,
            FailureOptions::Spf => false,
        }
    }

    /// Whether SPF failures are to be shown in a report.
    #[verifier::when_used_as_spec(spec_reports_spf)]
    pub fn reports_spf(self) -> (shown: bool)
        ensures
            shown == self.spec_reports_spf(),
    {
        match self {
            FailureOptions::Spf
            | FailureOptions::DkimSpf
            | FailureOptions::All
            | FailureOptions::Any => true,
            FailureOptions::Dkim => false,
        }
    }
}

/// Which identities of a message were not aligned.
#[derive(Clone, Copy, Debug, PartialEq, Eq, Structural)]
pub enum IdentityAlignment {
    Dkim,
    Spf,
    DkimSpf,
}

/// What is told of a failure report that was, or was not, sent.
#[derive(Clone, Copy, Debug, PartialEq, Eq, Structural)]
pub enum OutgoingReportEvent {
    UnauthorizedReportingAddress,
    ReportingAddressValidationError,
    DmarcRateLimited,
    DmarcReport,
}

/// So many requests in so many seconds.
#[derive(Clone, Copy, Debug, PartialEq, Eq, Structural)]
pub struct Rate {
    pub requests: u64,
    pub period: u64,
}

/// The signature that a DKIM result is about.
#[derive(Debug)]
pub struct DkimSignature {
    pub domain: String,
    pub selector: String,
    pub identity: String,
}

pub struct DkimSignatureView {
    pub domain: Seq<char>,
    pub selector: Seq<char>,
    pub identity: Seq<char>,
}

impl View for DkimSignature {
    type V = DkimSignatureView;

    open spec fn view(&self) -> DkimSignatureView {
        DkimSignatureView {
            domain: self.domain@,
            selector: self.selector@,
            identity: self.identity@,
        }
    }
}

impl Structured for DkimSignature {
    fn same_as(&self, other: &Self) -> (same: bool) {
        self.domain.same_as(&other.domain) && self.selector.same_as(&other.selector)
            && self.identity.same_as(&other.identity)
    }

    fn duplicate(&self) -> (copy: Self) {
        DkimSignature {
            domain: self.domain.duplicate(),
            selector: self.selector.duplicate(),
            identity: self.identity.duplicate(),
        }
    }
}

/// The outcome of the verification of one DKIM signature, or of the
/// search for one.
#[derive(Debug)]
pub struct DkimOutput {
    pub result: DkimResult,
    pub human_result: Option<String>,
    pub signature: Option<DkimSignature>,
}

pub struct DkimOutputView {
    pub result: DkimResult,
    pub human_result: Option<Seq<char>>,
    pub signature: Option<DkimSignatureView>,
}

impl View for DkimOutput {
    type V = DkimOutputView;

    open spec fn view(&self) -> DkimOutputView {
        DkimOutputView {
            result: self.result,
            human_result: option_view(self.human_result),
            signature: option_view(self.signature),
        }
    }
}

impl DkimOutputView {
    /// The signature, if there is one and it did not pass.
    pub open spec fn failed_signature(self) -> Option<DkimSignatureView> {
        if self.result != DkimResult::Pass {
            self.signature
        } else {
            None
        }
    }
}

/// The outcome of the verification of a message's ARC chain, with the
/// comment under which a passing chain is reported.
#[derive(Debug)]
pub struct ArcOutput {
    pub result: DkimResult,
    pub comment: String,
}

pub struct ArcOutputView {
    pub result: DkimResult,
    pub comment: Seq<char>,
}

impl View for ArcOutput {
    type V = ArcOutputView;

    open spec fn view(&self) -> ArcOutputView {
        ArcOutputView { result: self.result, comment: self.comment@ }
    }
}

/// The outcome of the DMARC evaluation of a message: the domain, what
/// its policy record asks for, and the verdicts.
#[derive(Debug)]
pub struct DmarcOutput {
    pub domain: String,
    /// The failures to report, if the record asks for a failure report
    /// of this message.
    pub failure_report: Option<FailureOptions>,
    pub ruf: Vec<URI>,
    pub rua: Vec<URI>,
    pub policy_published: PolicyPublished,
    pub policy_hash: u64,
    pub disposition: ActionDisposition,
    pub dkim_result: DmarcResult,
    pub spf_result: DmarcResult,
}

pub struct DmarcOutputView {
    pub domain: Seq<char>,
    pub failure_report: Option<FailureOptions>,
    pub ruf: Seq<URIView>,
    pub rua: Seq<URIView>,
    pub policy_published: PolicyPublishedView,
    pub policy_hash: u64,
    pub disposition: ActionDisposition,
    pub dkim_result: DmarcResult,
    pub spf_result: DmarcResult,
}

impl View for DmarcOutput {
    type V = DmarcOutputView;

    open spec fn view(&self) -> DmarcOutputView {
        DmarcOutputView {
            domain: self.domain@,
            failure_report: self.failure_report,
            ruf: views(self.ruf@),
            rua: views(self.rua@),
            policy_published: self.policy_published@,
            policy_hash: self.policy_hash,
            disposition: self.disposition,
            dkim_result: self.dkim_result,
            spf_result: self.spf_result,
        }
    }
}

/// What the session's collaborators answered: the configuration, the
/// recipient authorizer on the `ruf` addresses, the throttle on each
/// address that the authorizer let through, and the measured size of
/// the aggregate record.
#[derive(Debug)]
pub struct Replies {
    /// The rate at which failure reports may go to one address; `None`
    /// where failure reports are not sent.
    pub failure_rate: Option<Rate>,
    /// The authorized `ruf` addresses; `None` if they could not be
    /// resolved.
    pub authorized: Option<Vec<String>>,
    /// For each authorized address, whether the throttle lets a report
    /// through. An address without a verdict is held back.
    pub throttle: Vec<bool>,
    pub address: Option<String>,
    pub name: Option<String>,
    pub subject: Option<String>,
    /// How often aggregate reports are sent.
    pub interval: Option<AggregateFrequency>,
    pub record_size: usize,
}

/// The feedback of a failure report.
#[derive(Debug)]
pub struct AuthFailure {
    pub rejected: bool,
    pub authentication_results: String,
    pub headers: String,
    pub dkim: Option<DkimSignature>,
    pub spf_dns: Option<String>,
    pub identity_alignment: IdentityAlignment,
}

pub struct AuthFailureView {
    pub rejected: bool,
    pub authentication_results: Seq<char>,
    pub headers: Seq<char>,
    pub dkim: Option<DkimSignatureView>,
    pub spf_dns: Option<Seq<char>>,
    pub identity_alignment: IdentityAlignment,
}

impl View for AuthFailure {
    type V = AuthFailureView;

    open spec fn view(&self) -> AuthFailureView {
        AuthFailureView {
            rejected: self.rejected,
            authentication_results: self.authentication_results@,
            headers: self.headers@,
            dkim: option_view(self.dkim),
            spf_dns: option_view(self.spf_dns),
            identity_alignment: self.identity_alignment,
        }
    }
}

/// A failure report that is to be rendered and transmitted.
#[derive(Debug)]
pub struct FailureReport {
    pub from_name: String,
    pub from_addr: String,
    pub rcpts: Vec<String>,
    pub to: String,
    pub subject: String,
    pub feedback: AuthFailure,
}

pub struct FailureReportView {
    pub from_name: Seq<char>,
    pub from_addr: Seq<char>,
    pub rcpts: Seq<String>,
    pub to: Seq<char>,
    pub subject: Seq<char>,
    pub feedback: AuthFailureView,
}

impl View for FailureReport {
    type V = FailureReportView;

    open spec fn view(&self) -> FailureReportView {
        FailureReportView {
            from_name: self.from_name@,
            from_addr: self.from_addr@,
            rcpts: self.rcpts@,
            to: self.to@,
            subject: self.subject@,
            feedback: self.feedback@,
        }
    }
}

/// What a session does about one message that was evaluated under
/// DMARC.
#[derive(Debug)]
pub struct DmarcActions {
    /// What is told of the failure report, in order.
    pub events: Vec<OutgoingReportEvent>,
    /// The failure report to transmit, if there is one.
    pub report: Option<FailureReport>,
    /// The event to accumulate for the aggregate report, if there is
    /// one.
    pub aggregate: Option<DmarcEvent>,
}

/// The addresses that the throttle lets through: those with a
/// favourable verdict, in order.
pub open spec fn surviving(rcpts: Seq<String>, throttle: Seq<bool>) -> Seq<String>
    decreases rcpts.len(),
{
    if rcpts.len() == 0 {
        Seq::empty()
    } else {
        let last = rcpts.len() - 1;
        if last < throttle.len() && throttle[last] {
            surviving(rcpts.drop_last(), throttle).push(rcpts.last())
        } else {
            surviving(rcpts.drop_last(), throttle)
        }
    }
}

/// The addresses that a failure report goes to: the authorized ones
/// that the throttle lets through.
pub open spec fn recipients(authorized: Option<Vec<String>>, throttle: Seq<bool>) -> Seq<String> {
    match authorized {
        Some(rcpts) => surviving(rcpts@, throttle),
        None => Seq::empty(),
    }
}

/// The first signature that did not pass.
pub open spec fn first_failed_signature(outputs: Seq<DkimOutputView>) -> Option<DkimSignatureView>
    decreases outputs.len(),
{
    if outputs.len() == 0 {
        None
    } else {
        match first_failed_signature(outputs.drop_last()) {
            Some(signature) => Some(signature),
            None => outputs.last().failed_signature(),
        }
    }
}

/// The SPF check that is reported as failed: the one of the `EHLO`
/// identity if it did not pass, else the one of the `MAIL FROM` identity
/// if that did not pass.
pub open spec fn failed_spf(data: SessionDataView) -> Option<SpfOutputView> {
    match data.spf_ehlo {
        Some(output) if output.result != SpfResult::Pass => Some(output),
        _ => match data.spf_mail_from {
            Some(output) if output.result != SpfResult::Pass => Some(output),
            _ => None,
        },
    }
}

/// The DKIM failure that a report shows: the first signature that did
/// not pass, if the policy asks for DKIM failures.
pub open spec fn shown_dkim(options: FailureOptions, outputs: Seq<DkimOutputView>) -> Option<
    DkimSignatureView,
> {
    if options.spec_reports_dkim() {
        first_failed_signature(outputs)
    } else {
        None
    }
}

/// The SPF failure that a report shows, if the policy asks for SPF
/// failures.
pub open spec fn shown_spf(options: FailureOptions, data: SessionDataView) -> Option<
    SpfOutputView,
> {
    if options.spec_reports_spf() {
        failed_spf(data)
    } else {
        None
    }
}

/// The alignment that a report states, from the failures it shows.
pub open spec fn alignment(dkim_failed: bool, spf_failed: bool) -> IdentityAlignment {
    if dkim_failed && spf_failed {
        IdentityAlignment::DkimSpf
    } else if dkim_failed {
        IdentityAlignment::Dkim
    } else {
        IdentityAlignment::Spf
    }
}

/// The DNS detail that a report gives of a failed SPF check.
pub open spec fn spf_dns(domain: Seq<char>) -> Seq<char> {
    "txt : "@ + domain + " : v=SPF1"@
}

/// The feedback of the failure report of a message.
pub open spec fn feedback(
    options: FailureOptions,
    data: SessionDataView,
    outputs: Seq<DkimOutputView>,
    auth_results: Seq<char>,
    headers: Seq<char>,
    rejected: bool,
) -> AuthFailureView {
    AuthFailureView {
        rejected,
        authentication_results: auth_results,
        headers,
        dkim: shown_dkim(options, outputs),
        spf_dns: match shown_spf(options, data) {
            Some(output) => Some(spf_dns(output.domain)),
            None => None,
        },
        identity_alignment: alignment(
            shown_dkim(options, outputs) is Some,
            shown_spf(options, data) is Some,
        ),
    }
}

/// What is told of the failure report, in order: that the addresses
/// could not be resolved or that none is authorized, then that nothing
/// was sent because no recipient is left, or else that a report goes
/// out. Nothing is told where no failure report was asked for.
pub open spec fn failure_events(replies: Replies, options: Option<FailureOptions>) -> Seq<
    OutgoingReportEvent,
> {
    if replies.failure_rate is None || options is None {
        Seq::empty()
    } else {
        let first: Seq<OutgoingReportEvent> = match replies.authorized {
            None => seq![OutgoingReportEvent::ReportingAddressValidationError],
            Some(rcpts) => if rcpts@.len() == 0 {
                seq![OutgoingReportEvent::UnauthorizedReportingAddress]
            } else {
                Seq::empty()
            },
        };
        if recipients(replies.authorized, replies.throttle@).len() == 0 {
            first.push(OutgoingReportEvent::DmarcRateLimited)
        } else {
            first.push(OutgoingReportEvent::DmarcReport)
        }
    }
}

/// The failure report of a message, if one goes out: one was asked
/// for, and a recipient is left after authorization and throttling.
pub open spec fn failure_report(
    data: SessionDataView,
    message: AuthenticatedMessageView,
    auth_results: Seq<char>,
    rejected: bool,
    options: Option<FailureOptions>,
    outputs: Seq<DkimOutputView>,
    replies: Replies,
) -> Option<FailureReportView> {
    if replies.failure_rate is None || options is None || recipients(
        replies.authorized,
        replies.throttle@,
    ).len() == 0 {
        None
    } else {
        Some(
            FailureReportView {
                from_name: text_or(replies.name, "Mail Delivery Subsystem"@),
                from_addr: text_or(replies.address, "MAILER-DAEMON@localhost"@),
                rcpts: recipients(replies.authorized, replies.throttle@),
                to: joined(recipients(replies.authorized, replies.throttle@), ", "@),
                subject: text_or(replies.subject, "DMARC Report"@),
                feedback: feedback(
                    options->0,
                    data,
                    outputs,
                    auth_results,
                    text_of(message.raw_headers),
                    rejected,
                ),
            },
        )
    }
}

/// The DKIM results of a record: one for each output that has a
/// signature, in order.
pub open spec fn dkim_results(outputs: Seq<DkimOutputView>) -> Seq<DKIMAuthResultView>
    decreases outputs.len(),
{
    if outputs.len() == 0 {
        Seq::empty()
    } else {
        match outputs.last().signature {
            Some(signature) => dkim_results(outputs.drop_last()).push(
                DKIMAuthResultView {
                    domain: signature.domain,
                    selector: signature.selector,
                    result: outputs.last().result,
                    human_result: outputs.last().human_result,
                },
            ),
            None => dkim_results(outputs.drop_last()),
        }
    }
}

/// The SPF result of a record for one identity.
pub open spec fn spf_result(output: SpfOutputView, scope: SPFDomainScope) -> SPFAuthResultView {
    SPFAuthResultView { domain: output.domain, scope, result: output.result, human_result: None }
}

/// The SPF results of a record: that of the `EHLO` identity, then that
/// of the `MAIL FROM` identity, as far as they were checked.
pub open spec fn spf_results(data: SessionDataView) -> Seq<SPFAuthResultView> {
    let ehlo: Seq<SPFAuthResultView> = match data.spf_ehlo {
        Some(output) => seq![spf_result(output, SPFDomainScope::Helo)],
        None => Seq::empty(),
    };
    match data.spf_mail_from {
        Some(output) => ehlo.push(spf_result(output, SPFDomainScope::MailFrom)),
        None => ehlo,
    }
}

/// The aggregate record of a message: where it came from, the domains
/// of its `From` header and of its envelope sender (the `HELO` domain
/// where there is no sender), the verdicts, and a note of a passing ARC
/// chain.
pub open spec fn aggregate_record(
    data: SessionDataView,
    from: Seq<char>,
    output: DmarcOutputView,
    outputs: Seq<DkimOutputView>,
    arc: Option<ArcOutputView>,
) -> RecordView {
    RecordView {
        source_ip: Some(data.remote_ip),
        count: 1,
        disposition: output.disposition,
        dkim: output.dkim_result,
        spf: output.spf_result,
        reason: match arc {
            Some(arc) if arc.result == DkimResult::Pass => seq![
                PolicyOverrideReasonView {
                    type_: PolicyOverride::LocalPolicy,
                    comment: Some(arc.comment),
                },
            ],
            _ => Seq::empty(),
        },
        envelope_to: None,
        envelope_from: match data.mail_from {
            Some(sender) => sender.domain,
            None => data.helo_domain,
        },
        header_from: domain_of(from),
        dkim_results: dkim_results(outputs),
        spf_results: spf_results(data),
    }
}

/// The event that is accumulated for the aggregate report, if one is:
/// aggregate reports are sent for the domain, and its policy names a
/// place for them.
pub open spec fn aggregate_event(
    data: SessionDataView,
    from: Seq<char>,
    output: DmarcOutputView,
    outputs: Seq<DkimOutputView>,
    arc: Option<ArcOutputView>,
    replies: Replies,
) -> Option<DmarcEventView> {
    match replies.interval {
        Some(interval) if interval != AggregateFrequency::Never && output.rua.len() > 0 => Some(
            DmarcEventView {
                domain: output.domain,
                report_record: SizedRecordView {
                    record: aggregate_record(data, from, output, outputs, arc),
                    serialized_size: replies.record_size,
                },
                rua: output.rua,
                policy: output.policy_published,
                policy_hash: output.policy_hash,
                interval,
            },
        ),
        _ => None,
    }
}

/// Picks the addresses that the throttle lets through.
pub fn surviving_rcpts(rcpts: &Vec<String>, throttle: &Vec<bool>) -> (left: Vec<String>)
    ensures
        left@ == surviving(rcpts@, throttle@),
{
    let mut left: Vec<String> = Vec::new();
    let mut i: usize = 0;
    assert(rcpts@.take(0) =~= Seq::empty());
    while i < rcpts.len()
        invariant
            i <= rcpts.len(),
            left@ == surviving(rcpts@.take(i as int), throttle@),
        decreases rcpts.len() - i,
    {
        proof {
            assert(rcpts@.take(i + 1).drop_last() =~= rcpts@.take(i as int));
        }
        if i < throttle.len() && throttle[i] {
            left.push(rcpts[i].clone());
        }
        i += 1;
    }
    assert(rcpts@.take(i as int) =~= rcpts@);
    left
}

/// Looks for the first signature that did not pass.
pub fn find_failed_signature(outputs: &Vec<DkimOutput>) -> (found: Option<DkimSignature>)
    ensures
        option_view(found) == first_failed_signature(views(outputs@)),
{
    let ghost all = views(outputs@);
    let mut i: usize = 0;
    assert(all.take(0) =~= Seq::empty());
    while i < outputs.len()
        invariant
            i <= outputs.len(),
            all == views(outputs@),
            first_failed_signature(all.take(i as int)) is None,
        decreases outputs.len() - i,
    {
        proof {
            assert(all.take(i + 1).drop_last() =~= all.take(i as int));
            assert(all.take(i + 1).last() == outputs@[i as int]@);
        }
        if outputs[i].result != DkimResult::Pass {
            match &outputs[i].signature {
                Some(signature) => {
                    let found = signature.duplicate();
                    proof {
                        lemma_first_failed_stays(all, i + 1);
                    }
                    return Some(found);
                },
                None => {},
            }
        }
        i += 1;
    }
    assert(all.take(i as int) =~= all);
    None
}

/// Once a failed signature is found among the first outputs, it is the
/// one found among all of them.
proof fn lemma_first_failed_stays(outputs: Seq<DkimOutputView>, n: int)
    requires
        0 <= n <= outputs.len(),
        first_failed_signature(outputs.take(n)) is Some,
    ensures
        first_failed_signature(outputs) == first_failed_signature(outputs.take(n)),
    decreases outputs.len() - n,
{
    if n < outputs.len() {
        assert(outputs.take(n + 1).drop_last() =~= outputs.take(n));
        lemma_first_failed_stays(outputs, n + 1);
    } else {
        assert(outputs.take(n) =~= outputs);
    }
}

/// The DKIM results of a record, from the outputs of the verification.
pub fn record_dkim_results(outputs: &Vec<DkimOutput>) -> (results: Vec<DKIMAuthResult>)
    ensures
        views(results@) == dkim_results(views(outputs@)),
{
    let ghost all = views(outputs@);
    let mut results: Vec<DKIMAuthResult> = Vec::new();
    let mut i: usize = 0;
    assert(all.take(0) =~= Seq::empty());
    assert(views(results@) =~= Seq::empty());
    while i < outputs.len()
        invariant
            i <= outputs.len(),
            all == views(outputs@),
            views(results@) == dkim_results(all.take(i as int)),
        decreases outputs.len() - i,
    {
        proof {
            assert(all.take(i + 1).drop_last() =~= all.take(i as int));
            assert(all.take(i + 1).last() == outputs@[i as int]@);
        }
        match &outputs[i].signature {
            Some(signature) => {
                let result = DKIMAuthResult {
                    domain: signature.domain.duplicate(),
                    selector: signature.selector.duplicate(),
                    result: outputs[i].result,
                    human_result: duplicate_option(&outputs[i].human_result),
                };
                proof {
                    lemma_views_push(results@, result);
                }
                results.push(result);
            },
            None => {},
        }
        i += 1;
    }
    assert(all.take(i as int) =~= all);
    results
}

impl Session {
    /// The SPF check that is reported as failed.
    pub fn failed_spf_output(&self) -> (failed: Option<&SpfOutput>)
        ensures
            match failed {
                Some(output) => failed_spf(self.data@) == Some(output@),
                None => failed_spf(self.data@) is None,
            },
    {
        match &self.data.spf_ehlo {
            Some(output) => {
                if output.result != SpfResult::Pass {
                    return Some(output);
                }
            },
            None => {},
        }
        match &self.data.spf_mail_from {
            Some(output) => {
                if output.result != SpfResult::Pass {
                    return Some(output);
                }
            },
            None => {},
        }
        None
    }

    /// The feedback of the failure report of a message.
    pub fn auth_failure(
        &self,
        options: FailureOptions,
        dkim_output: &Vec<DkimOutput>,
        auth_results: &str,
        headers: &str,
        rejected: bool,
    ) -> (failure: AuthFailure)
        ensures
            failure@ == feedback(
                options,
                self.data@,
                views(dkim_output@),
                auth_results@,
                headers@,
                rejected,
            ),
    {
        let dkim = if options.reports_dkim() {
            find_failed_signature(dkim_output)
        } else {
            None
        };
        let spf_dns = if options.reports_spf() {
            match self.failed_spf_output() {
                Some(output) => {
                    let mut text = String::from_str("txt : ");
                    text.append(output.domain.as_str());
                    text.append(" : v=SPF1");
                    Some(text)
                },
                None => None,
            }
        } else {
            None
        };
        let identity_alignment = if dkim.is_some() && spf_dns.is_some() {
            IdentityAlignment::DkimSpf
        } else if dkim.is_some() {
            IdentityAlignment::Dkim
        } else {
            IdentityAlignment::Spf
        };
        AuthFailure {
            rejected,
            authentication_results: String::from_str(auth_results),
            headers: String::from_str(headers),
            dkim,
            spf_dns,
            identity_alignment,
        }
    }

    /// The aggregate record of a message.
    pub fn aggregate_record(
        &self,
        message: &AuthenticatedMessage,
        dmarc_output: &DmarcOutput,
        dkim_output: &Vec<DkimOutput>,
        arc_output: &Option<ArcOutput>,
    ) -> (record: Record)
        ensures
            record@ == aggregate_record(
                self.data@,
                message.from@,
                dmarc_output@,
                views(dkim_output@),
                option_view(*arc_output),
            ),
    {
        let mut reason: Vec<PolicyOverrideReason> = Vec::new();
        assert(views(reason@) =~= Seq::empty());
        match arc_output {
            Some(arc) => {
                if arc.result == DkimResult::Pass {
                    let note = PolicyOverrideReason {
                        type_: PolicyOverride::LocalPolicy,
                        comment: Some(arc.comment.duplicate()),
                    };
                    reason.push(note);
                    assert(views(reason@) =~= seq![note@]);
                }
            },
            None => {},
        }
        let mut spf: Vec<SPFAuthResult> = Vec::new();
        assert(views(spf@) =~= Seq::empty());
        match &self.data.spf_ehlo {
            Some(output) => {
                let result = SPFAuthResult {
                    domain: output.domain.duplicate(),
                    scope: SPFDomainScope::Helo,
                    result: output.result,
                    human_result: None,
                };
                proof {
                    lemma_views_push(spf@, result);
                }
                spf.push(result);
            },
            None => {},
        }
        match &self.data.spf_mail_from {
            Some(output) => {
                let result = SPFAuthResult {
                    domain: output.domain.duplicate(),
                    scope: SPFDomainScope::MailFrom,
                    result: output.result,
                    human_result: None,
                };
                proof {
                    lemma_views_push(spf@, result);
                }
                spf.push(result);
            },
            None => {},
        }
        assert(views(spf@) =~= spf_results(self.data@));
        Record {
            source_ip: Some(self.data.remote_ip),
            count: 1,
            disposition: dmarc_output.disposition,
            dkim: dmarc_output.dkim_result,
            spf: dmarc_output.spf_result,
            reason,
            envelope_to: None,
            envelope_from: match &self.data.mail_from {
                Some(sender) => sender.domain.duplicate(),
                None => self.data.helo_domain.duplicate(),
            },
            header_from: domain_part(message.from.as_str()),
            dkim_results: record_dkim_results(dkim_output),
            spf_results: spf,
        }
    }

    /// Decides what is done about a message that was evaluated under
    /// DMARC, given what the collaborators answered.
    ///
    /// A failure report goes out if the configuration sends failure
    /// reports, the policy asks for one, and a `ruf` address is left
    /// after authorization and throttling; it shows only the failures
    /// that the policy asks for. Whether or not one goes out, the
    /// message's record is handed on for the aggregate report if
    /// aggregate reports are sent and the policy names a `rua` address.
    pub fn send_dmarc_report(
        &self,
        message: &AuthenticatedMessage,
        auth_results: &str,
        rejected: bool,
        dmarc_output: DmarcOutput,
        dkim_output: &Vec<DkimOutput>,
        arc_output: &Option<ArcOutput>,
        replies: Replies,
    ) -> (actions: DmarcActions)
        ensures
            actions.events@ == failure_events(replies, dmarc_output.failure_report),
            option_view(actions.report) == failure_report(
                self.data@,
                message@,
                auth_results@,
                rejected,
                dmarc_output.failure_report,
                views(dkim_output@),
                replies,
            ),
            option_view(actions.aggregate) == aggregate_event(
                self.data@,
                message.from@,
                dmarc_output@,
                views(dkim_output@),
                option_view(*arc_output),
                replies,
            ),
    {
        let mut events: Vec<OutgoingReportEvent> = Vec::new();
        let mut report: Option<FailureReport> = None;

        // Send failure report
        match (&replies.failure_rate, dmarc_output.failure_report) {
            (Some(_), Some(options)) => {
                // Only authorized addresses that the throttle lets through
                let rcpts = match &replies.authorized {
                    Some(rcpts) => {
                        if rcpts.len() == 0 {
                            events.push(OutgoingReportEvent::UnauthorizedReportingAddress);
                        }
                        surviving_rcpts(rcpts, &replies.throttle)
                    },
                    None => {
                        events.push(OutgoingReportEvent::ReportingAddressValidationError);
                        Vec::new()
                    },
                };
                if rcpts.len() > 0 {
                    events.push(OutgoingReportEvent::DmarcReport);
                    let to = join(&rcpts, ", ");
                    let headers = message.headers_text();
                    report = Some(
                        FailureReport {
                            from_name: configured_or(&replies.name, "Mail Delivery Subsystem"),
                            from_addr: configured_or(&replies.address, "MAILER-DAEMON@localhost"),
                            rcpts,
                            to,
                            subject: configured_or(&replies.subject, "DMARC Report"),
                            feedback: self.auth_failure(
                                options,
                                dkim_output,
                                auth_results,
                                headers.as_str(),
                                rejected,
                            ),
                        },
                    );
                } else {
                    events.push(OutgoingReportEvent::DmarcRateLimited);
                }
            },
            _ => {},
        }
        assert(events@ =~= failure_events(replies, dmarc_output.failure_report));

        // Send aggregate reports
        let interval = match replies.interval {
            Some(interval) => interval,
            None => AggregateFrequency::Never,
        };
        let aggregate = if interval == AggregateFrequency::Never || dmarc_output.rua.len() == 0 {
            None
        } else {
            let record = self.aggregate_record(message, &dmarc_output, dkim_output, arc_output);
            Some(
                DmarcEvent {
                    domain: dmarc_output.domain,
                    report_record: SizedRecord { record, serialized_size: replies.record_size },
                    rua: dmarc_output.rua,
                    policy: dmarc_output.policy_published,
                    policy_hash: dmarc_output.policy_hash,
                    interval,
                },
            )
        };
        DmarcActions { events, report, aggregate }
    }
}

/// A report shows the detail of a mechanism only if the policy asks
/// for failures of that mechanism, and states the alignment from what
/// it shows: under a policy that asks for DKIM failures only, a message
/// with a failed signature is reported as a DKIM failure, with nothing
/// said of SPF, whether or not SPF failed too.
pub proof fn law_mechanism_filtering(
    options: FailureOptions,
    data: SessionDataView,
    outputs: Seq<DkimOutputView>,
    auth_results: Seq<char>,
    headers: Seq<char>,
    rejected: bool,
)
    ensures
        ({
            let shown = feedback(options, data, outputs, auth_results, headers, rejected);
            &&& shown.dkim is Some ==> options.spec_reports_dkim() && first_failed_signature(
                outputs,
            ) is Some
            &&& shown.spf_dns is Some ==> options.spec_reports_spf() && failed_spf(data) is Some
            &&& options is Dkim && first_failed_signature(outputs) is Some
                ==> shown.identity_alignment == IdentityAlignment::Dkim && shown.spf_dns is None
            &&& options is Spf && failed_spf(data) is Some ==> shown.identity_alignment
                == IdentityAlignment::Spf && shown.dkim is None
            &&& shown.identity_alignment == IdentityAlignment::DkimSpf <==> shown.dkim is Some
                && shown.spf_dns is Some
        }),
{
}

} // verus!
