//! The data that the reporting engine works on: authentication results,
//! report records, published policies and assembled reports.

use vstd::prelude::*;
use vstd::utf8::encode_utf8;
use crate::index::{BASIS, mix_bytes, mix_number, mixed_all, mixed_number};
use crate::compare::{Structured, views, option_view, same_option, same_items, duplicate_option,
    duplicate_items};

verus! {

/// The address a message came from.
#[derive(Clone, Copy, Debug, PartialEq, Eq, Structural)]
pub enum IpAddress {
    V4(u32),
    V6(u128),
}

/// What was done with a message under the evaluated policy.
#[derive(Clone, Copy, Debug, PartialEq, Eq, Structural)]
pub enum ActionDisposition {
    NoAction,
    Pass,
    Quarantine,
    Reject,
    Unspecified,
}

/// The DMARC verdict on one mechanism.
#[derive(Clone, Copy, Debug, PartialEq, Eq, Structural)]
pub enum DmarcResult {
    Pass,
    Fail,
    Unspecified,
}

/// Why the applied policy differs from the published one.
#[derive(Clone, Copy, Debug, PartialEq, Eq, Structural)]
pub enum PolicyOverride {
    LocalPolicy,
    MailingList,
    PolicyTestMode,
    TrustedForwarder,
    Other,
}

/// The outcome of a DKIM verification.
#[derive(Clone, Copy, Debug, PartialEq, Eq, Structural)]
pub enum DkimResult {
    Absent,
    Pass,
    Fail,
    Policy,
    Neutral,
    TempError,
    PermError,
}

/// The identity an SPF check was made for.
#[derive(Clone, Copy, Debug, PartialEq, Eq, Structural)]
pub enum SPFDomainScope {
    Helo,
    MailFrom,
    Unspecified,
}

/// The outcome of an SPF check.
#[derive(Clone, Copy, Debug, PartialEq, Eq, Structural)]
pub enum SpfResult {
    Absent,
    Neutral,
    Pass,
    Fail,
    SoftFail,
    TempError,
    PermError,
}

/// The alignment mode a policy asks for.
#[derive(Clone, Copy, Debug, PartialEq, Eq, Structural)]
pub enum Alignment {
    Relaxed,
    Strict,
    Unspecified,
}

/// The disposition a policy asks for.
#[derive(Clone, Copy, Debug, PartialEq, Eq, Structural)]
pub enum Disposition {
    NoAction,
    Quarantine,
    Reject,
    Unspecified,
}

/// How the policy record was found.
#[derive(Clone, Copy, Debug, PartialEq, Eq, Structural)]
pub enum Discovery {
    Psl,
    Treewalk,
    Unspecified,
}

/// A reason for a policy override, with an optional comment.
#[derive(Debug)]
pub struct PolicyOverrideReason {
    pub type_: PolicyOverride,
    pub comment: Option<String>,
}

pub struct PolicyOverrideReasonView {
    pub type_: PolicyOverride,
    pub comment: Option<Seq<char>>,
}

impl View for PolicyOverrideReason {
    type V = PolicyOverrideReasonView;

    open spec fn view(&self) -> PolicyOverrideReasonView {
        PolicyOverrideReasonView { type_: self.type_, comment: option_view(self.comment) }
    }
}

impl Structured for PolicyOverrideReason {
    fn same_as(&self, other: &Self) -> (same: bool) {
        self.type_ == other.type_ && same_option(&self.comment, &other.comment)
    }

    fn duplicate(&self) -> (copy: Self) {
        PolicyOverrideReason { type_: self.type_, comment: duplicate_option(&self.comment) }
    }
}

/// The DKIM result for one signature.
#[derive(Debug)]
pub struct DKIMAuthResult {
    pub domain: String,
    pub selector: String,
    pub result: DkimResult,
    pub human_result: Option<String>,
}

pub struct DKIMAuthResultView {
    pub domain: Seq<char>,
    pub selector: Seq<char>,
    pub result: DkimResult,
    pub human_result: Option<Seq<char>>,
}

impl View for DKIMAuthResult {
    type V = DKIMAuthResultView;

    open spec fn view(&self) -> DKIMAuthResultView {
        DKIMAuthResultView {
            domain: self.domain@,
            selector: self.selector@,
            result: self.result,
            human_result: option_view(self.human_result),
        }
    }
}

impl Structured for DKIMAuthResult {
    fn same_as(&self, other: &Self) -> (same: bool) {
        self.domain.same_as(&other.domain) && self.selector.same_as(&other.selector)
            && self.result == other.result && same_option(&self.human_result, &other.human_result)
    }

    fn duplicate(&self) -> (copy: Self) {
        DKIMAuthResult {
            domain: self.domain.duplicate(),
            selector: self.selector.duplicate(),
            result: self.result,
            human_result: duplicate_option(&self.human_result),
        }
    }
}

/// The SPF result for one identity.
#[derive(Debug)]
pub struct SPFAuthResult {
    pub domain: String,
    pub scope: SPFDomainScope,
    pub result: SpfResult,
    pub human_result: Option<String>,
}

pub struct SPFAuthResultView {
    pub domain: Seq<char>,
    pub scope: SPFDomainScope,
    pub result: SpfResult,
    pub human_result: Option<Seq<char>>,
}

impl View for SPFAuthResult {
    type V = SPFAuthResultView;

    open spec fn view(&self) -> SPFAuthResultView {
        SPFAuthResultView {
            domain: self.domain@,
            scope: self.scope,
            result: self.result,
            human_result: option_view(self.human_result),
        }
    }
}

impl Structured for SPFAuthResult {
    fn same_as(&self, other: &Self) -> (same: bool) {
        self.domain.same_as(&other.domain) && self.scope == other.scope
            && self.result == other.result && same_option(&self.human_result, &other.human_result)
    }

    fn duplicate(&self) -> (copy: Self) {
        SPFAuthResult {
            domain: self.domain.duplicate(),
            scope: self.scope,
            result: self.result,
            human_result: duplicate_option(&self.human_result),
        }
    }
}

/// One row of an aggregate report: the authentication snapshot of the
/// messages it stands for, and how many they are.
#[derive(Debug)]
pub struct Record {
    pub source_ip: Option<IpAddress>,
    pub count: u32,
    pub disposition: ActionDisposition,
    pub dkim: DmarcResult,
    pub spf: DmarcResult,
    pub reason: Vec<PolicyOverrideReason>,
    pub envelope_to: Option<String>,
    pub envelope_from: String,
    pub header_from: String,
    pub dkim_results: Vec<DKIMAuthResult>,
    pub spf_results: Vec<SPFAuthResult>,
}

pub struct RecordView {
    pub source_ip: Option<IpAddress>,
    pub count: u32,
    pub disposition: ActionDisposition,
    pub dkim: DmarcResult,
    pub spf: DmarcResult,
    pub reason: Seq<PolicyOverrideReasonView>,
    pub envelope_to: Option<Seq<char>>,
    pub envelope_from: Seq<char>,
    pub header_from: Seq<char>,
    pub dkim_results: Seq<DKIMAuthResultView>,
    pub spf_results: Seq<SPFAuthResultView>,
}

/// An address as a number: the address itself if it has four bytes,
/// the two halves of a longer one laid over each other, 0 for none.
pub open spec fn address_number(address: Option<IpAddress>) -> u64 {
    match address {
        Some(IpAddress::V4(bits)) => bits as u64,
        Some(IpAddress::V6(bits)) => ((bits % 0x1_0000_0000_0000_0000) as u64) ^ ((bits
            / 0x1_0000_0000_0000_0000) as u64),
        None => 0,
    }
}

impl RecordView {
    /// A hash of what identifies a record's group: records of one group
    /// have one hash.
    pub open spec fn group_hash(self) -> u64 {
        mixed_number(
            mixed_number(
                mixed_all(
                    mixed_all(
                        mixed_number(BASIS, address_number(self.source_ip)),
                        encode_utf8(self.header_from),
                    ),
                    encode_utf8(self.envelope_from),
                ),
                self.dkim_results.len() as u64,
            ),
            self.spf_results.len() as u64,
        )
    }

    /// What identifies a record's group: every field but the count.
    pub open spec fn dedup_key(self) -> RecordView {
        RecordView { count: 0, ..self }
    }

    /// The record with another count.
    pub open spec fn with_count(self, count: u32) -> RecordView {
        RecordView { count, ..self }
    }
}

impl View for Record {
    type V = RecordView;

    open spec fn view(&self) -> RecordView {
        RecordView {
            source_ip: self.source_ip,
            count: self.count,
            disposition: self.disposition,
            dkim: self.dkim,
            spf: self.spf,
            reason: views(self.reason@),
            envelope_to: option_view(self.envelope_to),
            envelope_from: self.envelope_from@,
            header_from: self.header_from@,
            dkim_results: views(self.dkim_results@),
            spf_results: views(self.spf_results@),
        }
    }
}

impl Record {
    /// An empty record: no address, no results, count 0.
    pub fn new() -> (record: Record)
        ensures
            record@ == (RecordView {
                source_ip: None,
                count: 0,
                disposition: ActionDisposition::Unspecified,
                dkim: DmarcResult::Unspecified,
                spf: DmarcResult::Unspecified,
                reason: Seq::empty(),
                envelope_to: None,
                envelope_from: Seq::empty(),
                header_from: Seq::empty(),
                dkim_results: Seq::empty(),
                spf_results: Seq::empty(),
            }),
    {
        let record = Record {
            source_ip: None,
            count: 0,
            disposition: ActionDisposition::Unspecified,
            dkim: DmarcResult::Unspecified,
            spf: DmarcResult::Unspecified,
            reason: Vec::new(),
            envelope_to: None,
            envelope_from: String::new(),
            header_from: String::new(),
            dkim_results: Vec::new(),
            spf_results: Vec::new(),
        };
        assert(record@.reason =~= Seq::empty());
        assert(record@.dkim_results =~= Seq::empty());
        assert(record@.spf_results =~= Seq::empty());
        record
    }

    /// A hash of what identifies the record's group.
    pub fn group_hash(&self) -> (hash: u64)
        ensures
            hash == self@.group_hash(),
            hash == self@.dedup_key().group_hash(),
    {
        let address: u64 = match self.source_ip {
            Some(IpAddress::V4(bits)) => bits as u64,
            Some(IpAddress::V6(bits)) => ((bits % 0x1_0000_0000_0000_0000) as u64) ^ ((bits
                / 0x1_0000_0000_0000_0000) as u64),
            None => 0,
        };
        let hash = mix_number(BASIS, address);
        let hash = mix_bytes(hash, self.header_from.as_str().as_bytes());
        let hash = mix_bytes(hash, self.envelope_from.as_str().as_bytes());
        let hash = mix_number(hash, self.dkim_results.len() as u64);
        mix_number(hash, self.spf_results.len() as u64)
    }

    /// Whether two records belong to one group: they agree on every field
    /// but the count.
    pub fn same_group(&self, other: &Record) -> (same: bool)
        ensures
            same == (self@.dedup_key() == other@.dedup_key()),
    {
        let same = self.source_ip == other.source_ip && self.disposition == other.disposition
            && self.dkim == other.dkim && self.spf == other.spf
            && same_items(&self.reason, &other.reason)
            && same_option(&self.envelope_to, &other.envelope_to)
            && self.envelope_from.same_as(&other.envelope_from)
            && self.header_from.same_as(&other.header_from)
            && same_items(&self.dkim_results, &other.dkim_results)
            && same_items(&self.spf_results, &other.spf_results);
        same
    }

    /// The record with another count.
    pub fn with_count(self, count: u32) -> (record: Record)
        ensures
            record@ == self@.with_count(count),
    {
        let mut record = self;
        record.count = count;
        record
    }

    /// The record with the address it was seen from.
    pub fn with_source_ip(self, source_ip: IpAddress) -> (record: Record)
        ensures
            record@ == (RecordView { source_ip: Some(source_ip), ..self@ }),
    {
        let mut record = self;
        record.source_ip = Some(source_ip);
        record
    }

    /// The record with the domain of the message's `From` header.
    pub fn with_header_from(self, header_from: String) -> (record: Record)
        ensures
            record@ == (RecordView { header_from: header_from@, ..self@ }),
    {
        let mut record = self;
        record.header_from = header_from;
        record
    }

    /// The record with the domain of the envelope sender.
    pub fn with_envelope_from(self, envelope_from: String) -> (record: Record)
        ensures
            record@ == (RecordView { envelope_from: envelope_from@, ..self@ }),
    {
        let mut record = self;
        record.envelope_from = envelope_from;
        record
    }

    /// The record with one more DKIM result.
    pub fn with_dkim_auth_result(self, auth_result: DKIMAuthResult) -> (record: Record)
        ensures
            record@ == (RecordView {
                dkim_results: self@.dkim_results.push(auth_result@),
                ..self@
            }),
    {
        let mut record = self;
        proof {
            crate::compare::lemma_views_push(record.dkim_results@, auth_result);
        }
        record.dkim_results.push(auth_result);
        record
    }

    /// The record with one more SPF result.
    pub fn with_spf_auth_result(self, auth_result: SPFAuthResult) -> (record: Record)
        ensures
            record@ == (RecordView {
                spf_results: self@.spf_results.push(auth_result@),
                ..self@
            }),
    {
        let mut record = self;
        proof {
            crate::compare::lemma_views_push(record.spf_results@, auth_result);
        }
        record.spf_results.push(auth_result);
        record
    }

    /// The record with one more policy override reason.
    pub fn with_policy_override_reason(self, reason: PolicyOverrideReason) -> (record: Record)
        ensures
            record@ == (RecordView { reason: self@.reason.push(reason@), ..self@ }),
    {
        let mut record = self;
        proof {
            crate::compare::lemma_views_push(record.reason@, reason);
        }
        record.reason.push(reason);
        record
    }
}

impl Structured for Record {
    fn same_as(&self, other: &Self) -> (same: bool) {
        self.count == other.count && self.same_group(other)
    }

    fn duplicate(&self) -> (copy: Self) {
        Record {
            source_ip: self.source_ip,
            count: self.count,
            disposition: self.disposition,
            dkim: self.dkim,
            spf: self.spf,
            reason: duplicate_items(&self.reason),
            envelope_to: duplicate_option(&self.envelope_to),
            envelope_from: self.envelope_from.duplicate(),
            header_from: self.header_from.duplicate(),
            dkim_results: duplicate_items(&self.dkim_results),
            spf_results: duplicate_items(&self.spf_results),
        }
    }
}

/// A report destination published by a domain, with the largest report
/// it accepts (0 for no limit).
#[derive(Debug)]
pub struct URI {
    pub uri: String,
    pub max_size: usize,
}

pub struct URIView {
    pub uri: Seq<char>,
    pub max_size: usize,
}

impl View for URI {
    type V = URIView;

    open spec fn view(&self) -> URIView {
        URIView { uri: self.uri@, max_size: self.max_size }
    }
}

impl Structured for URI {
    fn same_as(&self, other: &Self) -> (same: bool) {
        self.uri.same_as(&other.uri) && self.max_size == other.max_size
    }

    fn duplicate(&self) -> (copy: Self) {
        URI { uri: self.uri.duplicate(), max_size: self.max_size }
    }
}

/// The policy a domain published, as it is written into a report.
#[derive(Debug)]
pub struct PolicyPublished {
    pub domain: String,
    pub adkim: Alignment,
    pub aspf: Alignment,
    pub p: Disposition,
    pub sp: Disposition,
    pub np: Disposition,
    pub testing: bool,
    pub discovery_method: Discovery,
    pub fo: Option<String>,
}

pub struct PolicyPublishedView {
    pub domain: Seq<char>,
    pub adkim: Alignment,
    pub aspf: Alignment,
    pub p: Disposition,
    pub sp: Disposition,
    pub np: Disposition,
    pub testing: bool,
    pub discovery_method: Discovery,
    pub fo: Option<Seq<char>>,
}

impl View for PolicyPublished {
    type V = PolicyPublishedView;

    open spec fn view(&self) -> PolicyPublishedView {
        PolicyPublishedView {
            domain: self.domain@,
            adkim: self.adkim,
            aspf: self.aspf,
            p: self.p,
            sp: self.sp,
            np: self.np,
            testing: self.testing,
            discovery_method: self.discovery_method,
            fo: option_view(self.fo),
        }
    }
}

impl Structured for PolicyPublished {
    fn same_as(&self, other: &Self) -> (same: bool) {
        self.domain.same_as(&other.domain) && self.adkim == other.adkim && self.aspf == other.aspf
            && self.p == other.p && self.sp == other.sp && self.np == other.np
            && self.testing == other.testing && self.discovery_method == other.discovery_method
            && same_option(&self.fo, &other.fo)
    }

    fn duplicate(&self) -> (copy: Self) {
        PolicyPublished {
            domain: self.domain.duplicate(),
            adkim: self.adkim,
            aspf: self.aspf,
            p: self.p,
            sp: self.sp,
            np: self.np,
            testing: self.testing,
            discovery_method: self.discovery_method,
            fo: duplicate_option(&self.fo),
        }
    }
}

} // verus!
