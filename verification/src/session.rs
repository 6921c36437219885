//! What an SMTP session knows of its peer and of the message's envelope.

use vstd::prelude::*;
use crate::compare::{Structured, views, option_view, same_option, duplicate_option};
use crate::reporting::types::{IpAddress, SpfResult};

verus! {

/// A sender or recipient of the envelope, with the flags and the
/// delivery status notification detail that came with it.
#[derive(Debug)]
pub struct SessionAddress {
    pub address: String,
    pub address_lcase: String,
    pub domain: String,
    pub flags: u64,
    pub dsn_info: Option<String>,
}

pub struct SessionAddressView {
    pub address: Seq<char>,
    pub address_lcase: Seq<char>,
    pub domain: Seq<char>,
    pub flags: u64,
    pub dsn_info: Option<Seq<char>>,
}

impl View for SessionAddress {
    type V = SessionAddressView;

    open spec fn view(&self) -> SessionAddressView {
        SessionAddressView {
            address: self.address@,
            address_lcase: self.address_lcase@,
            domain: self.domain@,
            flags: self.flags,
            dsn_info: option_view(self.dsn_info),
        }
    }
}

impl Structured for SessionAddress {
    fn same_as(&self, other: &Self) -> (same: bool) {
        self.address.same_as(&other.address) && self.address_lcase.same_as(&other.address_lcase)
            && self.domain.same_as(&other.domain) && self.flags == other.flags && same_option(
            &self.dsn_info,
            &other.dsn_info,
        )
    }

    fn duplicate(&self) -> (copy: Self) {
        SessionAddress {
            address: self.address.duplicate(),
            address_lcase: self.address_lcase.duplicate(),
            domain: self.domain.duplicate(),
            flags: self.flags,
            dsn_info: duplicate_option(&self.dsn_info),
        }
    }
}

/// The outcome of an SPF check, and the domain it was made for.
#[derive(Debug)]
pub struct SpfOutput {
    pub result: SpfResult,
    pub domain: String,
}

pub struct SpfOutputView {
    pub result: SpfResult,
    pub domain: Seq<char>,
}

impl View for SpfOutput {
    type V = SpfOutputView;

    open spec fn view(&self) -> SpfOutputView {
        SpfOutputView { result: self.result, domain: self.domain@ }
    }
}

/// The state of a session that message handling reads and changes.
#[derive(Debug)]
pub struct SessionData {
    pub session_id: u64,
    pub remote_ip: IpAddress,
    pub helo_domain: String,
    pub mail_from: Option<SessionAddress>,
    pub rcpt_to: Vec<SessionAddress>,
    pub spf_ehlo: Option<SpfOutput>,
    pub spf_mail_from: Option<SpfOutput>,
}

pub struct SessionDataView {
    pub session_id: u64,
    pub remote_ip: IpAddress,
    pub helo_domain: Seq<char>,
    pub mail_from: Option<SessionAddressView>,
    pub rcpt_to: Seq<SessionAddressView>,
    pub spf_ehlo: Option<SpfOutputView>,
    pub spf_mail_from: Option<SpfOutputView>,
}

impl View for SessionData {
    type V = SessionDataView;

    open spec fn view(&self) -> SessionDataView {
        SessionDataView {
            session_id: self.session_id,
            remote_ip: self.remote_ip,
            helo_domain: self.helo_domain@,
            mail_from: option_view(self.mail_from),
            rcpt_to: views(self.rcpt_to@),
            spf_ehlo: option_view(self.spf_ehlo),
            spf_mail_from: option_view(self.spf_mail_from),
        }
    }
}

/// A session: its data. What it is connected to is no concern of the
/// decisions taken here.
#[derive(Debug)]
pub struct Session {
    pub data: SessionData,
}

} // verus!
