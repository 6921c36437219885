//! Mail filters (milters): what a filter answers, the changes it asks
//! for, and how its answer ends up in the SMTP reply.

pub mod message;

use vstd::prelude::*;
use vstd::string::StringSliceAdditionalSpecFns;
use vstd::utf8::encode_utf8;
use crate::text::{extend_bytes, find_last, from_chars, last_index_of, slice_chars, to_chars, trim,
    trimmed};

verus! {

/// What a filter tells the server to do with a message.
#[derive(Debug)]
pub enum Action {
    Accept,
    Continue,
    Discard,
    Reject,
    TempFail,
    ReplyCode { code: [u8; 3], text: String },
    Shutdown,
    ConnectionFailure,
}

/// Why the conversation with a filter failed.
#[derive(Clone, Copy, Debug, PartialEq, Eq, Structural)]
pub enum Error {
    Io,
    FrameTooLarge,
    FrameInvalid,
    Unexpected,
    Timeout,
    TLSInvalidName,
    Disconnected,
}

/// Why the run of a filter did not end with changes to apply.
#[derive(Debug)]
pub enum Rejection {
    Action(Action),
    Error(Error),
}

/// A change that a filter asks for.
#[derive(Debug)]
#[allow(inconsistent_fields)]
pub enum Modification {
    ChangeFrom { sender: String, args: String },
    AddRcpt { recipient: String, args: String },
    DeleteRcpt { recipient: String },
    ReplaceBody { value: Vec<u8> },
    AddHeader { name: String, value: String },
    InsertHeader { index: u32, name: String, value: String },
    ChangeHeader { index: u32, name: String, value: String },
    Quarantine { reason: String },
}

#[allow(inconsistent_fields)]
pub enum ModificationView {
    ChangeFrom { sender: Seq<char>, args: Seq<char> },
    AddRcpt { recipient: Seq<char>, args: Seq<char> },
    DeleteRcpt { recipient: Seq<char> },
    ReplaceBody { value: Seq<u8> },
    AddHeader { name: Seq<char>, value: Seq<char> },
    InsertHeader { index: u32, name: Seq<char>, value: Seq<char> },
    ChangeHeader { index: u32, name: Seq<char>, value: Seq<char> },
    Quarantine { reason: Seq<char> },
}

impl View for Modification {
    type V = ModificationView;

    open spec fn view(&self) -> ModificationView {
        match self {
            Modification::ChangeFrom { sender, args } => ModificationView::ChangeFrom {
                sender: sender@,
                args: args@,
            },
            Modification::AddRcpt { recipient, args } => ModificationView::AddRcpt {
                recipient: recipient@,
                args: args@,
            },
            Modification::DeleteRcpt { recipient } => ModificationView::DeleteRcpt {
                recipient: recipient@,
            },
            Modification::ReplaceBody { value } => ModificationView::ReplaceBody { value: value@ },
            Modification::AddHeader { name, value } => ModificationView::AddHeader {
                name: name@,
                value: value@,
            },
            Modification::InsertHeader { index, name, value } => ModificationView::InsertHeader {
                index: *index,
                name: name@,
                value: value@,
            },
            Modification::ChangeHeader { index, name, value } => ModificationView::ChangeHeader {
                index: *index,
                name: name@,
                value: value@,
            },
            Modification::Quarantine { reason } => ModificationView::Quarantine { reason: reason@ },
        }
    }
}

impl Action {
    /// Whether the action lets the message go on.
    pub open spec fn goes_on(self) -> bool {
        self is Continue || self is Accept
    }

    /// Lets the conversation go on after `Continue` and `Accept`; any
    /// other action ends it.
    pub fn assert_continue(self) -> (outcome: Result<(), Rejection>)
        ensures
            self.goes_on() ==> outcome == Ok::<(), Rejection>(()),
            !self.goes_on() ==> outcome == Err::<(), Rejection>(Rejection::Action(self)),
    {
        match self {
            Action::Continue | Action::Accept => Ok(()),
            action => Err(Rejection::Action(action)),
        }
    }
}

impl From<Error> for Rejection {
    fn from(err: Error) -> (rejection: Rejection) {
        Rejection::Error(err)
    }
}

impl vstd::std_specs::convert::FromSpecImpl<Error> for Rejection {
    open spec fn obeys_from_spec() -> bool {
        true
    }

    open spec fn from_spec(err: Error) -> Rejection {
        Rejection::Error(err)
    }
}

/// An address without the white space and the angle brackets around
/// it: what stands between a leading `<` and the last `>`, or behind the
/// `<` if no `>` follows.
pub open spec fn stripped(addr: Seq<char>) -> Seq<char> {
    let addr = trimmed(addr);
    if addr.len() > 0 && addr[0] == '<' {
        let inner = addr.drop_first();
        match last_index_of(inner, '>') {
            Some(at) => trimmed(inner.take(at)),
            None => trimmed(inner),
        }
    } else {
        addr
    }
}

/// Removes the white space and the angle brackets around an address.
pub fn strip_brackets(addr: &str) -> (address: String)
    ensures
        address@ == stripped(addr@),
{
    let chars = to_chars(addr);
    let addr = trim(&chars);
    if addr.len() > 0 && addr[0] == '<' {
        let inner = slice_chars(&addr, 1, addr.len());
        assert(inner@ =~= addr@.drop_first());
        match find_last(&inner, '>') {
            Some(at) => {
                let before = slice_chars(&inner, 0, at);
                assert(before@ =~= inner@.take(at as int));
                from_chars(&trim(&before))
            },
            None => from_chars(&trim(&inner)),
        }
    } else {
        from_chars(&addr)
    }
}

/// Whether bytes end with a line feed.
pub open spec fn ends_with_lf(bytes: Seq<u8>) -> bool {
    bytes.len() > 0 && bytes.last() == 0x0a
}

/// The line break of the protocol.
pub open spec fn crlf() -> Seq<u8> {
    seq![0x0du8, 0x0au8]
}

/// Bytes with a line break behind them, unless they end with a line
/// feed already.
pub open spec fn line(bytes: Seq<u8>) -> Seq<u8> {
    if ends_with_lf(bytes) {
        bytes
    } else {
        bytes + crlf()
    }
}

/// The SMTP reply that stands for a filter's action.
pub open spec fn reply(action: Action) -> Seq<u8> {
    match action {
        Action::Discard => encode_utf8("250 2.0.0 Message queued for delivery.\r\n"@),
        Action::Reject => encode_utf8("503 5.5.3 Message rejected.\r\n"@),
        Action::TempFail => encode_utf8("451 4.3.5 Unable to accept message at this time.\r\n"@),
        Action::ReplyCode { code, text } => line(code@.push(0x20u8) + encode_utf8(text@)),
        Action::Shutdown => encode_utf8("421 4.3.0 Server shutting down.\r\n"@),
        _ => Seq::empty(),
    }
}

/// Appends a line break unless the bytes end with a line feed.
pub fn end_line(bytes: &mut Vec<u8>)
    ensures
        final(bytes)@ == line(old(bytes)@),
{
    let len = bytes.len();
    if !(len > 0 && bytes[len - 1] == 0x0a) {
        bytes.push(0x0d);
        bytes.push(0x0a);
        assert(bytes@ =~= old(bytes)@ + crlf());
    }
}

/// The SMTP reply for an action that ends the handling of a message.
pub fn rejection_response(action: &Action) -> (response: Vec<u8>)
    requires
        !action.goes_on(),
    ensures
        response@ == reply(*action),
{
    match action {
        Action::Discard => "250 2.0.0 Message queued for delivery.\r\n".as_bytes_vec(),
        Action::Reject => "503 5.5.3 Message rejected.\r\n".as_bytes_vec(),
        Action::TempFail => "451 4.3.5 Unable to accept message at this time.\r\n".as_bytes_vec(),
        Action::ReplyCode { code, text } => {
            let mut response: Vec<u8> = Vec::new();
            response.push(code[0]);
            response.push(code[1]);
            response.push(code[2]);
            assert(response@ =~= code@);
            response.push(0x20);
            extend_bytes(&mut response, text.as_str().as_bytes());
            end_line(&mut response);
            response
        },
        Action::Shutdown => "421 4.3.0 Server shutting down.\r\n".as_bytes_vec(),
        Action::ConnectionFailure => Vec::new(),
        Action::Accept | Action::Continue => Vec::new(),
    }
}

} // verus!
