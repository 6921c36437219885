//! A message as its handlers see it: the parsed headers and the raw
//! bytes of its header section and of its body.

use vstd::prelude::*;
use vstd::utf8::{decode_utf8, valid_utf8};
use crate::compare::{Structured, views};

verus! {

/// One header field: its name, and its value as it stands behind the
/// colon.
#[derive(Debug)]
pub struct Header {
    pub name: Vec<u8>,
    pub value: Vec<u8>,
}

pub struct HeaderView {
    pub name: Seq<u8>,
    pub value: Seq<u8>,
}

impl View for Header {
    type V = HeaderView;

    open spec fn view(&self) -> HeaderView {
        HeaderView { name: self.name@, value: self.value@ }
    }
}

impl Structured for Header {
    fn same_as(&self, other: &Self) -> (same: bool) {
        same_bytes(&self.name, &other.name) && same_bytes(&self.value, &other.value)
    }

    fn duplicate(&self) -> (copy: Self) {
        Header { name: copy_bytes(&self.name), value: copy_bytes(&self.value) }
    }
}

/// Whether two byte strings are equal.
pub fn same_bytes(a: &Vec<u8>, b: &Vec<u8>) -> (same: bool)
    ensures
        same == (a@ == b@),
{
    if a.len() != b.len() {
        return false;
    }
    let mut i: usize = 0;
    while i < a.len()
        invariant
            a.len() == b.len(),
            i <= a.len(),
            forall|k: int| 0 <= k < i ==> a@[k] == b@[k],
        decreases a.len() - i,
    {
        if a[i] != b[i] {
            return false;
        }
        i += 1;
    }
    assert(a@ =~= b@);
    true
}

/// A copy of a byte string.
pub fn copy_bytes(bytes: &Vec<u8>) -> (copy: Vec<u8>)
    ensures
        copy@ == bytes@,
{
    let mut copy: Vec<u8> = Vec::new();
    let mut i: usize = 0;
    while i < bytes.len()
        invariant
            i <= bytes.len(),
            copy@ == bytes@.take(i as int),
        decreases bytes.len() - i,
    {
        copy.push(bytes[i]);
        assert(copy@ =~= bytes@.take(i + 1));
        i += 1;
    }
    assert(bytes@.take(i as int) =~= bytes@);
    copy
}

/// A message that went through authentication.
#[derive(Debug)]
pub struct AuthenticatedMessage {
    /// The address of the `From` header.
    pub from: String,
    /// The header fields, in order.
    pub headers: Vec<Header>,
    /// The header section as it was received, up to and including the
    /// empty line that ends it.
    pub raw_headers: Vec<u8>,
    /// The body as it was received.
    pub raw_body: Vec<u8>,
}

pub struct AuthenticatedMessageView {
    pub from: Seq<char>,
    pub headers: Seq<HeaderView>,
    pub raw_headers: Seq<u8>,
    pub raw_body: Seq<u8>,
}

impl View for AuthenticatedMessage {
    type V = AuthenticatedMessageView;

    open spec fn view(&self) -> AuthenticatedMessageView {
        AuthenticatedMessageView {
            from: self.from@,
            headers: views(self.headers@),
            raw_headers: self.raw_headers@,
            raw_body: self.raw_body@,
        }
    }
}

/// The text that bytes spell in UTF-8; nothing if they spell none.
pub open spec fn text_of(bytes: Seq<u8>) -> Seq<char> {
    if valid_utf8(bytes) {
        decode_utf8(bytes)
    } else {
        Seq::empty()
    }
}

/// Reads bytes as UTF-8. The body is `std::str::from_utf8`, which is
/// documented to succeed exactly on valid UTF-8 and to give the text
/// that the bytes encode; the contract says that and is not proved
/// here.
#[verifier::external_body]
pub(crate) fn utf8_text(bytes: &[u8]) -> (text: Option<String>)
    ensures
        match text {
            Some(text) => valid_utf8(bytes@) && text@ == decode_utf8(bytes@),
            None => !valid_utf8(bytes@),
        },
{
    std::str::from_utf8(bytes).ok().map(|text| text.to_string())
}

impl AuthenticatedMessage {
    /// The header section as text; empty if it is not valid UTF-8.
    pub fn headers_text(&self) -> (text: String)
        ensures
            text@ == text_of(self.raw_headers@),
    {
        match utf8_text(self.raw_headers.as_slice()) {
            Some(text) => text,
            None => String::new(),
        }
    }
}

} // verus!
