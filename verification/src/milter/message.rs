//! How a filter's run ends for a message: the changes that filters ask
//! for are gathered, the first that turns the message down ends the
//! handling, and the changes are applied to the session and the message.

use vstd::prelude::*;
use vstd::string::{StringExecFns, StringSliceAdditionalSpecFns};
use vstd::utf8::encode_utf8;
use smtp_proto::request::parser::Rfc5321Parser;
use crate::compare::{Structured, views, option_view, lemma_views_push};
use crate::message::{AuthenticatedMessage, AuthenticatedMessageView, Header, HeaderView,
    copy_bytes};
use crate::milter::{Action, Error, Modification, ModificationView, Rejection, crlf, end_line,
    ends_with_lf, line, rejection_response, reply, strip_brackets, stripped};
use crate::session::{Session, SessionAddress, SessionAddressView, SessionData, SessionDataView};
use crate::text::{ascii_lower, domain_of, domain_part, eq_ignore_ascii_case, equal_ignoring_case,
    extend_bytes, last_index_of, lemma_last_index_of, lowercase, to_lowercase};

verus! {

/// The flags and the envelope id that the parameters of a `MAIL FROM`
/// command give, as `smtp_proto` reads them; `None` where it rejects
/// them.
pub uninterp spec fn mail_from_parameters(args: Seq<char>) -> Option<(u64, Option<Seq<char>>)>;

/// The flags and the `ORCPT` address that the parameters of a
/// `RCPT TO` command give, as `smtp_proto` reads them; `None` where it
/// rejects them.
pub uninterp spec fn rcpt_to_parameters(args: Seq<char>) -> Option<(u64, Option<Seq<char>>)>;

/// Flags and detail as contracts speak of them.
pub open spec fn parameters_view(parsed: Option<(u64, Option<String>)>) -> Option<
    (u64, Option<Seq<char>>),
> {
    match parsed {
        Some((flags, detail)) => Some((flags, option_view(detail))),
        None => None,
    }
}

/// Reads the parameters of a `MAIL FROM` command. The body calls
/// `Rfc5321Parser::mail_from_parameters` of `smtp_proto` on the bytes of
/// `args` and hands back the flags and the envelope id that it found;
/// the contract names that result and says no more of it.
#[verifier::external_body]
fn parse_mail_from_parameters(args: &str) -> (parsed: Option<(u64, Option<String>)>)
    ensures
        parameters_view(parsed) == mail_from_parameters(args@),
{
    Rfc5321Parser::new(&mut args.as_bytes().iter())
        .mail_from_parameters(String::new().into())
        .ok()
        .map(|addr| (addr.flags, addr.env_id.map(|id| id.into_owned())))
}

/// Reads the parameters of a `RCPT TO` command. The body calls
/// `Rfc5321Parser::rcpt_to_parameters` of `smtp_proto` on the bytes of
/// `args` and hands back the flags and the `ORCPT` address that it
/// found; the contract names that result and says no more of it.
#[verifier::external_body]
fn parse_rcpt_to_parameters(args: &str) -> (parsed: Option<(u64, Option<String>)>)
    ensures
        parameters_view(parsed) == rcpt_to_parameters(args@),
{
    Rfc5321Parser::new(&mut args.as_bytes().iter())
        .rcpt_to_parameters(String::new().into())
        .ok()
        .map(|addr| (addr.flags, addr.orcpt.map(|id| id.into_owned())))
}

/// What the parameters behind an address give: nothing where there are
/// none, else what the parser reads in them once a line feed ends them.
pub open spec fn parameters(args: Seq<char>, sender: bool) -> Option<(u64, Option<Seq<char>>)> {
    if args.len() == 0 {
        None
    } else if sender {
        mail_from_parameters(args.push('\n'))
    } else {
        rcpt_to_parameters(args.push('\n'))
    }
}

/// The envelope address that a filter names: the address without its
/// brackets, in lower case, its domain, and the flags and the detail of
/// its parameters as far as they could be read.
pub open spec fn envelope_address(raw: Seq<char>, args: Seq<char>, sender: bool) -> SessionAddressView {
    let address = stripped(raw);
    SessionAddressView {
        address,
        address_lcase: lowercase(address),
        domain: domain_of(lowercase(address)),
        flags: match parameters(args, sender) {
            Some((flags, _)) => flags,
            None => 0,
        },
        dsn_info: match parameters(args, sender) {
            Some((_, detail)) => detail,
            None => None,
        },
    }
}

/// Whether a recipient with this lower-case address is on the list.
pub open spec fn has_rcpt(rcpts: Seq<SessionAddressView>, address_lcase: Seq<char>) -> bool {
    exists|i: int| 0 <= i < rcpts.len() && (#[trigger] rcpts[i]).address_lcase == address_lcase
}

/// The recipients without those of the given lower-case address.
pub open spec fn without_rcpt(rcpts: Seq<SessionAddressView>, address: Seq<char>) -> Seq<
    SessionAddressView,
>
    decreases rcpts.len(),
{
    if rcpts.len() == 0 {
        Seq::empty()
    } else if rcpts.last().address_lcase == address {
        without_rcpt(rcpts.drop_last(), address)
    } else {
        without_rcpt(rcpts.drop_last(), address).push(rcpts.last())
    }
}

/// The session after one change. Only changes of the sender and of the
/// recipients touch it: a new recipient is added if its address holds
/// an `@` and is not on the list yet.
pub open spec fn session_step(session: SessionDataView, change: ModificationView) -> SessionDataView {
    match change {
        ModificationView::ChangeFrom { sender, args } => SessionDataView {
            mail_from: Some(envelope_address(sender, args, true)),
            ..session
        },
        ModificationView::AddRcpt { recipient, args } => {
            let rcpt = envelope_address(recipient, args, false);
            if last_index_of(rcpt.address, '@') is Some && !has_rcpt(
                session.rcpt_to,
                rcpt.address_lcase,
            ) {
                SessionDataView { rcpt_to: session.rcpt_to.push(rcpt), ..session }
            } else {
                session
            }
        },
        ModificationView::DeleteRcpt { recipient } => SessionDataView {
            rcpt_to: without_rcpt(session.rcpt_to, stripped(recipient)),
            ..session
        },
        _ => session,
    }
}

/// The session after all changes, taken in order.
pub open spec fn session_after(session: SessionDataView, changes: Seq<ModificationView>) -> SessionDataView
    decreases changes.len(),
{
    if changes.len() == 0 {
        session
    } else {
        session_step(session_after(session, changes.drop_last()), changes.last())
    }
}

/// A change to the header section: a header to put in front of the
/// `index`-th header of its name, or, if `is_change`, the new value of
/// that header.
#[derive(Debug)]
pub struct HeaderChange {
    pub index: u32,
    pub name: String,
    pub value: String,
    pub is_change: bool,
}

pub struct HeaderChangeView {
    pub index: u32,
    pub name: Seq<u8>,
    pub value: Seq<u8>,
    pub is_change: bool,
}

impl View for HeaderChange {
    type V = HeaderChangeView;

    open spec fn view(&self) -> HeaderChangeView {
        HeaderChangeView {
            index: self.index,
            name: encode_utf8(self.name@),
            value: encode_utf8(self.value@),
            is_change: self.is_change,
        }
    }
}

/// What the changes to a message come to: the new body, the changes to
/// the header section, and whether the header section is written anew.
pub struct Edits {
    pub body: Seq<u8>,
    pub changes: Seq<HeaderChangeView>,
    pub needs_rewrite: bool,
}

/// Whether the message has a header of this name.
pub open spec fn has_header(headers: Seq<HeaderView>, name: Seq<u8>) -> bool {
    exists|i: int| 0 <= i < headers.len() && equal_ignoring_case((#[trigger] headers[i]).name, name)
}

/// The edits after one change. A header whose change is asked for but
/// which the message does not have is added instead.
pub open spec fn edits_step(edits: Edits, change: ModificationView, headers: Seq<HeaderView>) -> Edits {
    match change {
        ModificationView::ReplaceBody { value } => Edits { body: edits.body + value, ..edits },
        ModificationView::AddHeader { name, value } => Edits {
            changes: edits.changes.push(
                HeaderChangeView {
                    index: 0,
                    name: encode_utf8(name),
                    value: encode_utf8(value),
                    is_change: false,
                },
            ),
            ..edits
        },
        ModificationView::InsertHeader { index, name, value } => Edits {
            changes: edits.changes.push(
                HeaderChangeView {
                    index,
                    name: encode_utf8(name),
                    value: encode_utf8(value),
                    is_change: false,
                },
            ),
            needs_rewrite: true,
            ..edits
        },
        ModificationView::ChangeHeader { index, name, value } => if has_header(
            headers,
            encode_utf8(name),
        ) {
            Edits {
                changes: edits.changes.push(
                    HeaderChangeView {
                        index,
                        name: encode_utf8(name),
                        value: encode_utf8(value),
                        is_change: true,
                    },
                ),
                needs_rewrite: true,
                ..edits
            }
        } else {
            Edits {
                changes: edits.changes.push(
                    HeaderChangeView {
                        index: 0,
                        name: encode_utf8(name),
                        value: encode_utf8(value),
                        is_change: false,
                    },
                ),
                ..edits
            }
        },
        ModificationView::Quarantine { reason } => Edits {
            changes: edits.changes.push(
                HeaderChangeView {
                    index: 0,
                    name: encode_utf8("X-Quarantine"@),
                    value: encode_utf8(reason),
                    is_change: false,
                },
            ),
            ..edits
        },
        _ => edits,
    }
}

/// The edits after all changes, taken in order.
pub open spec fn edits_after(changes: Seq<ModificationView>, headers: Seq<HeaderView>) -> Edits
    decreases changes.len(),
{
    if changes.len() == 0 {
        Edits { body: Seq::empty(), changes: Seq::empty(), needs_rewrite: false }
    } else {
        edits_step(edits_after(changes.drop_last(), headers), changes.last(), headers)
    }
}

/// How many headers have this name.
pub open spec fn count_named(headers: Seq<HeaderView>, name: Seq<u8>) -> nat
    decreases headers.len(),
{
    if headers.len() == 0 {
        0
    } else {
        count_named(headers.drop_last(), name) + if equal_ignoring_case(
            headers.last().name,
            name,
        ) {
            1nat
        } else {
            0nat
        }
    }
}

/// Where the `n`-th header of this name stands, counted from 1.
pub open spec fn nth_named(headers: Seq<HeaderView>, name: Seq<u8>, n: nat) -> Option<int>
    decreases headers.len(),
{
    if headers.len() == 0 {
        None
    } else {
        match nth_named(headers.drop_last(), name, n) {
            Some(at) => Some(at),
            None => if equal_ignoring_case(headers.last().name, name) && count_named(
                headers.drop_last(),
                name,
            ) + 1 == n {
                Some(headers.len() - 1)
            } else {
                None
            },
        }
    }
}

/// Where the last header of this name stands.
pub open spec fn last_named(headers: Seq<HeaderView>, name: Seq<u8>) -> Option<int>
    decreases headers.len(),
{
    if headers.len() == 0 {
        None
    } else if equal_ignoring_case(headers.last().name, name) {
        Some(headers.len() - 1)
    } else {
        last_named(headers.drop_last(), name)
    }
}

/// Where a header is put in: at the top if `index` is 0; else in front
/// of the `index`-th header of its name, or of the last one if there
/// are fewer, or at the top if there is none.
pub open spec fn insert_at(headers: Seq<HeaderView>, name: Seq<u8>, index: u32) -> int {
    if index == 0 {
        0
    } else {
        match nth_named(headers, name, index as nat) {
            Some(at) => at,
            None => match last_named(headers, name) {
                Some(at) => at,
                None => 0,
            },
        }
    }
}

/// The headers after one change. A change of value goes to the
/// `index`-th header of the name, counted from 1: it gets the new value,
/// or is removed if the new value is empty; nothing happens if there is
/// no such header.
pub open spec fn edited(headers: Seq<HeaderView>, change: HeaderChangeView) -> Seq<HeaderView> {
    if change.is_change {
        match nth_named(headers, change.name, change.index as nat) {
            Some(at) => if change.value.len() > 0 {
                headers.update(at, HeaderView { name: headers[at].name, value: change.value })
            } else {
                headers.remove(at)
            },
            None => headers,
        }
    } else {
        headers.insert(
            insert_at(headers, change.name, change.index),
            HeaderView { name: change.name, value: change.value },
        )
    }
}

/// The headers after all changes, taken in order.
pub open spec fn edited_all(headers: Seq<HeaderView>, changes: Seq<HeaderChangeView>) -> Seq<
    HeaderView,
>
    decreases changes.len(),
{
    if changes.len() == 0 {
        headers
    } else {
        edited(edited_all(headers, changes.drop_last()), changes.last())
    }
}

/// Whether a byte is white space of ASCII: space, tab, line feed, form
/// feed or carriage return.
pub open spec fn ascii_whitespace(byte: u8) -> bool {
    byte == 0x20 || byte == 0x09 || byte == 0x0a || byte == 0x0c || byte == 0x0d
}

/// A header as it is written: name, colon, a space unless the value
/// brings its own white space, the value, and a line break unless the
/// value ends with a line feed.
pub open spec fn written(header: HeaderView) -> Seq<u8> {
    let colon: Seq<u8> = if header.value.len() > 0 && ascii_whitespace(header.value[0]) {
        seq![0x3au8]
    } else {
        seq![0x3au8, 0x20u8]
    };
    let end: Seq<u8> = if ends_with_lf(header.value) {
        Seq::empty()
    } else {
        crlf()
    };
    header.name + colon + header.value + end
}

/// The headers as they are written, one after the other.
pub open spec fn written_all(headers: Seq<HeaderView>) -> Seq<u8>
    decreases headers.len(),
{
    if headers.len() == 0 {
        Seq::empty()
    } else {
        written_all(headers.drop_last()) + written(headers.last())
    }
}

/// An added header as it is put in front of the header section.
pub open spec fn added(change: HeaderChangeView) -> Seq<u8> {
    let end: Seq<u8> = if ends_with_lf(change.value) {
        Seq::empty()
    } else {
        crlf()
    };
    change.name + seq![0x3au8, 0x20u8] + change.value + end
}

/// The added headers, one after the other.
pub open spec fn added_all(changes: Seq<HeaderChangeView>) -> Seq<u8>
    decreases changes.len(),
{
    if changes.len() == 0 {
        Seq::empty()
    } else {
        added_all(changes.drop_last()) + added(changes.last())
    }
}

/// The message after the edits, if they change it. Without changes to
/// the headers a new body goes behind the header section as it was
/// received. With them, the body is the new one, or the old one if none
/// was given; the header section is written anew from the edited
/// headers if a change asks for a place in it, and else the added
/// headers go in front of the header section as it was received.
pub open spec fn message_after(message: AuthenticatedMessageView, edits: Edits) -> Option<Seq<u8>> {
    if edits.changes.len() == 0 {
        if edits.body.len() > 0 {
            Some(message.raw_headers + edits.body)
        } else {
            None
        }
    } else {
        let body = if edits.body.len() > 0 {
            edits.body
        } else {
            message.raw_body
        };
        if edits.needs_rewrite {
            Some(written_all(edited_all(message.headers, edits.changes)) + crlf() + body)
        } else {
            Some(added_all(edits.changes) + message.raw_headers + body)
        }
    }
}

/// Builds the envelope address that a filter names.
pub fn envelope(raw: &str, args: &str, sender: bool) -> (address: SessionAddress)
    ensures
        address@ == envelope_address(raw@, args@, sender),
{
    let stripped_address = strip_brackets(raw);
    let address_lcase = to_lowercase(stripped_address.as_str());
    let mut address = SessionAddress {
        domain: domain_part(address_lcase.as_str()),
        address_lcase,
        address: stripped_address,
        flags: 0,
        dsn_info: None,
    };
    if !args.is_empty() {
        let mut ended = String::from_str(args);
        ended.append("\n");
        proof {
            reveal_strlit("\n");
            assert(ended@ =~= args@.push('\n'));
        }
        let parsed = if sender {
            parse_mail_from_parameters(ended.as_str())
        } else {
            parse_rcpt_to_parameters(ended.as_str())
        };
        match parsed {
            Some((flags, detail)) => {
                address.flags = flags;
                address.dsn_info = detail;
            },
            None => {},
        }
    }
    address
}

/// Whether a recipient with this lower-case address is on the list.
pub fn contains_rcpt(rcpts: &Vec<SessionAddress>, address_lcase: &String) -> (found: bool)
    ensures
        found == has_rcpt(views(rcpts@), address_lcase@),
{
    let mut i: usize = 0;
    while i < rcpts.len()
        invariant
            i <= rcpts.len(),
            forall|k: int| 0 <= k < i ==> (#[trigger] views(rcpts@)[k]).address_lcase
                != address_lcase@,
        decreases rcpts.len() - i,
    {
        if rcpts[i].address_lcase.same_as(address_lcase) {
            assert(views(rcpts@)[i as int].address_lcase == address_lcase@);
            return true;
        }
        i += 1;
    }
    false
}

/// Takes the recipients of the given lower-case address off the list.
pub fn remove_rcpt(rcpts: &mut Vec<SessionAddress>, address: &String)
    ensures
        views(final(rcpts)@) == without_rcpt(views(old(rcpts)@), address@),
{
    let ghost all = views(rcpts@);
    let ghost mut k: int = 0;
    let mut i: usize = 0;
    assert(all.take(0) =~= Seq::empty());
    assert(all.skip(0) =~= all);
    while i < rcpts.len()
        invariant
            0 <= k <= all.len(),
            i <= rcpts.len(),
            i == without_rcpt(all.take(k), address@).len(),
            views(rcpts@) == without_rcpt(all.take(k), address@) + all.skip(k),
        decreases rcpts.len() - i,
    {
        proof {
            assert(all.take(k + 1).drop_last() =~= all.take(k));
            assert(views(rcpts@)[i as int] == all.skip(k)[0]);
            assert(all.skip(k) =~= seq![all[k]] + all.skip(k + 1));
        }
        if rcpts[i].address_lcase.same_as(address) {
            let ghost prev = rcpts@;
            let _ = rcpts.remove(i);
            proof {
                assert(prev[i as int]@ == all[k]);
                assert(views(rcpts@) =~= views(prev).remove(i as int));
                assert(views(prev).remove(i as int) =~= without_rcpt(all.take(k), address@)
                    + all.skip(k + 1));
            }
        } else {
            proof {
                assert(rcpts@[i as int]@ == all[k]);
                assert(views(rcpts@) =~= without_rcpt(all.take(k + 1), address@) + all.skip(k + 1));
            }
            i += 1;
        }
        proof {
            k = k + 1;
        }
    }
    proof {
        assert(k == all.len()) by {
            if k < all.len() {
                assert((without_rcpt(all.take(k), address@) + all.skip(k)).len() > i);
            }
        }
        assert(all.take(k) =~= all);
        assert(views(rcpts@) =~= without_rcpt(all, address@));
    }
}

/// Whether the message has a header of this name.
pub fn message_has_header(headers: &Vec<Header>, name: &[u8]) -> (found: bool)
    ensures
        found == has_header(views(headers@), name@),
{
    let mut i: usize = 0;
    while i < headers.len()
        invariant
            i <= headers.len(),
            forall|k: int|
                0 <= k < i ==> !equal_ignoring_case((#[trigger] views(headers@)[k]).name, name@),
        decreases headers.len() - i,
    {
        if eq_ignore_ascii_case(headers[i].name.as_slice(), name) {
            assert(equal_ignoring_case(views(headers@)[i as int].name, name@));
            return true;
        }
        i += 1;
    }
    false
}

/// Once the `n`-th header of a name is found among the first headers,
/// it is the one found among all of them.
proof fn lemma_nth_named_stays(headers: Seq<HeaderView>, name: Seq<u8>, n: nat, upto: int)
    requires
        0 <= upto <= headers.len(),
        nth_named(headers.take(upto), name, n) is Some,
    ensures
        nth_named(headers, name, n) == nth_named(headers.take(upto), name, n),
    decreases headers.len() - upto,
{
    if upto < headers.len() {
        assert(headers.take(upto + 1).drop_last() =~= headers.take(upto));
        lemma_nth_named_stays(headers, name, n, upto + 1);
    } else {
        assert(headers.take(upto) =~= headers);
    }
}

/// What `nth_named` and `last_named` find lies within the headers.
proof fn lemma_named_in_range(headers: Seq<HeaderView>, name: Seq<u8>, n: nat)
    ensures
        nth_named(headers, name, n) matches Some(at) ==> 0 <= at < headers.len(),
        last_named(headers, name) matches Some(at) ==> 0 <= at < headers.len(),
    decreases headers.len(),
{
    if headers.len() > 0 {
        lemma_named_in_range(headers.drop_last(), name, n);
    }
}

/// Looks for the `index`-th header of a name, counted from 1, and for
/// the last header of the name.
pub fn locate(headers: &Vec<Header>, name: &[u8], index: u32) -> (found: (
    Option<usize>,
    Option<usize>,
))
    ensures
        match found.0 {
            Some(at) => at < headers.len() && nth_named(views(headers@), name@, index as nat)
                == Some(at as int),
            None => nth_named(views(headers@), name@, index as nat) is None,
        },
        found.0 is None ==> match found.1 {
            Some(at) => at < headers.len() && last_named(views(headers@), name@) == Some(
                at as int,
            ),
            None => last_named(views(headers@), name@) is None,
        },
{
    let ghost all = views(headers@);
    let mut last: Option<usize> = None;
    let mut count: u64 = 0;
    let mut pos: usize = 0;
    assert(all.take(0) =~= Seq::empty());
    while pos < headers.len()
        invariant
            pos <= headers.len(),
            all == views(headers@),
            count == count_named(all.take(pos as int), name@),
            count <= pos,
            nth_named(all.take(pos as int), name@, index as nat) is None,
            match last {
                Some(at) => at < pos && last_named(all.take(pos as int), name@) == Some(at as int),
                None => last_named(all.take(pos as int), name@) is None,
            },
        decreases headers.len() - pos,
    {
        proof {
            assert(all.take(pos + 1).drop_last() =~= all.take(pos as int));
            assert(all.take(pos + 1).last() == headers@[pos as int]@);
        }
        if eq_ignore_ascii_case(headers[pos].name.as_slice(), name) {
            count += 1;
            last = Some(pos);
            if count == index as u64 {
                proof {
                    lemma_nth_named_stays(all, name@, index as nat, pos + 1);
                }
                return (Some(pos), last);
            }
        }
        pos += 1;
    }
    assert(all.take(pos as int) =~= all);
    (None, last)
}

/// Applies one change to the headers.
pub fn edit_headers(headers: &mut Vec<Header>, change: &HeaderChange)
    ensures
        views(final(headers)@) == edited(views(old(headers)@), change@),
{
    let ghost before = views(headers@);
    let name = change.name.as_str().as_bytes();
    let value = change.value.as_str().as_bytes_vec();
    if change.is_change {
        let (nth, _) = locate(headers, name, change.index);
        match nth {
            Some(at) => {
                let old_header = headers.remove(at);
                if value.len() > 0 {
                    headers.insert(at, Header { name: old_header.name, value });
                    assert(views(headers@) =~= before.update(
                        at as int,
                        HeaderView { name: before[at as int].name, value: change@.value },
                    ));
                } else {
                    assert(views(headers@) =~= before.remove(at as int));
                }
            },
            None => {},
        }
    } else {
        let at: usize = if change.index == 0 {
            0
        } else {
            let (nth, last) = locate(headers, name, change.index);
            match nth {
                Some(at) => at,
                None => match last {
                    Some(at) => at,
                    None => 0,
                },
            }
        };
        let mut name_bytes: Vec<u8> = Vec::new();
        extend_bytes(&mut name_bytes, name);
        assert(name_bytes@ =~= name@);
        headers.insert(at, Header { name: name_bytes, value });
        assert(views(headers@) =~= before.insert(
            at as int,
            HeaderView { name: change@.name, value: change@.value },
        ));
    }
}

/// Writes the headers, one after the other.
pub fn write_headers(out: &mut Vec<u8>, headers: &Vec<Header>)
    ensures
        final(out)@ == old(out)@ + written_all(views(headers@)),
{
    let ghost all = views(headers@);
    let mut i: usize = 0;
    assert(all.take(0) =~= Seq::empty());
    assert(out@ =~= old(out)@ + written_all(all.take(0)));
    while i < headers.len()
        invariant
            i <= headers.len(),
            all == views(headers@),
            out@ == old(out)@ + written_all(all.take(i as int)),
        decreases headers.len() - i,
    {
        proof {
            assert(all.take(i + 1).drop_last() =~= all.take(i as int));
            assert(all.take(i + 1).last() == headers@[i as int]@);
        }
        let ghost start = out@;
        let header = &headers[i];
        extend_bytes(out, header.name.as_slice());
        out.push(0x3a);
        let value = header.value.as_slice();
        let own_space = value.len() > 0 && (value[0] == 0x20 || value[0] == 0x09 || value[0] == 0x0a
            || value[0] == 0x0c || value[0] == 0x0d);
        if !own_space {
            out.push(0x20);
        }
        extend_bytes(out, value);
        if !(value.len() > 0 && value[value.len() - 1] == 0x0a) {
            out.push(0x0d);
            out.push(0x0a);
        }
        assert(out@ =~= start + written(headers@[i as int]@));
        assert(out@ =~= old(out)@ + written_all(all.take(i + 1)));
        i += 1;
    }
    assert(all.take(i as int) =~= all);
}

/// Writes the added headers, one after the other.
pub fn write_added(out: &mut Vec<u8>, changes: &Vec<HeaderChange>)
    ensures
        final(out)@ == old(out)@ + added_all(views(changes@)),
{
    let ghost all = views(changes@);
    let mut i: usize = 0;
    assert(all.take(0) =~= Seq::empty());
    assert(out@ =~= old(out)@ + added_all(all.take(0)));
    while i < changes.len()
        invariant
            i <= changes.len(),
            all == views(changes@),
            out@ == old(out)@ + added_all(all.take(i as int)),
        decreases changes.len() - i,
    {
        proof {
            assert(all.take(i + 1).drop_last() =~= all.take(i as int));
            assert(all.take(i + 1).last() == changes@[i as int]@);
        }
        let ghost start = out@;
        let change = &changes[i];
        extend_bytes(out, change.name.as_str().as_bytes());
        out.push(0x3a);
        out.push(0x20);
        let value = change.value.as_str().as_bytes();
        extend_bytes(out, value);
        if !(value.len() > 0 && value[value.len() - 1] == 0x0a) {
            out.push(0x0d);
            out.push(0x0a);
        }
        assert(out@ =~= start + added(changes@[i as int]@));
        assert(out@ =~= old(out)@ + added_all(all.take(i + 1)));
        i += 1;
    }
    assert(all.take(i as int) =~= all);
}

/// Applies all changes to the headers, in order.
pub fn edit_all(headers: &mut Vec<Header>, changes: &Vec<HeaderChange>)
    ensures
        views(final(headers)@) == edited_all(views(old(headers)@), views(changes@)),
{
    let ghost all = views(changes@);
    let mut i: usize = 0;
    assert(all.take(0) =~= Seq::empty());
    while i < changes.len()
        invariant
            i <= changes.len(),
            all == views(changes@),
            views(headers@) == edited_all(views(old(headers)@), all.take(i as int)),
        decreases changes.len() - i,
    {
        proof {
            assert(all.take(i + 1).drop_last() =~= all.take(i as int));
            assert(all.take(i + 1).last() == changes@[i as int]@);
        }
        edit_headers(headers, &changes[i]);
        i += 1;
    }
    assert(all.take(i as int) =~= all);
}

impl SessionData {
    /// Applies the changes that filters asked for. The sender and the
    /// recipients of the session are changed in place; the message, if
    /// it changes, is handed back as a whole.
    pub fn apply_modifications(
        &mut self,
        modifications: Vec<Modification>,
        message: &AuthenticatedMessage,
    ) -> (changed: Option<Vec<u8>>)
        ensures
            final(self)@ == session_after(old(self)@, views(modifications@)),
            match changed {
                Some(bytes) => message_after(
                    message@,
                    edits_after(views(modifications@), message@.headers),
                ) == Some(bytes@),
                None => message_after(
                    message@,
                    edits_after(views(modifications@), message@.headers),
                ) is None,
            },
    {
        let ghost all = views(modifications@);
        let ghost headers = message@.headers;
        let mut body: Vec<u8> = Vec::new();
        let mut header_changes: Vec<HeaderChange> = Vec::new();
        let mut needs_rewrite = false;
        let mut i: usize = 0;
        assert(all.take(0) =~= Seq::empty());
        assert(views(header_changes@) =~= Seq::empty());
        while i < modifications.len()
            invariant
                i <= modifications.len(),
                all == views(modifications@),
                headers == message@.headers,
                self@ == session_after(old(self)@, all.take(i as int)),
                body@ == edits_after(all.take(i as int), headers).body,
                views(header_changes@) == edits_after(all.take(i as int), headers).changes,
                needs_rewrite == edits_after(all.take(i as int), headers).needs_rewrite,
            decreases modifications.len() - i,
        {
            proof {
                assert(all.take(i + 1).drop_last() =~= all.take(i as int));
                assert(all.take(i + 1).last() == modifications@[i as int]@);
            }
            match &modifications[i] {
                Modification::ChangeFrom { sender, args } => {
                    // Change sender
                    self.mail_from = Some(envelope(sender.as_str(), args.as_str(), true));
                },
                Modification::AddRcpt { recipient, args } => {
                    // Add recipient
                    let rcpt = envelope(recipient.as_str(), args.as_str(), false);
                    let chars = crate::text::to_chars(rcpt.address.as_str());
                    if crate::text::find_last(&chars, '@').is_some() && !contains_rcpt(
                        &self.rcpt_to,
                        &rcpt.address_lcase,
                    ) {
                        proof {
                            lemma_views_push(self.rcpt_to@, rcpt);
                        }
                        self.rcpt_to.push(rcpt);
                    }
                },
                Modification::DeleteRcpt { recipient } => {
                    let recipient = strip_brackets(recipient.as_str());
                    remove_rcpt(&mut self.rcpt_to, &recipient);
                },
                Modification::ReplaceBody { value } => {
                    extend_bytes(&mut body, value.as_slice());
                },
                Modification::AddHeader { name, value } => {
                    let change = HeaderChange {
                        index: 0,
                        name: name.clone(),
                        value: value.clone(),
                        is_change: false,
                    };
                    proof {
                        lemma_views_push(header_changes@, change);
                    }
                    header_changes.push(change);
                },
                Modification::InsertHeader { index, name, value } => {
                    let change = HeaderChange {
                        index: *index,
                        name: name.clone(),
                        value: value.clone(),
                        is_change: false,
                    };
                    proof {
                        lemma_views_push(header_changes@, change);
                    }
                    header_changes.push(change);
                    needs_rewrite = true;
                },
                Modification::ChangeHeader { index, name, value } => {
                    let change = if message_has_header(&message.headers, name.as_str().as_bytes()) {
                        needs_rewrite = true;
                        HeaderChange {
                            index: *index,
                            name: name.clone(),
                            value: value.clone(),
                            is_change: true,
                        }
                    } else {
                        HeaderChange {
                            index: 0,
                            name: name.clone(),
                            value: value.clone(),
                            is_change: false,
                        }
                    };
                    proof {
                        lemma_views_push(header_changes@, change);
                    }
                    header_changes.push(change);
                },
                Modification::Quarantine { reason } => {
                    let change = HeaderChange {
                        index: 0,
                        name: String::from_str("X-Quarantine"),
                        value: reason.clone(),
                        is_change: false,
                    };
                    proof {
                        lemma_views_push(header_changes@, change);
                    }
                    header_changes.push(change);
                },
            }
            i += 1;
        }
        assert(all.take(i as int) =~= all);

        // If there are no header changes return
        if header_changes.len() == 0 {
            return if body.len() > 0 {
                let mut new_message: Vec<u8> = Vec::new();
                extend_bytes(&mut new_message, message.raw_headers.as_slice());
                extend_bytes(&mut new_message, body.as_slice());
                assert(new_message@ =~= message@.raw_headers + body@);
                Some(new_message)
            } else {
                None
            };
        }
        let mut new_message: Vec<u8> = Vec::new();
        if needs_rewrite {
            let mut edited_headers = crate::compare::duplicate_items(&message.headers);
            // Perform changes
            edit_all(&mut edited_headers, &header_changes);
            // Write new headers
            write_headers(&mut new_message, &edited_headers);
            new_message.push(0x0d);
            new_message.push(0x0a);
        } else {
            write_added(&mut new_message, &header_changes);
            extend_bytes(&mut new_message, message.raw_headers.as_slice());
        }
        if body.len() > 0 {
            extend_bytes(&mut new_message, body.as_slice());
        } else {
            extend_bytes(&mut new_message, message.raw_body.as_slice());
        }
        assert(Some(new_message@) =~= message_after(
            message@,
            edits_after(all, headers),
        ));
        Some(new_message)
    }
}

/// How the run of one filter that is switched on ended for a message.
#[derive(Debug)]
pub struct MilterRun {
    /// Whether a failed conversation with the filter defers the message.
    pub tempfail_on_error: bool,
    /// The changes that the filter asks for, or why there are none.
    pub outcome: Result<Vec<Modification>, Rejection>,
}

pub struct MilterRunView {
    pub tempfail_on_error: bool,
    pub outcome: Result<Seq<ModificationView>, Rejection>,
}

impl View for MilterRun {
    type V = MilterRunView;

    open spec fn view(&self) -> MilterRunView {
        MilterRunView {
            tempfail_on_error: self.tempfail_on_error,
            outcome: match self.outcome {
                Ok(changes) => Ok(views(changes@)),
                Err(rejection) => Err(rejection),
            },
        }
    }
}

impl MilterRunView {
    /// A filter turns a message down only with an action that does not
    /// let it go on.
    pub open spec fn wf(self) -> bool {
        self.outcome matches Err(Rejection::Action(action)) ==> !action.goes_on()
    }
}

/// The changes without those that replace the body.
pub open spec fn without_body(changes: Seq<ModificationView>) -> Seq<ModificationView>
    decreases changes.len(),
{
    if changes.len() == 0 {
        Seq::empty()
    } else if changes.last() is ReplaceBody {
        without_body(changes.drop_last())
    } else {
        without_body(changes.drop_last()).push(changes.last())
    }
}

/// The changes gathered so far with those of one more filter: the body
/// can be replaced only once, so earlier replacements give way.
pub open spec fn merged(gathered: Seq<ModificationView>, new: Seq<ModificationView>) -> Seq<
    ModificationView,
> {
    without_body(gathered) + new
}

/// The reply that defers a message.
pub open spec fn deferred() -> Seq<u8> {
    encode_utf8("451 4.3.5 Unable to accept message at this time.\r\n"@)
}

/// What the runs of the filters come to, taken in order: the gathered
/// changes, or the SMTP reply of the first filter that ends the
/// handling. A filter ends it with an action, or with a failure if it is
/// set to defer on failure; other failures are passed over.
pub open spec fn milters_result(runs: Seq<MilterRunView>, gathered: Seq<ModificationView>) -> Result<
    Seq<ModificationView>,
    Seq<u8>,
>
    decreases runs.len(),
{
    if runs.len() == 0 {
        Ok(gathered)
    } else {
        match runs[0].outcome {
            Ok(changes) => milters_result(runs.drop_first(), merged(gathered, changes)),
            Err(Rejection::Action(action)) => Err(reply(action)),
            Err(Rejection::Error(_)) => if runs[0].tempfail_on_error {
                Err(deferred())
            } else {
                milters_result(runs.drop_first(), gathered)
            },
        }
    }
}

/// The result of some runs is that of the first run, carried on with
/// the others if the first lets the message go on.
pub proof fn lemma_milters_first(runs: Seq<MilterRunView>, gathered: Seq<ModificationView>)
    requires
        runs.len() > 0,
    ensures
        milters_result(runs, gathered) == match milters_result(seq![runs[0]], gathered) {
            Ok(changes) => milters_result(runs.drop_first(), changes),
            Err(bytes) => Err(bytes),
        },
        milters_result(seq![runs[0]], gathered) == match runs[0].outcome {
            Ok(changes) => Ok::<Seq<ModificationView>, Seq<u8>>(merged(gathered, changes)),
            Err(Rejection::Action(action)) => Err(reply(action)),
            Err(Rejection::Error(_)) => if runs[0].tempfail_on_error {
                Err(deferred())
            } else {
                Ok(gathered)
            },
        },
{
    reveal_with_fuel(milters_result, 3);
    let one = seq![runs[0]];
    assert(one.drop_first() =~= Seq::<MilterRunView>::empty());
    assert(one.drop_first().len() == 0);
    assert(one[0] == runs[0]);
}

/// Takes the changes that replace the body off the list.
pub fn remove_body_replacements(changes: &mut Vec<Modification>)
    ensures
        views(final(changes)@) == without_body(views(old(changes)@)),
{
    let ghost all = views(changes@);
    let ghost mut k: int = 0;
    let mut i: usize = 0;
    assert(all.take(0) =~= Seq::empty());
    assert(all.skip(0) =~= all);
    while i < changes.len()
        invariant
            0 <= k <= all.len(),
            i <= changes.len(),
            i == without_body(all.take(k)).len(),
            views(changes@) == without_body(all.take(k)) + all.skip(k),
        decreases changes.len() - i,
    {
        proof {
            assert(all.take(k + 1).drop_last() =~= all.take(k));
            assert(views(changes@)[i as int] == all.skip(k)[0]);
            assert(all.skip(k) =~= seq![all[k]] + all.skip(k + 1));
        }
        let replaces = match &changes[i] {
            Modification::ReplaceBody { .. } => true,
            _ => false,
        };
        if replaces {
            let ghost prev = changes@;
            let _ = changes.remove(i);
            proof {
                assert(prev[i as int]@ == all[k]);
                assert(views(changes@) =~= views(prev).remove(i as int));
                assert(views(prev).remove(i as int) =~= without_body(all.take(k)) + all.skip(k + 1));
            }
        } else {
            proof {
                assert(changes@[i as int]@ == all[k]);
                assert(views(changes@) =~= without_body(all.take(k + 1)) + all.skip(k + 1));
            }
            i += 1;
        }
        proof {
            k = k + 1;
        }
    }
    proof {
        assert(k == all.len()) by {
            if k < all.len() {
                assert((without_body(all.take(k)) + all.skip(k)).len() > i);
            }
        }
        assert(all.take(k) =~= all);
        assert(views(changes@) =~= without_body(all));
    }
}

/// Takes in what one filter came to. Hands back the SMTP reply if the
/// filter ends the handling of the message; else the filter's changes
/// are gathered.
pub fn milter_outcome(gathered: &mut Vec<Modification>, run: MilterRun) -> (response: Option<
    Vec<u8>,
>)
    requires
        run@.wf(),
    ensures
        match milters_result(seq![run@], views(old(gathered)@)) {
            Ok(changes) => response is None && views(final(gathered)@) == changes,
            Err(bytes) => response matches Some(found) && found@ == bytes && views(
                final(gathered)@,
            ) == views(old(gathered)@),
        },
{
    proof {
        lemma_milters_first(seq![run@], views(gathered@));
    }
    match run.outcome {
        Ok(mut new_modifications) => {
            // The message body can only be replaced once, so we need to remove
            // any previous replacements.
            remove_body_replacements(gathered);
            let ghost kept = gathered@;
            let ghost new = new_modifications@;
            gathered.append(&mut new_modifications);
            assert(views(gathered@) =~= views(kept) + views(new));
            None
        },
        Err(Rejection::Action(action)) => Some(rejection_response(&action)),
        Err(Rejection::Error(_)) => {
            if run.tempfail_on_error {
                Some(
                    "451 4.3.5 Unable to accept message at this time.\r\n".as_bytes_vec(),
                )
            } else {
                None
            }
        },
    }
}

impl Session {
    /// What the runs of the filters come to for a message: the changes
    /// to apply, or the SMTP reply that ends its handling. The runs are
    /// those of the filters that are switched on, in the order of the
    /// configuration, up to the first that ends the handling.
    pub fn run_milters(&self, runs: Vec<MilterRun>) -> (result: Result<Vec<Modification>, Vec<u8>>)
        requires
            forall|i: int| 0 <= i < runs.len() ==> (#[trigger] runs@[i])@.wf(),
        ensures
            match milters_result(views(runs@), Seq::empty()) {
                Ok(changes) => result matches Ok(found) && views(found@) == changes,
                Err(bytes) => result matches Err(found) && found@ == bytes,
            },
    {
        let ghost all = views(runs@);
        let mut rest = runs;
        let mut modifications: Vec<Modification> = Vec::new();
        assert(views(modifications@) =~= Seq::empty());
        while rest.len() > 0
            invariant
                all == views(runs@),
                forall|i: int| 0 <= i < rest.len() ==> (#[trigger] rest@[i])@.wf(),
                milters_result(all, Seq::empty()) == milters_result(
                    views(rest@),
                    views(modifications@),
                ),
            decreases rest.len(),
        {
            let ghost before = views(rest@);
            let ghost gathered = views(modifications@);
            let run = rest.remove(0);
            proof {
                assert(views(rest@) =~= before.drop_first());
                assert(run@ == before[0]);
                lemma_milters_first(before, gathered);
            }
            match milter_outcome(&mut modifications, run) {
                Some(response) => {
                    return Err(response);
                },
                None => {},
            }
        }
        Ok(modifications)
    }
}

/// A filter as it is configured.
#[derive(Debug)]
pub struct Milter {
    pub enable: bool,
    pub hostname: String,
    pub port: u16,
    pub tls: bool,
    pub tls_allow_invalid_certs: bool,
    pub tempfail_on_error: bool,
}

/// How a filter is reached.
#[derive(Clone, Copy, Debug, PartialEq, Eq, Structural)]
pub enum Transport {
    /// Without TLS.
    Plain,
    /// With TLS, the certificate being verified.
    Tls,
    /// With TLS, any certificate being taken.
    TlsUnverified,
}

/// Where the conversation with a filter stands: the command that was
/// sent last.
#[derive(Clone, Copy, Debug, PartialEq, Eq, Structural)]
pub enum Stage {
    Connect,
    Helo,
    MailFrom,
    RcptTo(usize),
    Headers,
    Data,
    Body,
}

/// What a filter is told next.
#[derive(Debug)]
pub enum Command {
    Connection { hostname: String, client_ptr: String },
    Helo { hostname: String },
    MailFrom { address: String },
    RcptTo { address: String },
    Headers,
    Data,
    Body,
    Quit,
}

pub enum CommandView {
    Connection { hostname: Seq<char>, client_ptr: Seq<char> },
    Helo { hostname: Seq<char> },
    MailFrom { address: Seq<char> },
    RcptTo { address: Seq<char> },
    Headers,
    Data,
    Body,
    Quit,
}

impl View for Command {
    type V = CommandView;

    open spec fn view(&self) -> CommandView {
        match self {
            Command::Connection { hostname, client_ptr } => CommandView::Connection {
                hostname: hostname@,
                client_ptr: client_ptr@,
            },
            Command::Helo { hostname } => CommandView::Helo { hostname: hostname@ },
            Command::MailFrom { address } => CommandView::MailFrom { address: address@ },
            Command::RcptTo { address } => CommandView::RcptTo { address: address@ },
            Command::Headers => CommandView::Headers,
            Command::Data => CommandView::Data,
            Command::Body => CommandView::Body,
            Command::Quit => CommandView::Quit,
        }
    }
}

/// The stage that follows a stage whose reply lets the conversation go
/// on: the recipients follow the sender one by one, then the headers,
/// the end of the headers and the body. Nothing follows the body.
pub open spec fn next_stage(stage: Stage, rcpts: nat) -> Option<Stage> {
    match stage {
        Stage::Connect => Some(Stage::Helo),
        Stage::Helo => Some(Stage::MailFrom),
        Stage::MailFrom => if rcpts > 0 {
            Some(Stage::RcptTo(0))
        } else {
            Some(Stage::Headers)
        },
        Stage::RcptTo(i) => if i + 1 < rcpts {
            Some(Stage::RcptTo((i + 1) as usize))
        } else {
            Some(Stage::Headers)
        },
        Stage::Headers => Some(Stage::Data),
        Stage::Data => Some(Stage::Body),
        Stage::Body => None,
    }
}

/// An address in angle brackets.
pub open spec fn bracketed(address: Seq<char>) -> Seq<char> {
    "<"@ + address + ">"@
}

/// The command of a stage. The peer is named by the first name that its
/// address resolves to, or by what it said in `HELO` if there is none.
pub open spec fn command_of(data: SessionDataView, stage: Stage, client_ptr: Option<Seq<char>>) -> CommandView {
    match stage {
        Stage::Connect => CommandView::Connection {
            hostname: match client_ptr {
                Some(name) => name,
                None => data.helo_domain,
            },
            client_ptr: match client_ptr {
                Some(name) => name,
                None => "unknown"@,
            },
        },
        Stage::Helo => CommandView::Helo { hostname: data.helo_domain },
        Stage::MailFrom => CommandView::MailFrom {
            address: bracketed(data.mail_from->0.address_lcase),
        },
        Stage::RcptTo(i) => CommandView::RcptTo {
            address: bracketed(data.rcpt_to[i as int].address_lcase),
        },
        Stage::Headers => CommandView::Headers,
        Stage::Data => CommandView::Data,
        Stage::Body => CommandView::Body,
    }
}

/// Puts an address in angle brackets.
fn in_brackets(address: &str) -> (text: String)
    ensures
        text@ == bracketed(address@),
{
    let mut text = String::from_str("<");
    text.append(address);
    text.append(">");
    text
}

impl Session {
    /// How a filter is reached.
    pub fn connect_and_run(&self, milter: &Milter) -> (transport: Transport)
        ensures
            transport == if !milter.tls {
                Transport::Plain
            } else if !milter.tls_allow_invalid_certs {
                Transport::Tls
            } else {
                Transport::TlsUnverified
            },
    {
        if !milter.tls {
            Transport::Plain
        } else if !milter.tls_allow_invalid_certs {
            Transport::Tls
        } else {
            Transport::TlsUnverified
        }
    }

    /// The command that a stage sends to the filter.
    pub fn command(&self, stage: Stage, client_ptr: Option<&str>) -> (command: Command)
        requires
            stage is MailFrom ==> self.data@.mail_from is Some,
            stage matches Stage::RcptTo(i) ==> i < self.data@.rcpt_to.len(),
        ensures
            command@ == command_of(
                self.data@,
                stage,
                match client_ptr {
                    Some(name) => Some(name@),
                    None => None,
                },
            ),
    {
        match stage {
            Stage::Connect => match client_ptr {
                Some(name) => Command::Connection {
                    hostname: String::from_str(name),
                    client_ptr: String::from_str(name),
                },
                None => Command::Connection {
                    hostname: self.data.helo_domain.duplicate(),
                    client_ptr: String::from_str("unknown"),
                },
            },
            Stage::Helo => Command::Helo { hostname: self.data.helo_domain.duplicate() },
            Stage::MailFrom => match &self.data.mail_from {
                Some(sender) => Command::MailFrom {
                    address: in_brackets(sender.address_lcase.as_str()),
                },
                None => Command::Quit,
            },
            Stage::RcptTo(i) => Command::RcptTo {
                address: in_brackets(self.data.rcpt_to[i].address_lcase.as_str()),
            },
            Stage::Headers => Command::Headers,
            Stage::Data => Command::Data,
            Stage::Body => Command::Body,
        }
    }

    /// Takes in the filter's reply to the command of a stage: the stage
    /// that follows if the reply lets the conversation go on, `None`
    /// after the body, when only the farewell is left; or the reply
    /// itself, which ends the conversation.
    pub fn run(&self, stage: Stage, reply: Action) -> (next: Result<Option<Stage>, Rejection>)
        ensures
            reply.goes_on() ==> next == Ok::<Option<Stage>, Rejection>(
                next_stage(stage, self.data@.rcpt_to.len()),
            ),
            !reply.goes_on() ==> next == Err::<Option<Stage>, Rejection>(Rejection::Action(reply)),
    {
        match reply.assert_continue() {
            Ok(()) => {},
            Err(rejection) => {
                return Err(rejection);
            },
        }
        let rcpts = self.data.rcpt_to.len();
        Ok(
            match stage {
                Stage::Connect => Some(Stage::Helo),
                Stage::Helo => Some(Stage::MailFrom),
                Stage::MailFrom => if rcpts > 0 {
                    Some(Stage::RcptTo(0))
                } else {
                    Some(Stage::Headers)
                },
                Stage::RcptTo(i) => if i < rcpts && i + 1 < rcpts {
                    Some(Stage::RcptTo(i + 1))
                } else {
                    Some(Stage::Headers)
                },
                Stage::Headers => Some(Stage::Data),
                Stage::Data => Some(Stage::Body),
                Stage::Body => None,
            },
        )
    }
}

} // verus!
