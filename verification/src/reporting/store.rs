//! Report windows as they are kept between accumulation and delivery:
//! one header per window, and the window's records in the order of their
//! sequence numbers.

use vstd::prelude::*;
use crate::compare::{Structured, views, option_view, lemma_views_push, same_items,
    duplicate_items};
use crate::reporting::aggregate::{SizedRecord, SizedRecordView};
use crate::reporting::types::{PolicyPublished, PolicyPublishedView, Record, RecordView, URI,
    URIView};

verus! {

/// The key of a window's header or of one of its records. In a header's
/// key `seq_id` is the start of the window; in a record's key it is the
/// record's sequence number.
#[derive(Debug)]
pub struct ReportEvent {
    pub due: u64,
    pub policy_hash: u64,
    pub seq_id: u64,
    pub domain: String,
}

pub struct ReportEventView {
    pub due: u64,
    pub policy_hash: u64,
    pub seq_id: u64,
    pub domain: Seq<char>,
}

/// What identifies a window: the domain, the hash of the policy it
/// published, and the time the window ends.
pub struct Window {
    pub domain: Seq<char>,
    pub policy_hash: u64,
    pub due: u64,
}

impl ReportEventView {
    /// The window that the key belongs to.
    pub open spec fn window(self) -> Window {
        Window { domain: self.domain, policy_hash: self.policy_hash, due: self.due }
    }

    /// Whether the key lies in the range that a scan of `window` covers:
    /// from sequence number 0 up to, but not including, `u64::MAX`.
    pub open spec fn in_range(self, window: Window) -> bool {
        self.window() == window && self.seq_id < u64::MAX
    }
}

impl View for ReportEvent {
    type V = ReportEventView;

    open spec fn view(&self) -> ReportEventView {
        ReportEventView {
            due: self.due,
            policy_hash: self.policy_hash,
            seq_id: self.seq_id,
            domain: self.domain@,
        }
    }
}

impl Structured for ReportEvent {
    fn same_as(&self, other: &Self) -> (same: bool) {
        self.due == other.due && self.policy_hash == other.policy_hash && self.seq_id
            == other.seq_id && self.domain.same_as(&other.domain)
    }

    fn duplicate(&self) -> (copy: Self) {
        ReportEvent {
            due: self.due,
            policy_hash: self.policy_hash,
            seq_id: self.seq_id,
            domain: self.domain.duplicate(),
        }
    }
}

/// Whether one text comes before another, character by character; a
/// text comes behind its beginnings.
pub open spec fn text_lt(a: Seq<char>, b: Seq<char>) -> bool
    decreases a.len(),
{
    if b.len() == 0 {
        false
    } else if a.len() == 0 {
        true
    } else if a[0] != b[0] {
        (a[0] as u32) < (b[0] as u32)
    } else {
        text_lt(a.drop_first(), b.drop_first())
    }
}

/// The order of the keys: by domain, then by policy hash, then by the
/// end of the window, then by sequence number. The keys of one window
/// stand together, in the order of their sequence numbers.
pub open spec fn key_lt(a: ReportEventView, b: ReportEventView) -> bool {
    if a.domain != b.domain {
        text_lt(a.domain, b.domain)
    } else if a.policy_hash != b.policy_hash {
        a.policy_hash < b.policy_hash
    } else if a.due != b.due {
        a.due < b.due
    } else {
        a.seq_id < b.seq_id
    }
}

impl Window {
    /// The key at which a scan of the window begins: sequence number 0.
    pub open spec fn first_key(self) -> ReportEventView {
        ReportEventView {
            due: self.due,
            policy_hash: self.policy_hash,
            seq_id: 0,
            domain: self.domain,
        }
    }

    /// The key before which a scan of the window ends: the largest
    /// sequence number.
    pub open spec fn end_key(self) -> ReportEventView {
        ReportEventView {
            due: self.due,
            policy_hash: self.policy_hash,
            seq_id: u64::MAX,
            domain: self.domain,
        }
    }
}

/// Of two texts one comes before the other, or they are equal; never
/// both.
pub proof fn lemma_text_order(a: Seq<char>, b: Seq<char>)
    ensures
        a != b ==> (text_lt(a, b) || text_lt(b, a)),
        !(text_lt(a, b) && text_lt(b, a)),
        !text_lt(a, a),
    decreases a.len(),
{
    lemma_text_irreflexive(a);
    if a.len() > 0 && b.len() > 0 {
        if a[0] == b[0] {
            lemma_text_order(a.drop_first(), b.drop_first());
            if a.drop_first() == b.drop_first() {
                assert(a =~= seq![a[0]] + a.drop_first());
                assert(b =~= seq![b[0]] + b.drop_first());
                assert(a == b);
            }
            assert(text_lt(a, b) == text_lt(a.drop_first(), b.drop_first()));
            assert(text_lt(b, a) == text_lt(b.drop_first(), a.drop_first()));
        } else {
            vstd::utf8::char_u32_cast(a[0], a[0] as u32);
            vstd::utf8::char_u32_cast(b[0], b[0] as u32);
            assert((a[0] as u32) != (b[0] as u32));
            assert(text_lt(a, b) == ((a[0] as u32) < (b[0] as u32)));
            assert(text_lt(b, a) == ((b[0] as u32) < (a[0] as u32)));
        }
    } else if a.len() == 0 && b.len() == 0 {
        assert(a =~= b);
    } else if a.len() == 0 {
        assert(text_lt(a, b));
        assert(!text_lt(b, a));
    } else {
        assert(text_lt(b, a));
        assert(!text_lt(a, b));
    }
}

proof fn lemma_text_irreflexive(a: Seq<char>)
    ensures
        !text_lt(a, a),
    decreases a.len(),
{
    if a.len() > 0 {
        lemma_text_irreflexive(a.drop_first());
    }
}

/// The keys from the first key of a window up to, but not including,
/// its end key are the keys of the window with a sequence number below
/// the largest: a range scan between the two finds the window's
/// records and nothing else.
pub proof fn law_range_is_window(key: ReportEventView, window: Window)
    ensures
        (!key_lt(key, window.first_key()) && key_lt(key, window.end_key())) <==> key.in_range(
            window,
        ),
{
    lemma_text_order(key.domain, window.domain);
    if key.domain == window.domain && key.policy_hash == window.policy_hash && key.due
        == window.due {
        assert(key.window() == window);
    }
}

/// Within one window the keys stand in the order of their sequence
/// numbers.
pub proof fn law_window_keys_in_sequence(a: ReportEventView, b: ReportEventView)
    requires
        a.window() == b.window(),
    ensures
        key_lt(a, b) <==> a.seq_id < b.seq_id,
{
}

impl ReportEvent {
    /// The keys between which the records of the key's window lie: the
    /// first is the smallest key of the window, the second is larger
    /// than any key that a record of the window has.
    pub fn range(&self) -> (keys: (ReportEvent, ReportEvent))
        ensures
            keys.0@ == self@.window().first_key(),
            keys.1@ == self@.window().end_key(),
    {
        (self.with_seq_id(0), self.with_seq_id(u64::MAX))
    }

    /// Whether two keys belong to one window.
    pub fn same_window(&self, other: &ReportEvent) -> (same: bool)
        ensures
            same == (self@.window() == other@.window()),
    {
        self.due == other.due && self.policy_hash == other.policy_hash && self.domain.same_as(
            &other.domain,
        )
    }

    /// Whether the key lies in the range that a scan of `window`'s
    /// records covers.
    pub fn in_range_of(&self, window: &ReportEvent) -> (inside: bool)
        ensures
            inside == self@.in_range(window@.window()),
    {
        self.seq_id < u64::MAX && self.same_window(window)
    }

    /// The key with another sequence number.
    pub fn with_seq_id(&self, seq_id: u64) -> (key: ReportEvent)
        ensures
            key@ == (ReportEventView { seq_id, ..self@ }),
    {
        ReportEvent {
            due: self.due,
            policy_hash: self.policy_hash,
            seq_id,
            domain: self.domain.duplicate(),
        }
    }
}

/// What a window's header holds: where the report goes, and the policy
/// the domain published when the window was opened. `records` is a
/// placeholder that stays empty: records are kept under keys of their
/// own.
#[derive(Debug)]
pub struct DmarcFormat {
    pub rua: Vec<URI>,
    pub policy: PolicyPublished,
    pub records: Vec<Record>,
}

pub struct DmarcFormatView {
    pub rua: Seq<URIView>,
    pub policy: PolicyPublishedView,
    pub records: Seq<RecordView>,
}

impl View for DmarcFormat {
    type V = DmarcFormatView;

    open spec fn view(&self) -> DmarcFormatView {
        DmarcFormatView {
            rua: views(self.rua@),
            policy: self.policy@,
            records: views(self.records@),
        }
    }
}

impl Structured for DmarcFormat {
    fn same_as(&self, other: &Self) -> (same: bool) {
        same_items(&self.rua, &other.rua) && self.policy.same_as(&other.policy) && same_items(
            &self.records,
            &other.records,
        )
    }

    fn duplicate(&self) -> (copy: Self) {
        DmarcFormat {
            rua: duplicate_items(&self.rua),
            policy: self.policy.duplicate(),
            records: duplicate_items(&self.records),
        }
    }
}

/// A stored header with its key. The header is `None` where the bytes
/// under the key do not decode.
#[derive(Debug)]
pub struct HeaderEntry {
    pub event: ReportEvent,
    pub format: Option<DmarcFormat>,
}

pub struct HeaderEntryView {
    pub event: ReportEventView,
    pub format: Option<DmarcFormatView>,
}

impl View for HeaderEntry {
    type V = HeaderEntryView;

    open spec fn view(&self) -> HeaderEntryView {
        HeaderEntryView { event: self.event@, format: option_view(self.format) }
    }
}

/// A stored record with its key. The record is `None` where the bytes
/// under the key do not decode.
#[derive(Debug)]
pub struct RecordEntry {
    pub event: ReportEvent,
    pub record: Option<SizedRecord>,
}

pub struct RecordEntryView {
    pub event: ReportEventView,
    pub record: Option<SizedRecordView>,
}

impl View for RecordEntry {
    type V = RecordEntryView;

    open spec fn view(&self) -> RecordEntryView {
        RecordEntryView { event: self.event@, record: option_view(self.record) }
    }
}

/// Why the store did not do what it was asked.
#[derive(Clone, Copy, Debug, PartialEq, Eq, Structural)]
pub enum StoreError {
    /// The store cannot be reached.
    Unavailable,
    /// What is stored does not decode.
    Corrupt,
}

/// The stored windows. While `online` is false every read and every
/// write fails and changes nothing.
#[derive(Debug)]
pub struct ReportStore {
    pub headers: Vec<HeaderEntry>,
    pub records: Vec<RecordEntry>,
    pub online: bool,
}

pub struct StoreView {
    pub headers: Seq<HeaderEntryView>,
    pub records: Seq<RecordEntryView>,
    pub online: bool,
}

impl View for ReportStore {
    type V = StoreView;

    open spec fn view(&self) -> StoreView {
        StoreView {
            headers: views(self.headers@),
            records: views(self.records@),
            online: self.online,
        }
    }
}

/// The position of the header of `window`, if there is one.
pub open spec fn header_at(headers: Seq<HeaderEntryView>, window: Window) -> Option<int>
    decreases headers.len(),
{
    if headers.len() == 0 {
        None
    } else {
        match header_at(headers.drop_last(), window) {
            Some(i) => Some(i),
            None => if headers.last().event.window() == window {
                Some(headers.len() - 1)
            } else {
                None
            },
        }
    }
}

/// What is stored as the header of `window`, if anything is.
pub open spec fn header_of(headers: Seq<HeaderEntryView>, window: Window) -> Option<
    Option<DmarcFormatView>,
> {
    match header_at(headers, window) {
        Some(i) => Some(headers[i].format),
        None => None,
    }
}

/// The values, if all of them decode.
pub open spec fn decoded<T>(items: Seq<Option<T>>) -> Option<Seq<T>>
    decreases items.len(),
{
    if items.len() == 0 {
        Some(Seq::empty())
    } else {
        match (decoded(items.drop_last()), items.last()) {
            (Some(front), Some(item)) => Some(front.push(item)),
            _ => None,
        }
    }
}

/// What is stored as the records of `window`, in stored order.
pub open spec fn records_of(records: Seq<RecordEntryView>, window: Window) -> Seq<
    Option<SizedRecordView>,
>
    decreases records.len(),
{
    if records.len() == 0 {
        Seq::empty()
    } else if records.last().event.in_range(window) {
        records_of(records.drop_last(), window).push(records.last().record)
    } else {
        records_of(records.drop_last(), window)
    }
}

/// The records that are left when the range of `window` is deleted.
pub open spec fn records_without(records: Seq<RecordEntryView>, window: Window) -> Seq<
    RecordEntryView,
>
    decreases records.len(),
{
    if records.len() == 0 {
        Seq::empty()
    } else if records.last().event.in_range(window) {
        records_without(records.drop_last(), window)
    } else {
        records_without(records.drop_last(), window).push(records.last())
    }
}

/// The headers that are left when the header of `window` is cleared.
pub open spec fn headers_without(headers: Seq<HeaderEntryView>, window: Window) -> Seq<
    HeaderEntryView,
>
    decreases headers.len(),
{
    if headers.len() == 0 {
        Seq::empty()
    } else if headers.last().event.window() == window {
        headers_without(headers.drop_last(), window)
    } else {
        headers_without(headers.drop_last(), window).push(headers.last())
    }
}

/// The headers after one is written: a header of the same window is
/// replaced in its place, a new one is added at the end.
pub open spec fn headers_with(headers: Seq<HeaderEntryView>, entry: HeaderEntryView) -> Seq<
    HeaderEntryView,
> {
    match header_at(headers, entry.event.window()) {
        Some(i) => headers.update(i, entry),
        None => headers.push(entry),
    }
}

/// Every record's sequence number is below `bound`.
pub open spec fn all_below(records: Seq<RecordEntryView>, bound: int) -> bool {
    forall|i: int| 0 <= i < records.len() ==> (#[trigger] records[i]).event.seq_id < bound
}

impl StoreView {
    /// No window has two headers, and the records stand in the order of
    /// their sequence numbers, none of which occurs twice.
    pub open spec fn wf(self) -> bool {
        &&& forall|i: int, j: int|
            0 <= i < j < self.headers.len() ==> self.headers[i].event.window()
                != self.headers[j].event.window()
        &&& forall|i: int, j: int|
            0 <= i < j < self.records.len() ==> self.records[i].event.seq_id
                < self.records[j].event.seq_id
    }

    /// What reading the header of `window` gives: an error if the store
    /// cannot be reached or the header does not decode, nothing if the
    /// window has no header.
    pub open spec fn read_header(self, window: Window) -> Result<
        Option<DmarcFormatView>,
        StoreError,
    > {
        if !self.online {
            Err(StoreError::Unavailable)
        } else {
            match header_of(self.headers, window) {
                None => Ok(None),
                Some(None) => Err(StoreError::Corrupt),
                Some(Some(format)) => Ok(Some(format)),
            }
        }
    }

    /// What a scan of `window` gives: an error if the store cannot be
    /// reached or a record of the window does not decode, else the
    /// records in stored order.
    pub open spec fn read_records(self, window: Window) -> Result<Seq<SizedRecordView>, StoreError> {
        if !self.online {
            Err(StoreError::Unavailable)
        } else {
            match decoded(records_of(self.records, window)) {
                Some(records) => Ok(records),
                None => Err(StoreError::Corrupt),
            }
        }
    }

    /// Whether `window` has left no trace: neither a header nor a record.
    pub open spec fn is_clear_of(self, window: Window) -> bool {
        header_of(self.headers, window) is None && records_of(self.records, window).len() == 0
    }
}

/// `header_at` finds the first header of the window, and says `None`
/// only if there is none.
pub proof fn lemma_header_at(headers: Seq<HeaderEntryView>, window: Window)
    ensures
        match header_at(headers, window) {
            Some(i) => 0 <= i < headers.len() && headers[i].event.window() == window && forall|
                j: int,
            | 0 <= j < i ==> headers[j].event.window() != window,
            None => forall|j: int| 0 <= j < headers.len() ==> headers[j].event.window() != window,
        },
    decreases headers.len(),
{
    if headers.len() > 0 {
        let front = headers.drop_last();
        lemma_header_at(front, window);
        assert(forall|j: int| 0 <= j < front.len() ==> front[j] == headers[j]);
        match header_at(front, window) {
            Some(i) => {},
            None => {
                assert forall|j: int| 0 <= j < headers.len() - 1 implies headers[j].event.window()
                    != window by {
                    assert(front[j] == headers[j]);
                }
            },
        }
    }
}

/// Once a record of the window that does not decode is among the first
/// records, the scan of all of them meets it.
proof fn lemma_undecoded_stays(records: Seq<RecordEntryView>, window: Window, upto: int)
    requires
        0 <= upto <= records.len(),
        decoded(records_of(records.take(upto), window)) is None,
    ensures
        decoded(records_of(records, window)) is None,
    decreases records.len() - upto,
{
    if upto < records.len() {
        assert(records.take(upto + 1).drop_last() =~= records.take(upto));
        let front = records_of(records.take(upto), window);
        assert(front.push(records[upto].record).drop_last() =~= front);
        lemma_undecoded_stays(records, window, upto + 1);
    } else {
        assert(records.take(upto) =~= records);
    }
}

/// Leaving out the records of a window one record further on.
proof fn lemma_records_without_next(records: Seq<RecordEntryView>, window: Window, k: int)
    requires
        0 <= k < records.len(),
    ensures
        records_without(records.take(k + 1), window) == if records[k].event.in_range(window) {
            records_without(records.take(k), window)
        } else {
            records_without(records.take(k), window).push(records[k])
        },
{
    assert(records.take(k + 1).drop_last() =~= records.take(k));
}

/// Leaving out the header of a window one header further on.
proof fn lemma_headers_without_next(headers: Seq<HeaderEntryView>, window: Window, k: int)
    requires
        0 <= k < headers.len(),
    ensures
        headers_without(headers.take(k + 1), window) == if headers[k].event.window() == window {
            headers_without(headers.take(k), window)
        } else {
            headers_without(headers.take(k), window).push(headers[k])
        },
{
    assert(headers.take(k + 1).drop_last() =~= headers.take(k));
}

impl ReportStore {
    /// An empty store that can be reached.
    pub fn new() -> (store: ReportStore)
        ensures
            store@.headers.len() == 0,
            store@.records.len() == 0,
            store@.online,
            store@.wf(),
    {
        ReportStore { headers: Vec::new(), records: Vec::new(), online: true }
    }

    /// Where the header of the window of `event` stands.
    fn find_header(&self, event: &ReportEvent) -> (found: Option<usize>)
        ensures
            match found {
                Some(i) => i < self.headers.len() && header_at(self@.headers, event@.window())
                    == Some(i as int),
                None => header_at(self@.headers, event@.window()) is None,
            },
    {
        let ghost headers = self@.headers;
        let ghost window = event@.window();
        let mut i: usize = 0;
        while i < self.headers.len()
            invariant
                i <= self.headers.len(),
                headers == views(self.headers@),
                window == event@.window(),
                forall|j: int| 0 <= j < i ==> headers[j].event.window() != window,
            decreases self.headers.len() - i,
        {
            if self.headers[i].event.same_window(event) {
                proof {
                    assert(headers[i as int].event.window() == window);
                    lemma_header_at(headers, window);
                }
                return Some(i);
            }
            i += 1;
        }
        proof {
            lemma_header_at(headers, window);
        }
        None
    }

    /// Whether the window of `event` has a header.
    pub fn has_header(&self, event: &ReportEvent) -> (found: Result<bool, StoreError>)
        ensures
            !self@.online ==> found == Err::<bool, StoreError>(StoreError::Unavailable),
            self@.online ==> found == Ok::<bool, StoreError>(
                header_of(self@.headers, event@.window()) is Some,
            ),
    {
        if !self.online {
            return Err(StoreError::Unavailable);
        }
        Ok(self.find_header(event).is_some())
    }

    /// Reads the header of the window of `event`.
    pub fn get_header(&self, event: &ReportEvent) -> (header: Result<Option<DmarcFormat>, StoreError>)
        ensures
            match self@.read_header(event@.window()) {
                Ok(expected) => header matches Ok(found) && option_view(found) == expected,
                Err(error) => header == Err::<Option<DmarcFormat>, StoreError>(error),
            },
    {
        if !self.online {
            return Err(StoreError::Unavailable);
        }
        match self.find_header(event) {
            Some(i) => match &self.headers[i].format {
                Some(format) => Ok(Some(format.duplicate())),
                None => Err(StoreError::Corrupt),
            },
            None => Ok(None),
        }
    }

    /// Reads the records of the window of `event`, in the order of their
    /// sequence numbers.
    pub fn scan(&self, event: &ReportEvent) -> (records: Result<Vec<SizedRecord>, StoreError>)
        ensures
            match self@.read_records(event@.window()) {
                Ok(expected) => records matches Ok(found) && views(found@) == expected,
                Err(error) => records == Err::<Vec<SizedRecord>, StoreError>(error),
            },
    {
        if !self.online {
            return Err(StoreError::Unavailable);
        }
        let ghost all = self@.records;
        let ghost window = event@.window();
        let mut found: Vec<SizedRecord> = Vec::new();
        let mut i: usize = 0;
        assert(all.take(0) =~= Seq::empty());
        assert(views(found@) =~= Seq::empty());
        while i < self.records.len()
            invariant
                i <= self.records.len(),
                all == views(self.records@),
                window == event@.window(),
                self.online,
                decoded(records_of(all.take(i as int), window)) == Some(views(found@)),
            decreases self.records.len() - i,
        {
            proof {
                assert(all.take(i + 1).drop_last() =~= all.take(i as int));
                assert(all.take(i + 1).last() == self.records@[i as int]@);
                let front = records_of(all.take(i as int), window);
                assert(front.push(all[i as int].record).drop_last() =~= front);
            }
            if self.records[i].event.in_range_of(event) {
                match &self.records[i].record {
                    Some(record) => {
                        let copy = record.duplicate();
                        proof {
                            lemma_views_push(found@, copy);
                        }
                        found.push(copy);
                    },
                    None => {
                        proof {
                            let front = records_of(all.take(i as int), window);
                            assert(all[i as int].record is None);
                            assert(records_of(all.take(i + 1), window) == front.push(None));
                            assert(front.push(None).last() is None);
                            assert(decoded(front.push(None)) is None);
                            lemma_undecoded_stays(all, window, i + 1);
                        }
                        return Err(StoreError::Corrupt);
                    },
                }
            }
            i += 1;
        }
        assert(all.take(i as int) =~= all);
        Ok(found)
    }

    /// Writes one batch: a header, if one is given, and a record. Either
    /// both are written or, when the store cannot be reached, nothing is.
    pub fn write(&mut self, header: Option<HeaderEntry>, record: RecordEntry) -> (done: Result<
        (),
        StoreError,
    >)
        requires
            all_below(old(self)@.records, record@.event.seq_id as int),
        ensures
            !old(self)@.online ==> done == Err::<(), StoreError>(StoreError::Unavailable)
                && final(self)@ == old(self)@,
            old(self)@.online ==> done == Ok::<(), StoreError>(()) && final(self)@ == (StoreView {
                headers: match header {
                    Some(entry) => headers_with(old(self)@.headers, entry@),
                    None => old(self)@.headers,
                },
                records: old(self)@.records.push(record@),
                online: true,
            }),
    {
        if !self.online {
            return Err(StoreError::Unavailable);
        }
        match header {
            Some(entry) => {
                match self.find_header(&entry.event) {
                    Some(i) => {
                        let _ = self.headers.remove(i);
                        self.headers.insert(i, entry);
                        assert(views(self.headers@) =~= old(self)@.headers.update(
                            i as int,
                            entry@,
                        ));
                    },
                    None => {
                        proof {
                            lemma_views_push(self.headers@, entry);
                        }
                        self.headers.push(entry);
                    },
                }
            },
            None => {},
        }
        proof {
            lemma_views_push(self.records@, record);
        }
        self.records.push(record);
        Ok(())
    }

    /// Deletes every record in the range of the window of `event`.
    pub fn delete_range(&mut self, event: &ReportEvent) -> (done: Result<(), StoreError>)
        ensures
            !old(self)@.online ==> done == Err::<(), StoreError>(StoreError::Unavailable)
                && final(self)@ == old(self)@,
            old(self)@.online ==> done == Ok::<(), StoreError>(()) && final(self)@ == (StoreView {
                records: records_without(old(self)@.records, event@.window()),
                ..old(self)@
            }),
    {
        if !self.online {
            return Err(StoreError::Unavailable);
        }
        let ghost all = self@.records;
        let ghost window = event@.window();
        let ghost mut k: int = 0;
        let mut i: usize = 0;
        assert(all.take(0) =~= Seq::empty());
        assert(all.skip(0) =~= all);
        while i < self.records.len()
            invariant
                0 <= k <= all.len(),
                i <= self.records.len(),
                window == event@.window(),
                i == records_without(all.take(k), window).len(),
                views(self.records@) == records_without(all.take(k), window) + all.skip(k),
                self.headers == old(self).headers,
                self.online == old(self).online,
            decreases self.records.len() - i,
        {
            proof {
                lemma_records_without_next(all, window, k);
                assert(views(self.records@)[i as int] == all.skip(k)[0]);
            }
            if self.records[i].event.in_range_of(event) {
                let ghost prev = self.records@;
                let _ = self.records.remove(i);
                proof {
                    assert(prev[i as int]@ == all[k]);
                    assert(views(self.records@) =~= views(prev).remove(i as int));
                    assert(views(prev).remove(i as int) =~= records_without(all.take(k), window)
                        + all.skip(k + 1));
                }
            } else {
                proof {
                    assert(self.records@[i as int]@ == all[k]);
                    assert(!all[k].event.in_range(window));
                    assert(all.skip(k) =~= seq![all[k]] + all.skip(k + 1));
                    assert(views(self.records@) =~= records_without(all.take(k + 1), window)
                        + all.skip(k + 1));
                }
                i += 1;
            }
            proof {
                k = k + 1;
            }
        }
        proof {
            assert(k == all.len()) by {
                if k < all.len() {
                    assert((records_without(all.take(k), window) + all.skip(k)).len() > i);
                }
            }
            assert(all.take(k) =~= all);
            assert(views(self.records@) =~= records_without(all, window));
        }
        Ok(())
    }

    /// Clears the header of the window of `event`.
    pub fn clear_header(&mut self, event: &ReportEvent) -> (done: Result<(), StoreError>)
        ensures
            !old(self)@.online ==> done == Err::<(), StoreError>(StoreError::Unavailable)
                && final(self)@ == old(self)@,
            old(self)@.online ==> done == Ok::<(), StoreError>(()) && final(self)@ == (StoreView {
                headers: headers_without(old(self)@.headers, event@.window()),
                ..old(self)@
            }),
    {
        if !self.online {
            return Err(StoreError::Unavailable);
        }
        let ghost all = self@.headers;
        let ghost window = event@.window();
        let ghost mut k: int = 0;
        let mut i: usize = 0;
        assert(all.take(0) =~= Seq::empty());
        assert(all.skip(0) =~= all);
        while i < self.headers.len()
            invariant
                0 <= k <= all.len(),
                i <= self.headers.len(),
                window == event@.window(),
                i == headers_without(all.take(k), window).len(),
                views(self.headers@) == headers_without(all.take(k), window) + all.skip(k),
                self.records == old(self).records,
                self.online == old(self).online,
            decreases self.headers.len() - i,
        {
            proof {
                lemma_headers_without_next(all, window, k);
                assert(views(self.headers@)[i as int] == all.skip(k)[0]);
            }
            if self.headers[i].event.same_window(event) {
                let ghost prev = self.headers@;
                let _ = self.headers.remove(i);
                proof {
                    assert(prev[i as int]@ == all[k]);
                    assert(views(self.headers@) =~= views(prev).remove(i as int));
                    assert(views(prev).remove(i as int) =~= headers_without(all.take(k), window)
                        + all.skip(k + 1));
                }
            } else {
                proof {
                    assert(self.headers@[i as int]@ == all[k]);
                    assert(all[k].event.window() != window);
                    assert(all.skip(k) =~= seq![all[k]] + all.skip(k + 1));
                    assert(views(self.headers@) =~= headers_without(all.take(k + 1), window)
                        + all.skip(k + 1));
                }
                i += 1;
            }
            proof {
                k = k + 1;
            }
        }
        proof {
            assert(k == all.len()) by {
                if k < all.len() {
                    assert((headers_without(all.take(k), window) + all.skip(k)).len() > i);
                }
            }
            assert(all.take(k) =~= all);
            assert(views(self.headers@) =~= headers_without(all, window));
        }
        Ok(())
    }
}

/// What is left when a window's records are deleted stays below every
/// bound that the records were below.
pub proof fn lemma_without_below(records: Seq<RecordEntryView>, window: Window, bound: int)
    requires
        all_below(records, bound),
    ensures
        all_below(records_without(records, window), bound),
    decreases records.len(),
{
    if records.len() > 0 {
        let front = records.drop_last();
        assert(forall|i: int| 0 <= i < front.len() ==> front[i] == records[i]);
        lemma_without_below(front, window, bound);
    }
}

/// The records stand in the order of their sequence numbers.
pub open spec fn ascending(records: Seq<RecordEntryView>) -> bool {
    forall|i: int, j: int|
        0 <= i < j < records.len() ==> records[i].event.seq_id < records[j].event.seq_id
}

/// No window has two headers.
pub open spec fn one_each(headers: Seq<HeaderEntryView>) -> bool {
    forall|i: int, j: int|
        0 <= i < j < headers.len() ==> headers[i].event.window() != headers[j].event.window()
}

/// Deleting a window's records keeps the others in order.
pub proof fn lemma_without_ascending(records: Seq<RecordEntryView>, window: Window)
    requires
        ascending(records),
    ensures
        ascending(records_without(records, window)),
    decreases records.len(),
{
    if records.len() > 0 {
        let front = records.drop_last();
        assert(forall|i: int| 0 <= i < front.len() ==> front[i] == records[i]);
        lemma_without_ascending(front, window);
        assert(all_below(front, records.last().event.seq_id as int));
        lemma_without_below(front, window, records.last().event.seq_id as int);
    }
}

/// After a window's records are deleted a scan of the window finds
/// nothing, and a scan of any other window finds what it found before.
pub proof fn lemma_without_scan(records: Seq<RecordEntryView>, window: Window, other: Window)
    ensures
        records_of(records_without(records, window), window).len() == 0,
        other != window ==> records_of(records_without(records, window), other) == records_of(
            records,
            other,
        ),
    decreases records.len(),
{
    if records.len() > 0 {
        let front = records.drop_last();
        lemma_without_scan(front, window, other);
        if !records.last().event.in_range(window) {
            let kept = records_without(front, window).push(records.last());
            assert(kept.drop_last() =~= records_without(front, window));
        }
    }
}

/// Clearing a window's header leaves no header of that window, and
/// every other header where it was found before.
pub proof fn lemma_headers_without(headers: Seq<HeaderEntryView>, window: Window, other: Window)
    ensures
        header_of(headers_without(headers, window), window) is None,
        other != window ==> header_of(headers_without(headers, window), other) == header_of(
            headers,
            other,
        ),
        forall|i: int|
            0 <= i < headers_without(headers, window).len() ==> exists|j: int|
                0 <= j < headers.len() && headers[j] == #[trigger] headers_without(
                    headers,
                    window,
                )[i],
    decreases headers.len(),
{
    if headers.len() > 0 {
        let front = headers.drop_last();
        lemma_headers_without(front, window, other);
        lemma_header_at(front, other);
        lemma_header_at(headers_without(front, window), other);
        let rest = headers_without(front, window);
        assert forall|i: int| 0 <= i < headers_without(headers, window).len() implies exists|
            j: int,
        |
            0 <= j < headers.len() && headers[j] == #[trigger] headers_without(headers, window)[i] by {
            if i < rest.len() {
                let j = choose|j: int| 0 <= j < front.len() && front[j] == rest[i];
                assert(headers[j] == front[j]);
            } else {
                assert(headers[headers.len() - 1] == headers_without(headers, window)[i]);
            }
        }
        if headers.last().event.window() != window {
            let kept = rest.push(headers.last());
            assert(kept.drop_last() =~= rest);
        }
    }
}

/// Clearing a header keeps the headers of the other windows apart.
pub proof fn lemma_headers_without_one_each(headers: Seq<HeaderEntryView>, window: Window)
    requires
        one_each(headers),
    ensures
        one_each(headers_without(headers, window)),
    decreases headers.len(),
{
    if headers.len() > 0 {
        let front = headers.drop_last();
        assert(forall|i: int| 0 <= i < front.len() ==> front[i] == headers[i]);
        lemma_headers_without_one_each(front, window);
        lemma_headers_without(front, window, window);
        let rest = headers_without(front, window);
        if headers.last().event.window() != window {
            assert forall|i: int| 0 <= i < rest.len() implies rest[i].event.window()
                != headers.last().event.window() by {
                let j = choose|j: int| 0 <= j < front.len() && front[j] == rest[i];
                assert(headers[j] == front[j]);
            }
        }
    }
}

} // verus!
