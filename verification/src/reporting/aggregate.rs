//! Assembly of an aggregate report's rows: records that agree on every
//! field but the count fall into one group, and new groups are admitted
//! only while the size budget lasts.

use vstd::prelude::*;
use crate::compare::{Structured, views, lemma_views_push};
use crate::index::{HashIndex, bucket_of, indexes, lemma_index_add, lemma_index_complete,
    lemma_index_sound};
use crate::reporting::types::{Record, RecordView};

verus! {

/// A record as it comes out of a window scan, with the length of its
/// serialized form.
#[derive(Debug)]
pub struct SizedRecord {
    pub record: Record,
    pub serialized_size: usize,
}

pub struct SizedRecordView {
    pub record: RecordView,
    pub serialized_size: usize,
}

impl View for SizedRecord {
    type V = SizedRecordView;

    open spec fn view(&self) -> SizedRecordView {
        SizedRecordView { record: self.record@, serialized_size: self.serialized_size }
    }
}

impl Structured for SizedRecord {
    fn same_as(&self, other: &Self) -> (same: bool) {
        self.record.same_as(&other.record) && self.serialized_size == other.serialized_size
    }

    fn duplicate(&self) -> (copy: Self) {
        SizedRecord { record: self.record.duplicate(), serialized_size: self.serialized_size }
    }
}

/// One row of an assembled report: the first record of a group, and how
/// many later records of the scan were folded into it.
#[derive(Debug)]
pub struct ReportRecord {
    pub record: Record,
    pub duplicates: usize,
}

/// A group of records that agree on every field but the count: its
/// first record, and the number of messages it stands for.
pub struct Group {
    pub record: RecordView,
    pub count: nat,
}

impl View for ReportRecord {
    type V = Group;

    open spec fn view(&self) -> Group {
        Group { record: self.record@, count: (self.record.count + self.duplicates) as nat }
    }
}

impl Structured for ReportRecord {
    fn same_as(&self, other: &Self) -> (same: bool) {
        self.record.same_as(&other.record) && self.duplicates == other.duplicates
    }

    fn duplicate(&self) -> (copy: Self) {
        ReportRecord { record: self.record.duplicate(), duplicates: self.duplicates }
    }
}

/// `count`, or `u64::MAX` if it is larger.
pub open spec fn capped(count: nat) -> u64 {
    if count <= u64::MAX {
        count as u64
    } else {
        u64::MAX
    }
}

impl ReportRecord {
    /// The number of messages the row stands for: the first record's own
    /// count and one for each record folded into it, or `u64::MAX` if
    /// that sum is larger.
    pub fn count(&self) -> (total: u64)
        ensures
            total == capped(self@.count),
    {
        let folded: u64 = self.duplicates as u64;
        let own: u64 = self.record.count as u64;
        if folded <= u64::MAX - own {
            own + folded
        } else {
            u64::MAX
        }
    }
}

/// Where a scan stands: the groups admitted so far, in the order of
/// their admission, the bytes accounted for, and whether new groups are
/// still admitted.
pub struct Admission {
    pub groups: Seq<Group>,
    pub used: nat,
    pub open: bool,
}

/// Whether `size` more bytes fit after `used`. Without a budget
/// everything fits.
pub open spec fn fits(budget: Option<usize>, used: nat, size: nat) -> bool {
    match budget {
        Some(limit) => used + size <= limit,
        None => true,
    }
}

/// The scan before its first record: the shell is accounted for, and
/// admission is open only if the shell itself fits.
pub open spec fn start(shell_size: usize, budget: Option<usize>) -> Admission {
    Admission {
        groups: Seq::empty(),
        used: shell_size as nat,
        open: fits(budget, 0, shell_size as nat),
    }
}

/// The position of the group that `key` identifies, if it was admitted.
pub open spec fn position(groups: Seq<Group>, key: RecordView) -> Option<int>
    decreases groups.len(),
{
    if groups.len() == 0 {
        None
    } else {
        match position(groups.drop_last(), key) {
            Some(i) => Some(i),
            None => if groups.last().record.dedup_key() == key {
                Some(groups.len() - 1)
            } else {
                None
            },
        }
    }
}

/// The scan after one more record. A record of an admitted group is
/// folded into it whatever the budget says. A record of a new group is
/// admitted with its own count if admission is open and it fits;
/// otherwise it is left out, and admission is closed from then on.
pub open spec fn step(
    state: Admission,
    item: SizedRecordView,
    budget: Option<usize>,
) -> Admission {
    match position(state.groups, item.record.dedup_key()) {
        Some(i) => Admission {
            groups: state.groups.update(
                i,
                Group { record: state.groups[i].record, count: state.groups[i].count + 1 },
            ),
            ..state
        },
        None => if state.open && fits(budget, state.used, item.serialized_size as nat) {
            Admission {
                groups: state.groups.push(
                    Group { record: item.record, count: item.record.count as nat },
                ),
                used: state.used + item.serialized_size as nat,
                open: true,
            }
        } else {
            Admission { open: false, ..state }
        },
    }
}

/// The scan after all of `records`, taken in order.
pub open spec fn scan(
    records: Seq<SizedRecordView>,
    shell_size: usize,
    budget: Option<usize>,
) -> Admission
    decreases records.len(),
{
    if records.len() == 0 {
        start(shell_size, budget)
    } else {
        step(scan(records.drop_last(), shell_size, budget), records.last(), budget)
    }
}

/// No two groups share a key.
pub open spec fn distinct(groups: Seq<Group>) -> bool {
    forall|i: int, j: int|
        0 <= i < j < groups.len() ==> groups[i].record.dedup_key() != groups[j].record.dedup_key()
}

/// `position` finds the first group with the key, and says `None` only
/// if there is none.
pub proof fn lemma_position(groups: Seq<Group>, key: RecordView)
    ensures
        match position(groups, key) {
            Some(i) => 0 <= i < groups.len() && groups[i].record.dedup_key() == key && forall|j: int|
                0 <= j < i ==> groups[j].record.dedup_key() != key,
            None => forall|j: int| 0 <= j < groups.len() ==> groups[j].record.dedup_key() != key,
        },
    decreases groups.len(),
{
    if groups.len() > 0 {
        let front = groups.drop_last();
        lemma_position(front, key);
        assert(forall|j: int| 0 <= j < front.len() ==> front[j] == groups[j]);
        match position(front, key) {
            Some(i) => {},
            None => {
                assert forall|j: int| 0 <= j < groups.len() - 1 implies groups[j].record.dedup_key()
                    != key by {
                    assert(front[j] == groups[j]);
                }
            },
        }
    }
}

/// Every step keeps the groups' keys apart, keeps the groups that were
/// there in place with their records, and never lowers a count.
pub proof fn lemma_step_keeps(state: Admission, item: SizedRecordView, budget: Option<usize>)
    requires
        distinct(state.groups),
    ensures
        distinct(step(state, item, budget).groups),
        step(state, item, budget).groups.len() >= state.groups.len(),
        forall|i: int|
            0 <= i < state.groups.len() ==> {
                &&& (#[trigger] step(state, item, budget).groups[i]).record
                    == state.groups[i].record
                &&& step(state, item, budget).groups[i].count >= state.groups[i].count
            },
{
    lemma_position(state.groups, item.record.dedup_key());
}

/// The groups of a scan have distinct keys.
pub proof fn lemma_scan_distinct(
    records: Seq<SizedRecordView>,
    shell_size: usize,
    budget: Option<usize>,
)
    ensures
        distinct(scan(records, shell_size, budget).groups),
    decreases records.len(),
{
    if records.len() > 0 {
        lemma_scan_distinct(records.drop_last(), shell_size, budget);
        lemma_step_keeps(scan(records.drop_last(), shell_size, budget), records.last(), budget);
    }
}

/// The hashes of the groups, in order.
pub open spec fn hashes_of(groups: Seq<Group>) -> Seq<u64> {
    Seq::new(groups.len(), |i: int| groups[i].record.dedup_key().group_hash())
}

/// Looks for the row of the group that `record` belongs to. The index
/// names the rows whose hash is that of the record; among them the
/// records are compared.
pub fn find_group(rows: &Vec<ReportRecord>, index: &HashIndex, record: &Record) -> (found: Option<
    usize,
>)
    requires
        distinct(views(rows@)),
        indexes(index@, hashes_of(views(rows@))),
    ensures
        match found {
            Some(i) => i < rows.len() && position(views(rows@), record@.dedup_key()) == Some(
                i as int,
            ),
            None => position(views(rows@), record@.dedup_key()) is None,
        },
{
    let ghost groups = views(rows@);
    let ghost key = record@.dedup_key();
    let hash = record.group_hash();
    let positions = index.candidates(hash);
    let mut k: usize = 0;
    while k < positions.len()
        invariant
            k <= positions.len(),
            groups == views(rows@),
            key == record@.dedup_key(),
            positions@ == bucket_of(index@, hash),
            indexes(index@, hashes_of(groups)),
            distinct(groups),
            forall|j: int|
                0 <= j < k ==> (#[trigger] positions@[j]) < groups.len() && groups[positions@[j] as int].record.dedup_key()
                    != key,
        decreases positions.len() - k,
    {
        proof {
            lemma_index_sound(index@, hashes_of(groups), hash, k as int);
        }
        let at = positions[k];
        if rows[at].record.same_group(record) {
            proof {
                assert(groups[at as int].record.dedup_key() == key);
                lemma_position(groups, key);
            }
            return Some(at);
        }
        k += 1;
    }
    proof {
        lemma_position(groups, key);
        if position(groups, key) is Some {
            let at = position(groups, key)->0;
            let hashes = hashes_of(groups);
            assert(groups[at].record.dedup_key() == key);
            assert(hashes[at] == hash);
            let j = lemma_index_complete(index@, hashes, at);
            assert(0 <= at < rows.len());
            assert((at as usize) as int == at);
            assert(positions@[j] == at as usize);
            assert(groups[positions@[j] as int].record.dedup_key() != key);
            assert(false);
        }
    }
    None
}

/// Groups the records of a scan and admits new groups while the budget
/// lasts. The rows come in the order in which their groups were
/// admitted; each holds the first record of its group, and counts that
/// record's own count plus one for every later record of the group.
pub fn assemble(records: &Vec<SizedRecord>, shell_size: usize, budget: Option<usize>) -> (rows:
    Vec<ReportRecord>)
    ensures
        views(rows@) == scan(views(records@), shell_size, budget).groups,
{
    let ghost all = views(records@);
    let mut rows: Vec<ReportRecord> = Vec::new();
    let mut index = HashIndex::new();
    let mut open: bool = match budget {
        Some(limit) => shell_size <= limit,
        None => true,
    };
    let mut used: usize = shell_size;
    let mut i: usize = 0;
    assert(all.take(0) =~= Seq::empty());
    assert(views(rows@) =~= Seq::empty());
    assert(hashes_of(views(rows@)) =~= Seq::empty());
    while i < records.len()
        invariant
            i <= records.len(),
            all == views(records@),
            indexes(index@, hashes_of(views(rows@))),
            views(rows@) == scan(all.take(i as int), shell_size, budget).groups,
            open == scan(all.take(i as int), shell_size, budget).open,
            open && budget is Some ==> used == scan(all.take(i as int), shell_size, budget).used
                && used <= budget->0,
            forall|g: int| 0 <= g < rows.len() ==> rows@[g].duplicates <= i,
        decreases records.len() - i,
    {
        let ghost before = scan(all.take(i as int), shell_size, budget);
        proof {
            assert(all.take(i + 1).drop_last() =~= all.take(i as int));
            assert(all.take(i + 1).last() == records@[i as int]@);
            lemma_position(before.groups, records@[i as int]@.record.dedup_key());
            lemma_scan_distinct(all.take(i as int), shell_size, budget);
        }
        let item = &records[i];
        match find_group(&rows, &index, &item.record) {
            Some(at) => {
                let ghost hashes = hashes_of(views(rows@));
                let row = rows.remove(at);
                let folded = ReportRecord {
                    record: row.record,
                    duplicates: row.duplicates + 1,
                };
                rows.insert(at, folded);
                assert(views(rows@) =~= before.groups.update(
                    at as int,
                    Group {
                        record: before.groups[at as int].record,
                        count: before.groups[at as int].count + 1,
                    },
                ));
                assert(hashes_of(views(rows@)) =~= hashes);
            },
            None => {
                let accept = open && match budget {
                    Some(limit) => item.serialized_size <= limit - used,
                    None => true,
                };
                if accept {
                    if budget.is_some() {
                        used = used + item.serialized_size;
                    }
                    let first = item.record.duplicate();
                    let hash = first.group_hash();
                    proof {
                        lemma_views_push(rows@, ReportRecord { record: first, duplicates: 0 });
                        lemma_index_add(index@, hashes_of(views(rows@)), hash);
                        assert(hashes_of(views(rows@)).push(hash) =~= hashes_of(
                            views(rows@).push(
                                (ReportRecord { record: first, duplicates: 0 })@,
                            ),
                        ));
                    }
                    index.add(hash, rows.len());
                    rows.push(ReportRecord { record: first, duplicates: 0 });
                    assert(views(rows@) =~= before.groups.push(
                        Group { record: item.record@, count: item.record@.count as nat },
                    ));
                } else {
                    open = false;
                }
            },
        }
        i += 1;
    }
    assert(all.take(i as int) =~= all);
    rows
}

} // verus!
