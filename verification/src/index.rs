//! An index from a hash to the positions of the items with that hash,
//! kept in an `AHashMap`. The hash narrows a search down to a few
//! positions; what is found is decided by comparing the items.

use vstd::prelude::*;
use ahash::AHashMap;

verus! {

/// The hasher state of `ahash`, which an `AHashMap` holds.
#[verifier::external_type_specification]
#[verifier::external_body]
pub struct ExRandomState(ahash::RandomState);

/// The hash map of `ahash`.
#[verifier::external_type_specification]
#[verifier::external_body]
#[verifier::reject_recursive_types(K)]
#[verifier::reject_recursive_types(V)]
#[verifier::reject_recursive_types(S)]
pub struct ExAHashMap<K, V, S>(AHashMap<K, V, S>);

/// What a map from hashes to positions holds.
pub uninterp spec fn buckets(map: AHashMap<u64, Vec<usize>>) -> Map<u64, Seq<usize>>;

/// An empty map. The body is `AHashMap::new`, which makes a map without
/// entries.
#[verifier::external_body]
fn buckets_new() -> (created: AHashMap<u64, Vec<usize>>)
    ensures
        buckets(created) == no_buckets(),
{
    AHashMap::new()
}

/// A map that holds nothing.
pub open spec fn no_buckets() -> Map<u64, Seq<usize>> {
    Map::empty()
}

/// The positions under a hash. The body is `AHashMap::get`, which hands
/// out the value that was last inserted under the key, if any; the
/// positions are copied.
#[verifier::external_body]
fn buckets_get(map: &AHashMap<u64, Vec<usize>>, hash: u64) -> (bucket: Option<Vec<usize>>)
    ensures
        match bucket {
            Some(positions) => buckets(*map).contains_key(hash) && buckets(*map)[hash]
                == positions@,
            None => !buckets(*map).contains_key(hash),
        },
{
    map.get(&hash).cloned()
}

/// Puts positions under a hash. The body is `AHashMap::insert`, which
/// replaces what the key held and leaves every other key alone.
#[verifier::external_body]
fn buckets_insert(map: &mut AHashMap<u64, Vec<usize>>, hash: u64, bucket: Vec<usize>)
    ensures
        buckets(*final(map)) == buckets(*old(map)).insert(hash, bucket@),
{
    map.insert(hash, bucket);
}

/// The positions that a map holds under a hash; none where it holds
/// nothing.
pub open spec fn bucket_of(map: Map<u64, Seq<usize>>, hash: u64) -> Seq<usize> {
    if map.contains_key(hash) {
        map[hash]
    } else {
        Seq::empty()
    }
}

/// Whether a map is the index of items with these hashes: every
/// position stands under the hash of its item, and nothing else stands
/// in the map.
#[verifier::opaque]
pub open spec fn indexes(map: Map<u64, Seq<usize>>, hashes: Seq<u64>) -> bool {
    &&& forall|i: int|
        0 <= i < hashes.len() ==> bucket_of(map, #[trigger] hashes[i]).contains(i as usize)
    &&& forall|hash: u64, k: int|
        0 <= k < bucket_of(map, hash).len() ==> (#[trigger] bucket_of(map, hash)[k])
            < hashes.len() && hashes[bucket_of(map, hash)[k] as int] == hash
}

/// An index from hashes to positions.
pub struct HashIndex {
    map: AHashMap<u64, Vec<usize>>,
}

impl View for HashIndex {
    type V = Map<u64, Seq<usize>>;

    closed spec fn view(&self) -> Map<u64, Seq<usize>> {
        buckets(self.map)
    }
}

impl HashIndex {
    /// An index of nothing.
    pub fn new() -> (index: HashIndex)
        ensures
            index@ == no_buckets(),
            indexes(index@, Seq::empty()),
    {
        proof {
            reveal(indexes);
        }
        HashIndex { map: buckets_new() }
    }

    /// The positions that stand under a hash.
    pub fn candidates(&self, hash: u64) -> (positions: Vec<usize>)
        ensures
            positions@ == bucket_of(self@, hash),
    {
        match buckets_get(&self.map, hash) {
            Some(positions) => positions,
            None => Vec::new(),
        }
    }

    /// Puts one more position under a hash.
    pub fn add(&mut self, hash: u64, position: usize)
        ensures
            final(self)@ == old(self)@.insert(hash, bucket_of(old(self)@, hash).push(position)),
    {
        let mut positions = self.candidates(hash);
        positions.push(position);
        buckets_insert(&mut self.map, hash, positions);
    }
}

/// An index stays one when the position of one more item is put under
/// the item's hash.
pub proof fn lemma_index_add(map: Map<u64, Seq<usize>>, hashes: Seq<u64>, hash: u64)
    requires
        indexes(map, hashes),
        hashes.len() <= usize::MAX,
    ensures
        indexes(
            map.insert(hash, bucket_of(map, hash).push(hashes.len() as usize)),
            hashes.push(hash),
        ),
{
    reveal(indexes);
    let n = hashes.len() as usize;
    let after = map.insert(hash, bucket_of(map, hash).push(n));
    let more = hashes.push(hash);
    assert forall|i: int| 0 <= i < more.len() implies bucket_of(after, #[trigger] more[i]).contains(
        i as usize,
    ) by {
        if i < hashes.len() {
            let at = choose|k: int|
                0 <= k < bucket_of(map, hashes[i]).len() && bucket_of(map, hashes[i])[k]
                    == i as usize;
            if hashes[i] == hash {
                assert(bucket_of(after, hash)[at] == i as usize);
            } else {
                assert(bucket_of(after, hashes[i])[at] == i as usize);
            }
        } else {
            assert(bucket_of(after, hash)[bucket_of(map, hash).len() as int] == n);
        }
    }
    assert forall|other: u64, k: int| 0 <= k < bucket_of(after, other).len() implies (
    #[trigger] bucket_of(after, other)[k]) < more.len() && more[bucket_of(after, other)[k] as int]
        == other by {
        if other == hash {
            if k < bucket_of(map, hash).len() {
                assert(bucket_of(after, other)[k] == bucket_of(map, hash)[k]);
            }
        } else {
            assert(bucket_of(after, other)[k] == bucket_of(map, other)[k]);
        }
    }
}

/// What stands in an index under a hash is the position of an item
/// with that hash.
pub proof fn lemma_index_sound(map: Map<u64, Seq<usize>>, hashes: Seq<u64>, hash: u64, k: int)
    requires
        indexes(map, hashes),
        0 <= k < bucket_of(map, hash).len(),
    ensures
        bucket_of(map, hash)[k] < hashes.len(),
        hashes[bucket_of(map, hash)[k] as int] == hash,
{
    reveal(indexes);
}

/// The position of every item stands in the index under the item's
/// hash.
pub proof fn lemma_index_complete(map: Map<u64, Seq<usize>>, hashes: Seq<u64>, i: int) -> (k: int)
    requires
        indexes(map, hashes),
        0 <= i < hashes.len(),
    ensures
        0 <= k < bucket_of(map, hashes[i]).len(),
        bucket_of(map, hashes[i])[k] == i as usize,
{
    reveal(indexes);
    let bucket = bucket_of(map, hashes[i]);
    assert(bucket.contains(i as usize));
    choose|k: int| 0 <= k < bucket.len() && bucket[k] == i as usize
}

/// The multiplier of the hash.
pub const PRIME: u64 = 0x100000001b3;

/// The hash before the first byte.
pub const BASIS: u64 = 0xcbf29ce484222325;

/// A hash with one more byte mixed in.
pub open spec fn mixed(hash: u64, byte: u8) -> u64 {
    (hash ^ (byte as u64)).wrapping_mul(PRIME)
}

/// A hash with bytes mixed in, in order.
pub open spec fn mixed_all(hash: u64, bytes: Seq<u8>) -> u64
    decreases bytes.len(),
{
    if bytes.len() == 0 {
        hash
    } else {
        mixed(mixed_all(hash, bytes.drop_last()), bytes.last())
    }
}

/// Mixes bytes into a hash.
pub fn mix_bytes(hash: u64, bytes: &[u8]) -> (after: u64)
    ensures
        after == mixed_all(hash, bytes@),
{
    let mut after = hash;
    let mut i: usize = 0;
    assert(bytes@.take(0) =~= Seq::empty());
    while i < bytes.len()
        invariant
            i <= bytes.len(),
            after == mixed_all(hash, bytes@.take(i as int)),
        decreases bytes.len() - i,
    {
        proof {
            assert(bytes@.take(i + 1).drop_last() =~= bytes@.take(i as int));
        }
        after = (after ^ (bytes[i] as u64)).wrapping_mul(PRIME);
        i += 1;
    }
    assert(bytes@.take(i as int) =~= bytes@);
    after
}

/// A hash with a number mixed in.
pub open spec fn mixed_number(hash: u64, number: u64) -> u64 {
    (hash ^ number).wrapping_mul(PRIME)
}

/// Mixes a number into a hash.
pub fn mix_number(hash: u64, number: u64) -> (after: u64)
    ensures
        after == mixed_number(hash, number),
{
    (hash ^ number).wrapping_mul(PRIME)
}

} // verus!
