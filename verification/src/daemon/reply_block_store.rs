//! Reply blocks waiting to be used, per destination fingerprint.
//!
//! The store is two-level. The outer level keeps a bounded number of
//! fingerprints and forgets the least recently used one to admit a new one.
//! The inner level keeps, for one fingerprint, a bounded queue of reply
//! blocks: the oldest block leaves when a new one arrives at a full queue,
//! and the newest block is the first to be handed out.
use crate::crypt::Fingerprint;
use crate::packet::ReplyBlock;
use lru::LruCache;
use std::collections::VecDeque;
use std::num::NonZeroUsize;
use vstd::prelude::*;

verus! {

/// How many reply blocks are kept for one fingerprint.
pub const DEQUE_CAPACITY: usize = 1000;

/// The greatest number of fingerprints that a store can be made for.
pub const MAX_STORE_SIZE: usize = 0x0100_0000;

/// What a bounded queue holds after `item` arrives: the item joins the tail,
/// and the head leaves first when the queue is at its capacity.
pub open spec fn bounded_push<T>(s: Seq<T>, capacity: nat, item: T) -> Seq<T> {
    if s.len() == capacity && s.len() > 0 {
        s.drop_first().push(item)
    } else {
        s.push(item)
    }
}

/// A queue of reply blocks that drops its oldest block to admit a new one.
pub struct ReplyBlockDeque {
    pub deque: VecDeque<ReplyBlock>,
    pub capacity: usize,
}

impl View for ReplyBlockDeque {
    type V = Seq<ReplyBlock>;

    open spec fn view(&self) -> Seq<ReplyBlock> {
        self.deque@
    }
}

impl ReplyBlockDeque {
    /// An empty queue that will hold up to `capacity` blocks.
    pub fn new(capacity: usize) -> (r: Self)
        ensures
            r@ == Seq::<ReplyBlock>::empty(),
            r.capacity == capacity,
    {
        ReplyBlockDeque { deque: VecDeque::with_capacity(capacity), capacity }
    }

    /// Appends `item`, dropping the oldest block first if the queue is full.
    pub fn insert(&mut self, item: ReplyBlock)
        ensures
            final(self)@ == bounded_push(old(self)@, old(self).capacity as nat, item),
            final(self).capacity == old(self).capacity,
    {
        if self.deque.len() == self.capacity {
            // remove the oldest element
            self.deque.pop_front();
        }
        // add the new element to the end
        self.deque.push_back(item);
    }

    /// Takes the newest block out, if there is one.
    pub fn pop(&mut self) -> (r: Option<ReplyBlock>)
        ensures
            final(self).capacity == old(self).capacity,
            old(self)@.len() == 0 ==> r is None && final(self)@ == old(self)@,
            old(self)@.len() > 0 ==> r == Some(old(self)@.last()) && final(self)@ == old(
                self,
            )@.drop_last(),
    {
        self.deque.pop_back()
    }
}

/// `lru::LruCache`, a map that keeps a bounded number of entries in the order
/// of their last use. Nothing of its inside is known here; `lru_entries` and
/// `lru_cap` name what it holds.
#[verifier::external_type_specification]
#[verifier::external_body]
#[verifier::reject_recursive_types(K)]
#[verifier::reject_recursive_types(V)]
#[verifier::reject_recursive_types(S)]
pub struct ExLruCache<K, V, S>(LruCache<K, V, S>);

/// `lru::DefaultHasher`, the hasher of a cache that is made with
/// `LruCache::new`.
#[verifier::external_type_specification]
#[verifier::external_body]
pub struct ExLruHasher(lru::DefaultHasher);

/// The entries of a cache, most recently used first.
pub uninterp spec fn lru_entries(c: LruCache<[u8; 20], ReplyBlockDeque>) -> Seq<
    (Seq<u8>, ReplyBlockDeque),
>;

/// The number of entries that a cache was made to hold.
pub uninterp spec fn lru_cap(c: LruCache<[u8; 20], ReplyBlockDeque>) -> nat;

/// The first position at which `key` occurs among the entries, or -1.
pub open spec fn position_of(entries: Seq<(Seq<u8>, ReplyBlockDeque)>, key: Seq<u8>) -> int
    decreases entries.len(),
{
    if entries.len() == 0 {
        -1
    } else if entries[0].0 == key {
        0
    } else {
        let r = position_of(entries.drop_first(), key);
        if r < 0 {
            -1
        } else {
            r + 1
        }
    }
}

/// `LruCache::new`: the cache starts empty and holds up to `cap` entries.
/// A capacity of zero cannot be expressed to the cache and is left out, and
/// so is one beyond `MAX_STORE_SIZE`: the cache sets up its index for `cap`
/// entries at once, which it cannot do for any number on every machine.
#[verifier::external_body]
fn lru_new(cap: usize) -> (c: LruCache<[u8; 20], ReplyBlockDeque>)
    requires
        0 < cap <= MAX_STORE_SIZE,
    ensures
        lru_entries(c) == Seq::<(Seq<u8>, ReplyBlockDeque)>::empty(),
        lru_cap(c) == cap,
{
    LruCache::new(NonZeroUsize::new(cap).unwrap())
}

/// `LruCache::get_mut`: when the key is present its entry moves to the front
/// and its value is lent out, so that what the caller leaves in the value is
/// what the cache then holds there; nothing else changes. When the key is
/// absent the cache is left as it was.
#[verifier::external_body]
fn lru_get_mut<'a>(cache: &'a mut LruCache<[u8; 20], ReplyBlockDeque>, key: &[u8; 20]) -> (r:
    Option<&'a mut ReplyBlockDeque>)
    ensures
        lru_cap(*final(cache)) == lru_cap(*old(cache)),
        lru_cap(*final(cache)) > 0,
        match r {
            Some(d) => {
                let i = position_of(lru_entries(*old(cache)), key@);
                &&& i >= 0
                &&& *d == lru_entries(*old(cache))[i].1
                &&& lru_entries(*final(cache)) == seq![(key@, *final(d))] + lru_entries(
                    *old(cache),
                ).remove(i)
            },
            None => {
                &&& position_of(lru_entries(*old(cache)), key@) < 0
                &&& lru_entries(*final(cache)) == lru_entries(*old(cache))
            },
        },
{
    cache.get_mut(key)
}

/// `LruCache::put`: the pair becomes the front entry. A present key has its
/// old value replaced and returned. An absent key is added, and if the cache
/// already held as many entries as it was made for, the entry at the back,
/// the least recently used one, is dropped to make room.
#[verifier::external_body]
fn lru_put(
    cache: &mut LruCache<[u8; 20], ReplyBlockDeque>,
    key: [u8; 20],
    value: ReplyBlockDeque,
) -> (r: Option<ReplyBlockDeque>)
    ensures
        lru_cap(*final(cache)) == lru_cap(*old(cache)),
        lru_cap(*final(cache)) > 0,
        ({
            let before = lru_entries(*old(cache));
            let i = position_of(before, key@);
            if i >= 0 {
                &&& r == Some(before[i].1)
                &&& lru_entries(*final(cache)) == seq![(key@, value)] + before.remove(i)
            } else {
                &&& r is None
                &&& lru_entries(*final(cache)) == seq![(key@, value)] + (if before.len()
                    == lru_cap(*old(cache)) {
                    before.drop_last()
                } else {
                    before
                })
            }
        }),
{
    cache.put(key, value)
}

/// What the store holds for one fingerprint.
pub struct StoreEntry {
    /// The bytes of the fingerprint.
    pub fingerprint: Seq<u8>,
    /// The reply blocks kept for it, oldest first.
    pub blocks: Seq<ReplyBlock>,
    /// How many blocks its queue admits.
    pub capacity: nat,
}

/// The first position at which `fingerprint` occurs, or -1.
pub open spec fn position(s: Seq<StoreEntry>, fingerprint: Seq<u8>) -> int
    decreases s.len(),
{
    if s.len() == 0 {
        -1
    } else if s[0].fingerprint == fingerprint {
        0
    } else {
        let r = position(s.drop_first(), fingerprint);
        if r < 0 {
            -1
        } else {
            r + 1
        }
    }
}

/// Whether the store holds an entry for `fingerprint`.
pub open spec fn holds(s: Seq<StoreEntry>, fingerprint: Seq<u8>) -> bool {
    position(s, fingerprint) >= 0
}

/// The blocks kept for `fingerprint`, oldest first; none if it has no entry.
pub open spec fn blocks_of(s: Seq<StoreEntry>, fingerprint: Seq<u8>) -> Seq<ReplyBlock> {
    if holds(s, fingerprint) {
        s[position(s, fingerprint)].blocks
    } else {
        Seq::empty()
    }
}

/// The store after one reply block arrives for `fingerprint`. An entry that
/// exists takes the block into its queue and becomes the most recently used.
/// Otherwise a new entry with a queue of `DEQUE_CAPACITY` is made at the
/// front, and if the store was full, its least recently used entry is
/// forgotten.
pub open spec fn store_insert(
    s: Seq<StoreEntry>,
    size: nat,
    fingerprint: Seq<u8>,
    rb: ReplyBlock,
) -> Seq<StoreEntry> {
    let i = position(s, fingerprint);
    if i >= 0 {
        seq![
            StoreEntry {
                fingerprint,
                blocks: bounded_push(s[i].blocks, s[i].capacity, rb),
                capacity: s[i].capacity,
            },
        ] + s.remove(i)
    } else {
        seq![StoreEntry { fingerprint, blocks: seq![rb], capacity: DEQUE_CAPACITY as nat }] + (
        if s.len() == size && s.len() > 0 {
            s.drop_last()
        } else {
            s
        })
    }
}

/// The store after the blocks of `items` arrive for `fingerprint`, in order.
pub open spec fn store_insert_batch(
    s: Seq<StoreEntry>,
    size: nat,
    fingerprint: Seq<u8>,
    items: Seq<ReplyBlock>,
) -> Seq<StoreEntry>
    decreases items.len(),
{
    if items.len() == 0 {
        s
    } else {
        store_insert(
            store_insert_batch(s, size, fingerprint, items.drop_last()),
            size,
            fingerprint,
            items.last(),
        )
    }
}

/// The block that a request for `fingerprint` hands out: the newest one kept
/// for it, if any.
pub open spec fn store_get_result(s: Seq<StoreEntry>, fingerprint: Seq<u8>) -> Option<
    ReplyBlock,
> {
    if blocks_of(s, fingerprint).len() > 0 {
        Some(blocks_of(s, fingerprint).last())
    } else {
        None
    }
}

/// The store after a request for `fingerprint`. An entry that exists loses
/// its newest block, if it has one, and becomes the most recently used,
/// even when its queue is empty. Without an entry nothing changes.
pub open spec fn store_get(s: Seq<StoreEntry>, fingerprint: Seq<u8>) -> Seq<StoreEntry> {
    let i = position(s, fingerprint);
    if i >= 0 {
        seq![
            StoreEntry {
                fingerprint,
                blocks: if s[i].blocks.len() > 0 {
                    s[i].blocks.drop_last()
                } else {
                    s[i].blocks
                },
                capacity: s[i].capacity,
            },
        ] + s.remove(i)
    } else {
        s
    }
}

/// The store after `n` requests for `fingerprint` in a row.
pub open spec fn store_get_times(s: Seq<StoreEntry>, fingerprint: Seq<u8>, n: nat) -> Seq<
    StoreEntry,
>
    decreases n,
{
    if n == 0 {
        s
    } else {
        store_get(store_get_times(s, fingerprint, (n - 1) as nat), fingerprint)
    }
}

/// What every store built by this module satisfies: it was made for at least
/// one fingerprint and holds no more than it was made for, no fingerprint has
/// two entries, and every queue admits `DEQUE_CAPACITY` blocks and holds no
/// more than that.
pub open spec fn store_wf(s: Seq<StoreEntry>, size: nat) -> bool {
    &&& size > 0
    &&& s.len() <= size
    &&& forall|i: int, j: int|
        0 <= i < j < s.len() ==> (#[trigger] s[i]).fingerprint != (#[trigger] s[j]).fingerprint
    &&& forall|i: int|
        0 <= i < s.len() ==> (#[trigger] s[i]).capacity == DEQUE_CAPACITY && s[i].blocks.len()
            <= DEQUE_CAPACITY
}

/// What `position` finds: the entry at a found position has the fingerprint
/// and no earlier entry has it; when nothing is found no entry has it.
pub proof fn lemma_position(s: Seq<StoreEntry>, fingerprint: Seq<u8>)
    ensures
        -1 <= position(s, fingerprint) < s.len(),
        position(s, fingerprint) >= 0 ==> s[position(s, fingerprint)].fingerprint == fingerprint,
        forall|j: int|
            0 <= j < s.len() && (j < position(s, fingerprint) || position(s, fingerprint) < 0)
                ==> (#[trigger] s[j]).fingerprint != fingerprint,
    decreases s.len(),
{
    if s.len() > 0 && s[0].fingerprint != fingerprint {
        let t = s.drop_first();
        lemma_position(t, fingerprint);
        assert forall|j: int|
            0 <= j < s.len() && (j < position(s, fingerprint) || position(s, fingerprint) < 0)
            implies (#[trigger] s[j]).fingerprint != fingerprint by {
            if j > 0 {
                assert(t[j - 1] == s[j]);
            }
        }
    }
}

/// In a store without doubled fingerprints, an entry is found where it is.
pub proof fn lemma_position_at(s: Seq<StoreEntry>, size: nat, i: int)
    requires
        store_wf(s, size),
        0 <= i < s.len(),
    ensures
        position(s, s[i].fingerprint) == i,
{
    lemma_position(s, s[i].fingerprint);
}

/// The model of the cache's raw entries.
spec fn model_of(e: Seq<(Seq<u8>, ReplyBlockDeque)>) -> Seq<StoreEntry> {
    Seq::new(
        e.len(),
        |i: int| StoreEntry { fingerprint: e[i].0, blocks: e[i].1@, capacity: e[i].1.capacity as nat },
    )
}

/// A key is found at the same place in the raw entries and in their model.
proof fn lemma_position_model(e: Seq<(Seq<u8>, ReplyBlockDeque)>, key: Seq<u8>)
    ensures
        position(model_of(e), key) == position_of(e, key),
        -1 <= position_of(e, key) < e.len(),
    decreases e.len(),
{
    if e.len() > 0 {
        if e[0].0 != key {
            lemma_position_model(e.drop_first(), key);
            assert(model_of(e).drop_first() =~= model_of(e.drop_first()));
        }
    }
}

/// The reply-block store.
pub struct ReplyBlockStore {
    items: LruCache<[u8; 20], ReplyBlockDeque>,
}

impl View for ReplyBlockStore {
    type V = Seq<StoreEntry>;

    /// The entries of the store, most recently used first.
    closed spec fn view(&self) -> Seq<StoreEntry> {
        model_of(lru_entries(self.items))
    }
}

impl ReplyBlockStore {
    /// The number of fingerprints that the store was made to hold.
    pub closed spec fn size(&self) -> nat {
        lru_cap(self.items)
    }

    /// Well-formedness of the store.
    pub open spec fn wf(&self) -> bool {
        store_wf(self@, self.size())
    }

    /// An empty store for up to `size` fingerprints.
    pub fn new(size: usize) -> (r: Self)
        requires
            0 < size <= MAX_STORE_SIZE,
        ensures
            r@ == Seq::<StoreEntry>::empty(),
            r.size() == size,
            r.wf(),
    {
        let items = lru_new(size);
        let r = Self { items };
        r
    }

    /// Stores `rb` for `fingerprint`.
    pub fn insert(&mut self, fingerprint: Fingerprint, rb: ReplyBlock)
        ensures
            final(self)@ == store_insert(old(self)@, old(self).size(), fingerprint@, rb),
            final(self).size() == old(self).size(),
            old(self).wf() ==> final(self).wf(),
    {
        let ghost before = lru_entries(self.items);
        proof {
            lemma_position_model(before, fingerprint@);
            if self.wf() {
                lemma_store_insert_wf(self@, self.size(), fingerprint@, rb);
            }
        }
        match lru_get_mut(&mut self.items, fingerprint.as_bytes()) {
            Some(deque) => {
                deque.insert(rb);
            },
            None => {
                let mut deque = ReplyBlockDeque::new(DEQUE_CAPACITY);
                deque.insert(rb);
                lru_put(&mut self.items, *fingerprint.as_bytes(), deque);
            },
        }
        proof {
            assert(self@ =~= store_insert(model_of(before), old(self).size(), fingerprint@, rb));
        }
    }

    /// Stores every block of `items` for `fingerprint`, in order.
    pub fn insert_batch(&mut self, fingerprint: Fingerprint, items: Vec<ReplyBlock>)
        ensures
            final(self)@ == store_insert_batch(
                old(self)@,
                old(self).size(),
                fingerprint@,
                items@,
            ),
            final(self).size() == old(self).size(),
            old(self).wf() ==> final(self).wf(),
    {
        let ghost all = items@;
        for item in it: items
            invariant
                it.seq() == all,
                self.size() == old(self).size(),
                self@ == store_insert_batch(
                    old(self)@,
                    old(self).size(),
                    fingerprint@,
                    all.take(it.index() as int),
                ),
                old(self).wf() ==> self.wf(),
        {
            proof {
                let k = it.index() as int;
                assert(all.take(k + 1).drop_last() =~= all.take(k));
            }
            self.insert(fingerprint, item);
        }
        proof {
            assert(all.take(all.len() as int) =~= all);
        }
    }

    /// Hands out the newest reply block kept for `fingerprint`, if any.
    pub fn get(&mut self, fingerprint: &Fingerprint) -> (r: Option<ReplyBlock>)
        ensures
            r == store_get_result(old(self)@, fingerprint@),
            final(self)@ == store_get(old(self)@, fingerprint@),
            final(self).size() == old(self).size(),
            old(self).wf() ==> final(self).wf(),
    {
        let ghost before = lru_entries(self.items);
        proof {
            lemma_position_model(before, fingerprint@);
            if self.wf() {
                lemma_store_get_wf(self@, self.size(), fingerprint@);
            }
        }
        let r = match lru_get_mut(&mut self.items, fingerprint.as_bytes()) {
            Some(deque) => deque.pop(),
            None => None,
        };
        proof {
            assert(self@ =~= store_get(model_of(before), fingerprint@));
        }
        r
    }
}

/// Storing a block keeps a well-formed store well-formed.
pub proof fn lemma_store_insert_wf(
    s: Seq<StoreEntry>,
    size: nat,
    fingerprint: Seq<u8>,
    rb: ReplyBlock,
)
    requires
        store_wf(s, size),
    ensures
        store_wf(store_insert(s, size, fingerprint, rb), size),
{
    lemma_position(s, fingerprint);
}

/// A request keeps a well-formed store well-formed.
pub proof fn lemma_store_get_wf(s: Seq<StoreEntry>, size: nat, fingerprint: Seq<u8>)
    requires
        store_wf(s, size),
    ensures
        store_wf(store_get(s, fingerprint), size),
{
    lemma_position(s, fingerprint);
}

/// Storing a batch keeps a well-formed store well-formed.
pub proof fn lemma_store_insert_batch_wf(
    s: Seq<StoreEntry>,
    size: nat,
    fingerprint: Seq<u8>,
    items: Seq<ReplyBlock>,
)
    requires
        store_wf(s, size),
    ensures
        store_wf(store_insert_batch(s, size, fingerprint, items), size),
    decreases items.len(),
{
    if items.len() > 0 {
        lemma_store_insert_batch_wf(s, size, fingerprint, items.drop_last());
        lemma_store_insert_wf(
            store_insert_batch(s, size, fingerprint, items.drop_last()),
            size,
            fingerprint,
            items.last(),
        );
    }
}

/// The newest `n` items of a queue, oldest first; all of them when there are
/// no more than `n`.
pub open spec fn newest<T>(q: Seq<T>, n: nat) -> Seq<T> {
    if q.len() > n {
        q.subrange(q.len() - n, q.len() as int)
    } else {
        q
    }
}

/// The store holds at most `DEQUE_CAPACITY` reply blocks for any fingerprint.
pub proof fn law_deque_bounded(s: Seq<StoreEntry>, size: nat, fingerprint: Seq<u8>)
    requires
        store_wf(s, size),
    ensures
        blocks_of(s, fingerprint).len() <= DEQUE_CAPACITY,
{
    lemma_position(s, fingerprint);
}

/// A block that was just stored for a fingerprint is the next one handed out
/// for it.
pub proof fn law_insert_then_get(
    s: Seq<StoreEntry>,
    size: nat,
    fingerprint: Seq<u8>,
    rb: ReplyBlock,
)
    ensures
        store_get_result(store_insert(s, size, fingerprint, rb), fingerprint) == Some(rb),
{
    lemma_position(s, fingerprint);
}

/// After a batch is stored for a fingerprint, its queue holds the newest
/// `DEQUE_CAPACITY` blocks of what it held before followed by the batch, in
/// their order of arrival. A batch of `DEQUE_CAPACITY` blocks or more thus
/// leaves exactly its own last `DEQUE_CAPACITY` blocks.
pub proof fn law_batch_keeps_newest(
    s: Seq<StoreEntry>,
    size: nat,
    fingerprint: Seq<u8>,
    items: Seq<ReplyBlock>,
)
    requires
        store_wf(s, size),
    ensures
        blocks_of(store_insert_batch(s, size, fingerprint, items), fingerprint) == newest(
            blocks_of(s, fingerprint) + items,
            DEQUE_CAPACITY as nat,
        ),
        items.len() >= DEQUE_CAPACITY ==> blocks_of(
            store_insert_batch(s, size, fingerprint, items),
            fingerprint,
        ) == items.subrange(items.len() - DEQUE_CAPACITY, items.len() as int),
    decreases items.len(),
{
    let old_blocks = blocks_of(s, fingerprint);
    let cap = DEQUE_CAPACITY as nat;
    law_deque_bounded(s, size, fingerprint);
    if items.len() > 0 {
        let front = items.drop_last();
        let t = store_insert_batch(s, size, fingerprint, front);
        law_batch_keeps_newest(s, size, fingerprint, front);
        lemma_store_insert_batch_wf(s, size, fingerprint, front);
        lemma_position(t, fingerprint);
        let u = store_insert(t, size, fingerprint, items.last());
        let q = old_blocks + front;
        if position(t, fingerprint) >= 0 {
            assert(blocks_of(u, fingerprint) == bounded_push(newest(q, cap), cap, items.last()));
            assert(bounded_push(newest(q, cap), cap, items.last()) =~= newest(
                q.push(items.last()),
                cap,
            ));
        }
    }
    if items.len() >= DEQUE_CAPACITY {
        assert(newest(old_blocks + items, cap) =~= items.subrange(
            items.len() - DEQUE_CAPACITY,
            items.len() as int,
        ));
    }
}

/// Requests for one fingerprint hand its blocks out newest first: after `n`
/// requests the queue holds what it held without its `n` newest blocks (or
/// nothing, once `n` reaches what it held), and the fingerprint is the most
/// recently used if it has an entry at all.
pub proof fn law_gets_are_lifo(s: Seq<StoreEntry>, fingerprint: Seq<u8>, n: nat)
    ensures
        ({
            let blocks = blocks_of(s, fingerprint);
            let after = store_get_times(s, fingerprint, n);
            &&& holds(after, fingerprint) == holds(s, fingerprint)
            &&& n < blocks.len() ==> blocks_of(after, fingerprint) == blocks.take(
                blocks.len() - n,
            ) && store_get_result(after, fingerprint) == Some(blocks[blocks.len() - 1 - n])
            &&& n >= blocks.len() ==> blocks_of(after, fingerprint).len() == 0
        }),
    decreases n,
{
    lemma_position(s, fingerprint);
    if n > 0 {
        let m = (n - 1) as nat;
        law_gets_are_lifo(s, fingerprint, m);
        lemma_position(store_get_times(s, fingerprint, m), fingerprint);
    }
}

/// Once as many requests were made for a fingerprint as it had blocks, the
/// next request for it finds none.
pub proof fn law_drained_reports_none(s: Seq<StoreEntry>, fingerprint: Seq<u8>)
    ensures
        store_get_result(
            store_get_times(s, fingerprint, blocks_of(s, fingerprint).len()),
            fingerprint,
        ) is None,
{
    law_gets_are_lifo(s, fingerprint, blocks_of(s, fingerprint).len());
}

/// Storing a block for a fingerprint that is new to a full store forgets the
/// least recently used fingerprint with all its blocks, and nothing else:
/// every other fingerprint keeps its blocks, and the new one is held.
pub proof fn law_full_store_evicts_lru(
    s: Seq<StoreEntry>,
    size: nat,
    fingerprint: Seq<u8>,
    rb: ReplyBlock,
)
    requires
        store_wf(s, size),
        s.len() == size,
        !holds(s, fingerprint),
    ensures
        ({
            let t = store_insert(s, size, fingerprint, rb);
            &&& t.len() == size
            &&& !holds(t, s.last().fingerprint)
            &&& blocks_of(t, s.last().fingerprint).len() == 0
            &&& blocks_of(t, fingerprint) == seq![rb]
            &&& forall|j: int|
                0 <= j < s.len() - 1 ==> holds(t, (#[trigger] s[j]).fingerprint) && blocks_of(
                    t,
                    s[j].fingerprint,
                ) == s[j].blocks
        }),
{
    let t = store_insert(s, size, fingerprint, rb);
    lemma_position(s, fingerprint);
    lemma_store_insert_wf(s, size, fingerprint, rb);
    lemma_position(t, s.last().fingerprint);
    assert forall|j: int| 0 <= j < s.len() - 1 implies holds(t, (#[trigger] s[j]).fingerprint)
        && blocks_of(t, s[j].fingerprint) == s[j].blocks by {
        lemma_position_at(t, size, j + 1);
    }
}

} // verus!
