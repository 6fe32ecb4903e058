use earendil_core::crypt::Fingerprint;
use earendil_core::daemon::reply_block_store::{ReplyBlockDeque, ReplyBlockStore};
use earendil_core::packet::ReplyBlock;
use std::num::NonZeroUsize;

fn numbered_reply_block(n: u32) -> ReplyBlock {
    let mut e2e_dest = [0u8; 32];
    e2e_dest[..4].copy_from_slice(&n.to_be_bytes());
    ReplyBlock {
        header: n.to_be_bytes().repeat(8),
        e2e_dest,
    }
}

fn create_reply_block(n: u32) -> ReplyBlock {
    numbered_reply_block(1_000_000 + n)
}

#[test]
fn test_reply_block_deque_insert() {
    let mut rb_deque = ReplyBlockDeque::new(3);
    assert_eq!(rb_deque.deque.len(), 0);

    // Testing insertion when not yet at capacity
    let rb1 = create_reply_block(1);
    rb_deque.insert(rb1);
    assert_eq!(rb_deque.deque.len(), 1);

    // Testing insertion at capacity
    let rb2 = create_reply_block(2);
    let rb3 = create_reply_block(3);
    rb_deque.insert(rb2);
    rb_deque.insert(rb3);
    assert_eq!(rb_deque.deque.len(), 3);

    // Testing insertion when over capacity
    let rb4 = create_reply_block(4);
    rb_deque.insert(rb4);
    assert_eq!(rb_deque.deque.len(), 3);
}

#[test]
fn test_reply_block_deque_pop() {
    let mut rb_deque = ReplyBlockDeque::new(3);
    let rb = create_reply_block(1);
    rb_deque.insert(rb.clone());

    // Testing pop when items are present
    assert_eq!(rb_deque.pop(), Some(rb));

    // Testing pop when no items are present
    assert_eq!(rb_deque.pop(), None);
}

#[test]
fn test_reply_block_store_insert() {
    let size = NonZeroUsize::new(5).unwrap();
    let mut rb_store = ReplyBlockStore::new(size.get());
    let fingerprint = Fingerprint::from_bytes(&[10; 20]);
    let rb = create_reply_block(1);

    // Testing insert in empty store
    rb_store.insert(fingerprint, rb.clone());
    assert_eq!(rb_store.get(&fingerprint), Some(rb));

    // Testing insert when item already exists
    let rb_new = create_reply_block(2);
    rb_store.insert(fingerprint, rb_new.clone());
    assert_eq!(rb_store.get(&fingerprint), Some(rb_new));
}

#[test]
fn test_reply_block_store_insert_batch() {
    let size = NonZeroUsize::new(5).unwrap();
    let mut rb_store = ReplyBlockStore::new(size.get());
    let fingerprint = Fingerprint::from_bytes(&[10; 20]);
    let rb1 = create_reply_block(1);
    let rb2 = create_reply_block(2);
    let items = vec![rb1.clone(), rb2.clone()];

    // Testing insert batch
    rb_store.insert_batch(fingerprint, items);
    assert_eq!(rb_store.get(&fingerprint), Some(rb2));
}

#[test]
fn test_reply_block_store_get() {
    let size = NonZeroUsize::new(5).unwrap();
    let mut rb_store = ReplyBlockStore::new(size.get());
    let fingerprint = Fingerprint::from_bytes(&[10; 20]);
    let rb = create_reply_block(1);

    // Testing get when item exists
    rb_store.insert(fingerprint, rb.clone());
    assert_eq!(rb_store.get(&fingerprint), Some(rb));

    // Testing get when item does not exist
    assert_eq!(rb_store.get(&fingerprint), None);
}

#[test]
fn deque_drops_oldest_and_pops_newest() {
    let mut d = ReplyBlockDeque::new(3);
    for n in 1..=5 {
        d.insert(numbered_reply_block(n));
    }
    assert_eq!(d.deque.len(), 3);
    assert_eq!(d.pop(), Some(numbered_reply_block(5)));
    assert_eq!(d.pop(), Some(numbered_reply_block(4)));
    assert_eq!(d.pop(), Some(numbered_reply_block(3)));
    assert_eq!(d.pop(), None);
}

#[test]
fn store_get_on_unknown_fingerprint_is_none() {
    let mut store = ReplyBlockStore::new(2);
    assert_eq!(store.get(&Fingerprint::from_bytes(&[1; 20])), None);
}

#[test]
fn store_keeps_the_last_thousand_in_lifo_order() {
    let mut store = ReplyBlockStore::new(4);
    let fp = Fingerprint::from_bytes(&[7; 20]);
    for n in 0..1500u32 {
        store.insert(fp, numbered_reply_block(n));
    }
    for n in (500..1500u32).rev() {
        assert_eq!(store.get(&fp), Some(numbered_reply_block(n)));
    }
    assert_eq!(store.get(&fp), None);
    assert_eq!(store.get(&fp), None);
}

#[test]
fn store_batch_of_more_than_a_thousand_keeps_the_newest() {
    let mut store = ReplyBlockStore::new(4);
    let fp = Fingerprint::from_bytes(&[8; 20]);
    store.insert(fp, numbered_reply_block(9_999));
    let items: Vec<ReplyBlock> = (0..1001u32).map(numbered_reply_block).collect();
    store.insert_batch(fp, items);
    for n in (1..1001u32).rev() {
        assert_eq!(store.get(&fp), Some(numbered_reply_block(n)));
    }
    assert_eq!(store.get(&fp), None);
}

#[test]
fn store_evicts_least_recently_used_fingerprint() {
    let mut store = ReplyBlockStore::new(2);
    let a = Fingerprint::from_bytes(&[1; 20]);
    let b = Fingerprint::from_bytes(&[2; 20]);
    let c = Fingerprint::from_bytes(&[3; 20]);
    store.insert(a, numbered_reply_block(1));
    store.insert(a, numbered_reply_block(2));
    store.insert(b, numbered_reply_block(3));
    // a third fingerprint does not fit: a, the least recently used, goes
    store.insert(c, numbered_reply_block(4));
    assert_eq!(store.get(&a), None);
    assert_eq!(store.get(&b), Some(numbered_reply_block(3)));
    assert_eq!(store.get(&c), Some(numbered_reply_block(4)));
}

#[test]
fn store_get_promotes_the_fingerprint() {
    let mut store = ReplyBlockStore::new(2);
    let a = Fingerprint::from_bytes(&[1; 20]);
    let b = Fingerprint::from_bytes(&[2; 20]);
    let c = Fingerprint::from_bytes(&[3; 20]);
    store.insert(a, numbered_reply_block(1));
    store.insert(a, numbered_reply_block(2));
    store.insert(b, numbered_reply_block(3));
    // reading a makes b the least recently used
    assert_eq!(store.get(&a), Some(numbered_reply_block(2)));
    store.insert(c, numbered_reply_block(4));
    assert_eq!(store.get(&b), None);
    assert_eq!(store.get(&a), Some(numbered_reply_block(1)));
}

#[test]
fn store_drained_fingerprint_still_counts_as_an_entry() {
    let mut store = ReplyBlockStore::new(2);
    let a = Fingerprint::from_bytes(&[1; 20]);
    let b = Fingerprint::from_bytes(&[2; 20]);
    let c = Fingerprint::from_bytes(&[3; 20]);
    store.insert(a, numbered_reply_block(1));
    store.insert(b, numbered_reply_block(2));
    assert_eq!(store.get(&a), Some(numbered_reply_block(1)));
    assert_eq!(store.get(&a), None);
    // a is drained but most recently used: c pushes b out
    store.insert(c, numbered_reply_block(3));
    assert_eq!(store.get(&b), None);
    assert_eq!(store.get(&c), Some(numbered_reply_block(3)));
}
