//! Per-worker memo of parse results: a bounded least-recently-used map
//! from User-Agent string to a shared classification record.
use std::num::NonZeroUsize;
use std::rc::Rc;
use vstd::prelude::*;
use crate::ua_info::UaInfo;

verus! {

/// A bounded LRU map from User-Agent string to shared record, backed by a
/// `clru::CLruCache`; its contents are described by `lru_entries` and
/// `lru_capacity`.
#[verifier::external_body]
pub struct LruCache {
    inner: clru::CLruCache<String, Rc<UaInfo>>,
}

/// What the cache holds: (key, record) pairs, the most recently used first.
pub uninterp spec fn lru_entries(c: LruCache) -> Seq<(Seq<char>, Rc<UaInfo>)>;

/// The number of entries the cache was made to hold.
pub uninterp spec fn lru_capacity(c: LruCache) -> nat;

/// Keys are distinct and there are no more entries than the capacity.
pub open spec fn lru_wf(entries: Seq<(Seq<char>, Rc<UaInfo>)>, capacity: nat) -> bool {
    &&& capacity > 0
    &&& entries.len() <= capacity
    &&& forall|i: int, j: int|
        0 <= i < j < entries.len() ==> #[trigger] entries[i].0 != #[trigger] entries[j].0
}

/// `key` sits at position `i`.
pub open spec fn lru_holds_at(entries: Seq<(Seq<char>, Rc<UaInfo>)>, key: Seq<char>, i: int) -> bool {
    0 <= i < entries.len() && entries[i].0 == key
}

/// `key` is present.
pub open spec fn lru_contains(entries: Seq<(Seq<char>, Rc<UaInfo>)>, key: Seq<char>) -> bool {
    exists|i: int| lru_holds_at(entries, key, i)
}

/// The position of a present `key`.
pub open spec fn lru_position(entries: Seq<(Seq<char>, Rc<UaInfo>)>, key: Seq<char>) -> int {
    choose|i: int| lru_holds_at(entries, key, i)
}

/// The entries after a lookup of `key`: a present key moves to the front.
pub open spec fn lru_touch(entries: Seq<(Seq<char>, Rc<UaInfo>)>, key: Seq<char>) -> Seq<
    (Seq<char>, Rc<UaInfo>),
> {
    if lru_contains(entries, key) {
        let i = lru_position(entries, key);
        seq![entries[i]] + entries.remove(i)
    } else {
        entries
    }
}

/// The entries after storing `value` under `key`: a present key gets the
/// new value and moves to the front; a new key goes to the front, and when
/// the cache was full the least recently used entry leaves.
pub open spec fn lru_put(
    entries: Seq<(Seq<char>, Rc<UaInfo>)>,
    capacity: nat,
    key: Seq<char>,
    value: Rc<UaInfo>,
) -> Seq<(Seq<char>, Rc<UaInfo>)> {
    if lru_contains(entries, key) {
        seq![(key, value)] + entries.remove(lru_position(entries, key))
    } else if entries.len() >= capacity {
        seq![(key, value)] + entries.drop_last()
    } else {
        seq![(key, value)] + entries
    }
}

/// The entries after storing each of `puts` in order.
pub open spec fn lru_put_all(
    entries: Seq<(Seq<char>, Rc<UaInfo>)>,
    capacity: nat,
    puts: Seq<(Seq<char>, Rc<UaInfo>)>,
) -> Seq<(Seq<char>, Rc<UaInfo>)>
    decreases puts.len(),
{
    if puts.len() == 0 {
        entries
    } else {
        lru_put(
            lru_put_all(entries, capacity, puts.drop_last()),
            capacity,
            puts.last().0,
            puts.last().1,
        )
    }
}

/// A lookup keeps the cache well formed.
pub proof fn lemma_touch_wf(entries: Seq<(Seq<char>, Rc<UaInfo>)>, capacity: nat, key: Seq<char>)
    requires
        lru_wf(entries, capacity),
    ensures
        lru_wf(lru_touch(entries, key), capacity),
{
    if lru_contains(entries, key) {
        let i = lru_position(entries, key);
        let r = lru_touch(entries, key);
        assert forall|a: int, b: int| 0 <= a < b < r.len() implies #[trigger] r[a].0
            != #[trigger] r[b].0 by {
            let ia = if a == 0 { i } else if a - 1 < i { a - 1 } else { a };
            let ib = if b - 1 < i { b - 1 } else { b };
            assert(r[a] == entries[ia]);
            assert(r[b] == entries[ib]);
        }
    }
}

/// Storing a value keeps the cache well formed.
pub proof fn lemma_put_wf(
    entries: Seq<(Seq<char>, Rc<UaInfo>)>,
    capacity: nat,
    key: Seq<char>,
    value: Rc<UaInfo>,
)
    requires
        lru_wf(entries, capacity),
    ensures
        lru_wf(lru_put(entries, capacity, key, value), capacity),
{
    let r = lru_put(entries, capacity, key, value);
    if lru_contains(entries, key) {
        let i = lru_position(entries, key);
        assert forall|a: int, b: int| 0 <= a < b < r.len() implies #[trigger] r[a].0
            != #[trigger] r[b].0 by {
            let ib = if b - 1 < i { b - 1 } else { b };
            assert(r[b] == entries[ib]);
            if a > 0 {
                let ia = if a - 1 < i { a - 1 } else { a };
                assert(r[a] == entries[ia]);
            }
        }
    } else {
        assert forall|a: int, b: int| 0 <= a < b < r.len() implies #[trigger] r[a].0
            != #[trigger] r[b].0 by {
            assert(r[b] == entries[b - 1]);
            if a > 0 {
                assert(r[a] == entries[a - 1]);
            } else {
                assert(!lru_holds_at(entries, key, b - 1));
            }
        }
    }
}

/// Looking a key up right after storing a record under it finds that very
/// record and leaves the order as it was.
pub proof fn lemma_get_after_put(
    entries: Seq<(Seq<char>, Rc<UaInfo>)>,
    capacity: nat,
    key: Seq<char>,
    value: Rc<UaInfo>,
)
    requires
        lru_wf(entries, capacity),
    ensures
        ({
            let stored = lru_put(entries, capacity, key, value);
            &&& lru_contains(stored, key)
            &&& stored[lru_position(stored, key)].1 == value
            &&& lru_touch(stored, key) == stored
        }),
{
    let stored = lru_put(entries, capacity, key, value);
    lemma_put_wf(entries, capacity, key, value);
    assert(lru_holds_at(stored, key, 0));
    let p = lru_position(stored, key);
    assert(p == 0);
    assert(seq![stored[0]] + stored.remove(0) =~= stored);
}

/// After `m` puts of distinct keys into an empty cache with room for them
/// all, the keys sit newest first.
proof fn lemma_fresh_puts(capacity: nat, puts: Seq<(Seq<char>, Rc<UaInfo>)>, m: int)
    requires
        0 <= m <= puts.len(),
        m <= capacity,
        capacity > 0,
        forall|a: int, b: int| 0 <= a < b < puts.len() ==> #[trigger] puts[a].0 != #[trigger] puts[b].0,
    ensures
        ({
            let e = lru_put_all(Seq::empty(), capacity, puts.take(m));
            &&& e.len() == m
            &&& forall|t: int| 0 <= t < m ==> #[trigger] e[t].0 == puts[m - 1 - t].0
        }),
    decreases m,
{
    if m > 0 {
        lemma_fresh_puts(capacity, puts, m - 1);
        let prev = lru_put_all(Seq::empty(), capacity, puts.take(m - 1));
        assert(puts.take(m).drop_last() == puts.take(m - 1));
        let k = puts[m - 1].0;
        assert(!lru_contains(prev, k)) by {
            if lru_contains(prev, k) {
                let i = choose|i: int| lru_holds_at(prev, k, i);
                assert(prev[i].0 == puts[m - 2 - i].0);
            }
        }
        let e = lru_put_all(Seq::empty(), capacity, puts.take(m));
        assert(e == seq![(k, puts[m - 1].1)] + prev);
        assert forall|t: int| 0 <= t < m implies #[trigger] e[t].0 == puts[m - 1 - t].0 by {
            if t > 0 {
                assert(e[t] == prev[t - 1]);
            }
        }
    }
}

/// Least recently used eviction: storing `capacity + 1` distinct keys in an
/// empty cache of that capacity leaves the first key out.
pub proof fn lemma_oldest_evicted(capacity: nat, puts: Seq<(Seq<char>, Rc<UaInfo>)>)
    requires
        capacity > 0,
        puts.len() == capacity + 1,
        forall|a: int, b: int| 0 <= a < b < puts.len() ==> #[trigger] puts[a].0 != #[trigger] puts[b].0,
    ensures
        !lru_contains(lru_put_all(Seq::empty(), capacity, puts), puts[0].0),
{
    let n = capacity as int;
    lemma_fresh_puts(capacity, puts, n);
    let prev = lru_put_all(Seq::empty(), capacity, puts.take(n));
    assert(puts.drop_last() == puts.take(n));
    let k = puts[n].0;
    assert(!lru_contains(prev, k)) by {
        if lru_contains(prev, k) {
            let i = choose|i: int| lru_holds_at(prev, k, i);
            assert(prev[i].0 == puts[n - 1 - i].0);
        }
    }
    let e = lru_put_all(Seq::empty(), capacity, puts);
    assert(e == seq![(k, puts[n].1)] + prev.drop_last());
    if lru_contains(e, puts[0].0) {
        let i = choose|i: int| lru_holds_at(e, puts[0].0, i);
        if i > 0 {
            assert(e[i] == prev[i - 1]);
            assert(prev[i - 1].0 == puts[n - i].0);
        }
    }
}

/// Relies on clru::CLruCache::new: an empty cache that holds at most
/// `capacity` entries.
#[verifier::external_body]
pub(crate) fn lru_new(capacity: usize) -> (c: LruCache)
    requires
        capacity > 0,
    ensures
        lru_entries(c) == Seq::<(Seq<char>, Rc<UaInfo>)>::empty(),
        lru_capacity(c) == capacity,
{
    LruCache { inner: clru::CLruCache::new(NonZeroUsize::new(capacity).unwrap()) }
}

/// Relies on clru::CLruCache::get: the value stored under `key`, if any,
/// which then becomes the most recently used entry.
#[verifier::external_body]
pub(crate) fn lru_get(c: &mut LruCache, key: &String) -> (r: Option<Rc<UaInfo>>)
    requires
        lru_wf(lru_entries(*old(c)), lru_capacity(*old(c))),
    ensures
        lru_capacity(*final(c)) == lru_capacity(*old(c)),
        lru_entries(*final(c)) == lru_touch(lru_entries(*old(c)), key@),
        r == (if lru_contains(lru_entries(*old(c)), key@) {
            Some(lru_entries(*old(c))[lru_position(lru_entries(*old(c)), key@)].1)
        } else {
            None
        }),
{
    c.inner.get(key).cloned()
}

/// Relies on clru::CLruCache::put: stores `value` under `key` as the most
/// recently used entry, evicting the least recently used one when a new key
/// arrives at a full cache.
#[verifier::external_body]
pub(crate) fn lru_insert(c: &mut LruCache, key: String, value: Rc<UaInfo>)
    requires
        lru_wf(lru_entries(*old(c)), lru_capacity(*old(c))),
    ensures
        lru_capacity(*final(c)) == lru_capacity(*old(c)),
        lru_entries(*final(c)) == lru_put(
            lru_entries(*old(c)),
            lru_capacity(*old(c)),
            key@,
            value,
        ),
{
    c.inner.put(key, value);
}

} // verus!
