//! The memory of splits that were made before.
//!
//! A split is solved once for each area and layout; as long as the cache
//! keeps the result, asking again returns it without solving. The cache is
//! bounded: when it is full, the entry that was used least recently makes
//! room for a new one.

use vstd::prelude::*;
use crate::geometry::Rect;
use crate::layout::{Layout, LayoutView};

verus! {

#[verifier::external_type_specification]
#[verifier::external_body]
#[verifier::reject_recursive_types(K)]
#[verifier::reject_recursive_types(V)]
#[verifier::reject_recursive_types(S)]
pub struct ExLruCache<K, V, S>(lru::LruCache<K, V, S>);

#[verifier::external_type_specification]
#[verifier::external_body]
pub struct ExDefaultHasher(lru::DefaultHasher);

/// What an `lru::LruCache` of splits holds: its entries, each an area and
/// a layout with the segments and spacers stored for them, from the one
/// used most recently to the one used least recently.
pub uninterp spec fn cache_entries(
    cache: lru::LruCache<(Rect, Layout), (Vec<Rect>, Vec<Rect>)>,
) -> Seq<((Rect, LayoutView), (Seq<Rect>, Seq<Rect>))>;

/// The number of entries that an `lru::LruCache` of splits was made for.
pub uninterp spec fn cache_capacity(
    cache: lru::LruCache<(Rect, Layout), (Vec<Rect>, Vec<Rect>)>,
) -> nat;

/// Whether one of the entries is for `key`.
pub open spec fn holds(
    entries: Seq<((Rect, LayoutView), (Seq<Rect>, Seq<Rect>))>,
    key: (Rect, LayoutView),
) -> bool {
    exists|i: int| 0 <= i < entries.len() && (#[trigger] entries[i]).0 == key
}

/// The place of the entry for `key`, where there is one.
pub open spec fn slot(
    entries: Seq<((Rect, LayoutView), (Seq<Rect>, Seq<Rect>))>,
    key: (Rect, LayoutView),
) -> int {
    choose|i: int| 0 <= i < entries.len() && (#[trigger] entries[i]).0 == key
}

/// What is stored for `key`.
pub open spec fn lookup(
    entries: Seq<((Rect, LayoutView), (Seq<Rect>, Seq<Rect>))>,
    key: (Rect, LayoutView),
) -> Option<(Seq<Rect>, Seq<Rect>)> {
    if holds(entries, key) {
        Some(entries[slot(entries, key)].1)
    } else {
        None
    }
}

/// The entries after `key` was asked for: its entry, if there is one, is
/// now the one used most recently.
pub open spec fn touched(
    entries: Seq<((Rect, LayoutView), (Seq<Rect>, Seq<Rect>))>,
    key: (Rect, LayoutView),
) -> Seq<((Rect, LayoutView), (Seq<Rect>, Seq<Rect>))> {
    if holds(entries, key) {
        seq![entries[slot(entries, key)]] + entries.remove(slot(entries, key))
    } else {
        entries
    }
}

/// The entries after `value` was stored for `key`: the new entry is the one
/// used most recently; it replaces the entry for `key` if there was one,
/// and otherwise, in a full cache, the entry used least recently.
pub open spec fn stored(
    entries: Seq<((Rect, LayoutView), (Seq<Rect>, Seq<Rect>))>,
    key: (Rect, LayoutView),
    value: (Seq<Rect>, Seq<Rect>),
    capacity: nat,
) -> Seq<((Rect, LayoutView), (Seq<Rect>, Seq<Rect>))> {
    if holds(entries, key) {
        seq![(key, value)] + entries.remove(slot(entries, key))
    } else if entries.len() == capacity {
        seq![(key, value)] + entries.drop_last()
    } else {
        seq![(key, value)] + entries
    }
}

/// `lru::LruCache::new`: an empty cache for `capacity` entries. It refuses
/// a capacity of zero, and it reserves a hash table for `capacity` entries
/// at once, which must not be larger than an allocation can be.
#[verifier::external_body]
fn cache_new(capacity: usize) -> (cache: lru::LruCache<(Rect, Layout), (Vec<Rect>, Vec<Rect>)>)
    requires
        0 < capacity <= Layout::MAX_CACHE_SIZE,
    ensures
        cache_entries(cache) == Seq::<((Rect, LayoutView), (Seq<Rect>, Seq<Rect>))>::empty(),
        cache_capacity(cache) == capacity,
{
    lru::LruCache::new(std::num::NonZeroUsize::new(capacity).unwrap())
}

/// `lru::LruCache::get`, with a copy of what it found: the value stored for
/// the area and the layout, whose entry becomes the one used most recently.
/// Keys are compared field by field.
#[verifier::external_body]
fn cache_get(
    cache: &mut lru::LruCache<(Rect, Layout), (Vec<Rect>, Vec<Rect>)>,
    area: Rect,
    layout: &Layout,
) -> (hit: Option<(Vec<Rect>, Vec<Rect>)>)
    ensures
        cache_capacity(*final(cache)) == cache_capacity(*old(cache)),
        cache_entries(*final(cache)) == touched(cache_entries(*old(cache)), (area, layout@)),
        match hit {
            Some(split) => lookup(cache_entries(*old(cache)), (area, layout@)) == Some(
                (split.0@, split.1@),
            ),
            None => lookup(cache_entries(*old(cache)), (area, layout@)) is None,
        },
{
    cache.get(&(area, layout.clone())).cloned()
}

/// `lru::LruCache::put` on copies of its arguments: stores the segments and
/// the spacers for the area and the layout.
#[verifier::external_body]
fn cache_put(
    cache: &mut lru::LruCache<(Rect, Layout), (Vec<Rect>, Vec<Rect>)>,
    area: Rect,
    layout: &Layout,
    segments: &Vec<Rect>,
    spacers: &Vec<Rect>,
)
    ensures
        cache_capacity(*final(cache)) == cache_capacity(*old(cache)),
        cache_entries(*final(cache)) == stored(
            cache_entries(*old(cache)),
            (area, layout@),
            (segments@, spacers@),
            cache_capacity(*old(cache)),
        ),
{
    cache.put((area, layout.clone()), (segments.clone(), spacers.clone()));
}

/// `lru::LruCache::cap`: the number of entries that the cache was made for.
#[verifier::external_body]
fn cache_cap(cache: &lru::LruCache<(Rect, Layout), (Vec<Rect>, Vec<Rect>)>) -> (capacity: usize)
    ensures
        capacity == cache_capacity(*cache),
{
    cache.cap().get()
}

/// `lru::LruCache::len`: the number of entries that the cache holds.
#[verifier::external_body]
fn cache_len(cache: &lru::LruCache<(Rect, Layout), (Vec<Rect>, Vec<Rect>)>) -> (len: usize)
    ensures
        len == cache_entries(*cache).len(),
{
    cache.len()
}

/// A cache as a mathematical value: its entries, from the one used most
/// recently to the one used least recently, and the number of entries it
/// was made for.
pub struct CacheView {
    pub entries: Seq<((Rect, LayoutView), (Seq<Rect>, Seq<Rect>))>,
    pub capacity: nat,
}

/// Whether no two entries are for the same key.
pub open spec fn distinct(entries: Seq<((Rect, LayoutView), (Seq<Rect>, Seq<Rect>))>) -> bool {
    forall|i: int, j: int|
        0 <= i < j < entries.len() ==> (#[trigger] entries[i]).0 != (#[trigger] entries[j]).0
}

/// Whether every entry holds a split of its area by its layout.
pub open spec fn faithful(entries: Seq<((Rect, LayoutView), (Seq<Rect>, Seq<Rect>))>) -> bool {
    forall|i: int|
        0 <= i < entries.len() ==> {
            let entry = #[trigger] entries[i];
            entry.0.1.splits(entry.0.0, entry.1.0, entry.1.1)
        }
}

impl CacheView {
    /// What a cache never ceases to be: made for at least one entry, no
    /// fuller than it was made for, with one entry at most for each area and
    /// layout, and each entry a split of its area by its layout.
    pub open spec fn well_formed(self) -> bool {
        &&& self.capacity > 0
        &&& self.entries.len() <= self.capacity
        &&& distinct(self.entries)
        &&& faithful(self.entries)
    }
}

/// The cache that stands behind a cache that was not set up yet: empty, and
/// of the default size.
pub open spec fn started(cache: Option<CacheView>) -> CacheView {
    match cache {
        Some(cache) => cache,
        None => CacheView { entries: Seq::empty(), capacity: Layout::DEFAULT_CACHE_SIZE as nat },
    }
}

/// Asking for a key leaves the cache well-formed and changes nothing of
/// what it holds for any key.
pub proof fn touched_keeps(cache: CacheView, key: (Rect, LayoutView), other: (Rect, LayoutView))
    requires
        cache.well_formed(),
    ensures
        (CacheView { entries: touched(cache.entries, key), ..cache }).well_formed(),
        lookup(touched(cache.entries, key), other) == lookup(cache.entries, other),
        touched(cache.entries, key).len() == cache.entries.len(),
{
    let entries = cache.entries;
    let after = touched(entries, key);
    if holds(entries, key) {
        let at = slot(entries, key);
        let rest = entries.remove(at);
        assert(distinct(after)) by {
            assert forall|i: int, j: int| 0 <= i < j < after.len() implies (#[trigger] after[i]).0
                != (#[trigger] after[j]).0 by {
                let a = if i == 0 {
                    at
                } else if i - 1 < at {
                    i - 1
                } else {
                    i
                };
                let b = if j - 1 < at {
                    j - 1
                } else {
                    j
                };
                assert(entries[a] == after[i]);
                assert(entries[b] == after[j]);
                assert(a != b);
                if a < b {
                    assert(entries[a].0 != entries[b].0);
                } else {
                    assert(entries[b].0 != entries[a].0);
                }
            }
        }
        assert(faithful(after)) by {
            assert forall|i: int| 0 <= i < after.len() implies {
                let entry = #[trigger] after[i];
                entry.0.1.splits(entry.0.0, entry.1.0, entry.1.1)
            } by {
                let a = if i == 0 {
                    at
                } else if i - 1 < at {
                    i - 1
                } else {
                    i
                };
                assert(entries[a] == after[i]);
            }
        }
        if holds(entries, other) {
            let was = slot(entries, other);
            let now = if was == at {
                0
            } else if was < at {
                was + 1
            } else {
                was
            };
            assert(after[now] == entries[was]);
            assert(holds(after, other));
            let found = slot(after, other);
            if found != now {
                if found < now {
                    assert(after[found].0 != after[now].0);
                } else {
                    assert(after[now].0 != after[found].0);
                }
            }
        } else {
            if holds(after, other) {
                let found = slot(after, other);
                let a = if found == 0 {
                    at
                } else if found - 1 < at {
                    found - 1
                } else {
                    found
                };
                assert(entries[a] == after[found]);
                assert(false);
            }
        }
    }
}

/// Storing a split leaves the cache well-formed; the cache then holds that
/// split for its key, and for any other key what it held before or nothing.
pub proof fn stored_keeps(
    cache: CacheView,
    key: (Rect, LayoutView),
    value: (Seq<Rect>, Seq<Rect>),
    other: (Rect, LayoutView),
)
    requires
        cache.well_formed(),
        key.1.splits(key.0, value.0, value.1),
    ensures
        (CacheView {
            entries: stored(cache.entries, key, value, cache.capacity),
            ..cache
        }).well_formed(),
        lookup(stored(cache.entries, key, value, cache.capacity), key) == Some(value),
        other != key ==> lookup(stored(cache.entries, key, value, cache.capacity), other) is None
            || lookup(stored(cache.entries, key, value, cache.capacity), other) == lookup(
            cache.entries,
            other,
        ),
{
    let entries = cache.entries;
    let after = stored(entries, key, value, cache.capacity);
    let rest = after.subrange(1, after.len() as int);
    assert(after[0] == (key, value));
    // Where each entry behind the new one stood before.
    let origin = |i: int|
        if holds(entries, key) && i - 1 >= slot(entries, key) {
            i
        } else {
            i - 1
        };
    assert forall|i: int| 1 <= i < after.len() implies 0 <= origin(i) < entries.len()
        && #[trigger] after[i] == entries[origin(i)] && after[i].0 != key by {
        if holds(entries, key) {
            let at = slot(entries, key);
            if origin(i) < at {
                assert(entries[origin(i)].0 != entries[at].0);
            } else {
                assert(entries[at].0 != entries[origin(i)].0);
            }
        } else {
            assert(entries[origin(i)].0 != key);
        }
    }
    assert(distinct(after)) by {
        assert forall|i: int, j: int| 0 <= i < j < after.len() implies (#[trigger] after[i]).0
            != (#[trigger] after[j]).0 by {
            assert(after[j] == entries[origin(j)]);
            if i > 0 {
                assert(after[i] == entries[origin(i)]);
                assert(origin(i) < origin(j));
                assert(entries[origin(i)].0 != entries[origin(j)].0);
            }
        }
    }
    assert(faithful(after)) by {
        assert forall|i: int| 0 <= i < after.len() implies {
            let entry = #[trigger] after[i];
            entry.0.1.splits(entry.0.0, entry.1.0, entry.1.1)
        } by {
            if i > 0 {
                assert(after[i] == entries[origin(i)]);
            }
        }
    }
    assert(holds(after, key));
    let found = slot(after, key);
    if found != 0 {
        assert(after[found].0 != key);
    }
    if other != key && holds(after, other) {
        let now = slot(after, other);
        assert(now != 0);
        assert(after[now] == entries[origin(now)]);
        assert(holds(entries, other));
        let was = slot(entries, other);
        if was != origin(now) {
            if was < origin(now) {
                assert(entries[was].0 != entries[origin(now)].0);
            } else {
                assert(entries[origin(now)].0 != entries[was].0);
            }
        }
    }
}

/// A cache of splits, set up on first use.
///
/// Until it is set up the cache holds nothing. `Layout::init_cache` sets it
/// up for a size of the caller's choice; the first split sets it up for
/// `Layout::DEFAULT_CACHE_SIZE` entries if nothing else has.
pub struct LayoutCache {
    cache: Option<lru::LruCache<(Rect, Layout), (Vec<Rect>, Vec<Rect>)>>,
}

impl View for LayoutCache {
    type V = Option<CacheView>;

    closed spec fn view(&self) -> Option<CacheView> {
        match self.cache {
            Some(cache) => Some(
                CacheView { entries: cache_entries(cache), capacity: cache_capacity(cache) },
            ),
            None => None,
        }
    }
}

impl LayoutCache {
    /// Whether the cache, if it is set up, is well-formed.
    pub open spec fn wf(&self) -> bool {
        self@ matches Some(cache) ==> cache.well_formed()
    }

    /// A cache that is not set up yet.
    pub fn new() -> (cache: LayoutCache)
        ensures
            cache@ is None,
            cache.wf(),
    {
        LayoutCache { cache: None }
    }

    /// Sets the cache up for `size` entries unless it is set up already,
    /// and says whether it did.
    pub fn init(&mut self, size: usize) -> (set: bool)
        requires
            0 < size <= Layout::MAX_CACHE_SIZE,
            old(self).wf(),
        ensures
            final(self).wf(),
            set == (old(self)@ is None),
            set ==> final(self)@ == Some(CacheView { entries: Seq::empty(), capacity: size as nat }),
            !set ==> final(self)@ == old(self)@,
    {
        if self.cache.is_some() {
            false
        } else {
            self.cache = Some(cache_new(size));
            true
        }
    }

    /// The number of entries the cache was set up for.
    pub fn capacity(&self) -> (capacity: Option<usize>)
        ensures
            match capacity {
                Some(capacity) => self@ matches Some(cache) && cache.capacity == capacity,
                None => self@ is None,
            },
    {
        match &self.cache {
            Some(cache) => Some(cache_cap(cache)),
            None => None,
        }
    }

    /// The number of splits in the cache.
    pub fn len(&self) -> (len: usize)
        ensures
            len == started(self@).entries.len(),
    {
        match &self.cache {
            Some(cache) => cache_len(cache),
            None => 0,
        }
    }

    /// The split stored for `area` and `layout`, which thereby becomes the
    /// one used most recently. Sets the cache up if need be.
    pub fn get(&mut self, area: Rect, layout: &Layout) -> (hit: Option<(Vec<Rect>, Vec<Rect>)>)
        requires
            old(self).wf(),
        ensures
            final(self).wf(),
            final(self)@ == Some(
                CacheView {
                    entries: touched(started(old(self)@).entries, (area, layout@)),
                    capacity: started(old(self)@).capacity,
                },
            ),
            match hit {
                Some(split) => lookup(started(old(self)@).entries, (area, layout@)) == Some(
                    (split.0@, split.1@),
                ) && layout@.splits(area, split.0@, split.1@),
                None => lookup(started(old(self)@).entries, (area, layout@)) is None,
            },
    {
        if self.cache.is_none() {
            self.cache = Some(cache_new(Layout::DEFAULT_CACHE_SIZE));
        }
        let ghost before = started(old(self)@);
        assert(self@ == Some(before));
        assert(before.well_formed());
        let mut cache = self.cache.take().unwrap();
        let hit = cache_get(&mut cache, area, layout);
        self.cache = Some(cache);
        proof {
            touched_keeps(before, (area, layout@), (area, layout@));
            if holds(before.entries, (area, layout@)) {
                let entry = before.entries[slot(before.entries, (area, layout@))];
                assert(entry.0.1.splits(entry.0.0, entry.1.0, entry.1.1));
            }
        }
        hit
    }

    /// Stores a split of `area` by `layout` as the one used most recently.
    /// In a full cache the split used least recently makes room for it.
    /// Sets the cache up if need be.
    pub fn put(&mut self, area: Rect, layout: &Layout, segments: &Vec<Rect>, spacers: &Vec<Rect>)
        requires
            old(self).wf(),
            layout@.splits(area, segments@, spacers@),
        ensures
            final(self).wf(),
            final(self)@ == Some(
                CacheView {
                    entries: stored(
                        started(old(self)@).entries,
                        (area, layout@),
                        (segments@, spacers@),
                        started(old(self)@).capacity,
                    ),
                    capacity: started(old(self)@).capacity,
                },
            ),
    {
        if self.cache.is_none() {
            self.cache = Some(cache_new(Layout::DEFAULT_CACHE_SIZE));
        }
        let ghost before = started(old(self)@);
        assert(self@ == Some(before));
        let mut cache = self.cache.take().unwrap();
        cache_put(&mut cache, area, layout, segments, spacers);
        self.cache = Some(cache);
        proof {
            stored_keeps(before, (area, layout@), (segments@, spacers@), (area, layout@));
        }
    }
}

} // verus!
