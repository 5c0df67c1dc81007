//! Bounded cache of decoded images, evicting the least recently inserted entry.

use vstd::prelude::*;

use crate::loader::{path_shape, paths_equal};
use crate::raster::DecodedImage;

verus! {

broadcast use vstd::string::group_string_axioms;

/// One cache entry as the contracts see it: the path text and the image.
pub type CacheEntry = (Seq<char>, DecodedImage);

/// Whether two path texts name the same path: the same components, as paths compare (with
/// `/` as the separator).
pub open spec fn same_path(a: Seq<char>, b: Seq<char>) -> bool {
    path_shape(a, false) == path_shape(b, false)
}

/// Whether no path occurs twice.
pub open spec fn keys_unique(s: Seq<CacheEntry>) -> bool {
    forall|i: int, j: int|
        #![trigger s[i], s[j]]
        0 <= i < s.len() && 0 <= j < s.len() && i != j ==> !same_path(s[i].0, s[j].0)
}

/// Whether `path` is cached.
pub open spec fn has_key(s: Seq<CacheEntry>, path: Seq<char>) -> bool {
    exists|i: int| 0 <= i < s.len() && same_path(s[i].0, path)
}

/// Position of `path` (meaningful when it is cached).
pub open spec fn key_index(s: Seq<CacheEntry>, path: Seq<char>) -> int {
    choose|i: int| 0 <= i < s.len() && same_path(s[i].0, path)
}

/// Whether a path naming the same path as `p` is among the `evicted` ones.
pub open spec fn names_evicted(evicted: Seq<Seq<char>>, p: Seq<char>) -> bool {
    exists|k: int| 0 <= k < evicted.len() && same_path(evicted[k], p)
}

/// The image cached for `path`.
pub open spec fn lookup(s: Seq<CacheEntry>, path: Seq<char>) -> Option<DecodedImage> {
    if has_key(s, path) {
        Some(s[key_index(s, path)].1)
    } else {
        None
    }
}

/// The entries with `path` taken out.
pub open spec fn without_key(s: Seq<CacheEntry>, path: Seq<char>) -> Seq<CacheEntry> {
    if has_key(s, path) {
        s.remove(key_index(s, path))
    } else {
        s
    }
}

/// Entries after inserting `path` as the most recent one, before eviction.
pub open spec fn refreshed(s: Seq<CacheEntry>, path: Seq<char>, image: DecodedImage) -> Seq<CacheEntry> {
    without_key(s, path).push((path, image))
}

/// Entries after an insertion into a cache of capacity `cap`, and the paths evicted.
pub open spec fn inserted(s: Seq<CacheEntry>, cap: int, path: Seq<char>, image: DecodedImage) -> (Seq<CacheEntry>, Seq<Seq<char>>) {
    let r = refreshed(s, path, image);
    if r.len() > cap {
        (r.drop_first(), seq![r[0].0])
    } else {
        (r, Seq::empty())
    }
}

/// LRU cache for decoded images, keyed by path: texts that name the same path share an entry.
pub struct ImageCache {
    /// Entries, least recently inserted first.
    entries: Vec<(String, DecodedImage)>,
    capacity: usize,
}

impl ImageCache {
    /// The entries, least recently inserted first.
    pub closed spec fn view_entries(&self) -> Seq<CacheEntry> {
        self.entries@.map_values(|e: (String, DecodedImage)| (e.0@, e.1))
    }

    pub closed spec fn spec_capacity(&self) -> int {
        self.capacity as int
    }

    /// The cache invariant: unique paths, at most `capacity` entries, capacity at least one.
    pub closed spec fn wf(&self) -> bool {
        &&& self.capacity >= 1
        &&& keys_unique(self.view_entries())
        &&& self.view_entries().len() <= self.capacity
    }

    /// Empty cache holding at most `capacity` images (at least one).
    pub fn new(capacity: usize) -> (r: Self)
        ensures
            r.wf(),
            r.view_entries() == Seq::<CacheEntry>::empty(),
            r.spec_capacity() == if capacity >= 1 { capacity as int } else { 1 },
    {
        let r = ImageCache { entries: Vec::new(), capacity: if capacity >= 1 { capacity } else { 1 } };
        assert(r.view_entries() =~= Seq::<CacheEntry>::empty());
        r
    }

    /// Position of `path` among the entries, if cached.
    fn find(&self, path: &str) -> (r: Option<usize>)
        requires
            self.wf(),
        ensures
            match r {
                Some(i) => i < self.view_entries().len() && same_path(
                    self.view_entries()[i as int].0,
                    path@,
                ),
                None => !has_key(self.view_entries(), path@),
            },
    {
        let mut i: usize = 0;
        while i < self.entries.len()
            invariant
                i <= self.entries@.len(),
                forall|j: int| 0 <= j < i ==> !same_path(self.entries@[j].0@, path@),
            decreases self.entries@.len() - i,
        {
            if paths_equal(self.entries[i].0.as_str(), path, false) {
                assert(self.view_entries()[i as int].0 == self.entries@[i as int].0@);
                return Some(i);
            }
            i += 1;
        }
        assert forall|j: int| 0 <= j < self.view_entries().len() implies !same_path(self.view_entries()[j].0, path@) by {
            assert(self.view_entries()[j].0 == self.entries@[j].0@);
        }
        None
    }

    /// The image cached for `path`.
    pub fn get(&self, path: &str) -> (r: Option<&DecodedImage>)
        requires
            self.wf(),
        ensures
            match r {
                Some(img) => lookup(self.view_entries(), path@) == Some(*img),
                None => lookup(self.view_entries(), path@) is None,
            },
    {
        match self.find(path) {
            Some(i) => {
                proof {
                    let s = self.view_entries();
                    let k = key_index(s, path@);
                    assert(has_key(s, path@));
                    assert(same_path(s[k].0, path@));
                    assert(k == i);
                }
                Some(&self.entries[i].1)
            },
            None => None,
        }
    }

    /// Inserts `decoded` as the most recent entry for `path` (replacing an earlier one),
    /// then evicts the oldest entries beyond capacity; returns the evicted paths.
    pub fn insert(&mut self, path: String, decoded: DecodedImage) -> (evicted: Vec<String>)
        requires
            old(self).wf(),
        ensures
            final(self).wf(),
            final(self).spec_capacity() == old(self).spec_capacity(),
            final(self).view_entries() == inserted(old(self).view_entries(), old(self).spec_capacity(), path@, decoded).0,
            evicted@.map_values(|p: String| p@) == inserted(old(self).view_entries(), old(self).spec_capacity(), path@, decoded).1,
    {
        let ghost s0 = self.view_entries();
        let mut evicted: Vec<String> = Vec::new();
        match self.find(path.as_str()) {
            Some(i) => {
                proof {
                    let k = key_index(s0, path@);
                    assert(same_path(s0[k].0, path@));
                    assert(k == i);
                }
                self.entries.remove(i);
                assert(self.view_entries() =~= s0.remove(i as int));
            },
            None => {},
        }
        assert(self.view_entries() =~= without_key(s0, path@));
        self.entries.push((path.clone(), decoded));
        let ghost r = refreshed(s0, path@, decoded);
        assert(self.view_entries() =~= r);
        proof {
            let w = without_key(s0, path@);
            assert(!has_key(w, path@)) by {
                if has_key(w, path@) {
                    let j = choose|j: int| 0 <= j < w.len() && same_path(w[j].0, path@);
                    if has_key(s0, path@) {
                        let k = key_index(s0, path@);
                        if j < k {
                            assert(w[j] == s0[j]);
                        } else {
                            assert(w[j] == s0[j + 1]);
                        }
                    }
                }
            }
            assert forall|a: int, b: int| 0 <= a < r.len() && 0 <= b < r.len() && a != b implies !same_path(r[a].0, r[b].0) by {
                if a < w.len() && b < w.len() {
                    if has_key(s0, path@) {
                        let k = key_index(s0, path@);
                        let sa = if a < k { a } else { a + 1 };
                        let sb = if b < k { b } else { b + 1 };
                        assert(w[a] == s0[sa]);
                        assert(w[b] == s0[sb]);
                    }
                } else if a < w.len() {
                    assert(r[a] == w[a]);
                } else if b < w.len() {
                    assert(r[b] == w[b]);
                }
            }
        }
        if self.entries.len() > self.capacity {
            let (old_path, _) = self.entries.remove(0);
            evicted.push(old_path);
            assert(self.view_entries() =~= r.drop_first());
            assert(evicted@.map_values(|p: String| p@) =~= seq![r[0].0]);
        } else {
            assert(evicted@.map_values(|p: String| p@) =~= Seq::<Seq<char>>::empty());
        }
        evicted
    }
}

impl Default for ImageCache {
    fn default() -> (r: Self)
        ensures
            r.wf(),
            r.view_entries() == Seq::<CacheEntry>::empty(),
            r.spec_capacity() == 12,
    {
        ImageCache::new(12)
    }
}

proof fn lemma_without_key(s: Seq<CacheEntry>, path: Seq<char>)
    requires
        keys_unique(s),
    ensures
        !has_key(without_key(s, path), path),
        without_key(s, path).len() == if has_key(s, path) { s.len() - 1 } else { s.len() as int },
        forall|q: Seq<char>| !same_path(q, path) ==> lookup(without_key(s, path), q) == lookup(s, q),
        keys_unique(without_key(s, path)),
{
    let w = without_key(s, path);
    if has_key(s, path) {
        let k = key_index(s, path);
        assert forall|j: int| 0 <= j < w.len() implies !same_path(w[j].0, path) by {
            if j < k {
                assert(w[j] == s[j]);
            } else {
                assert(w[j] == s[j + 1]);
            }
        }
        assert forall|a: int, b: int| 0 <= a < w.len() && 0 <= b < w.len() && a != b implies !same_path(w[a].0, w[b].0) by {
            let sa = if a < k { a } else { a + 1 };
            let sb = if b < k { b } else { b + 1 };
            assert(w[a] == s[sa]);
            assert(w[b] == s[sb]);
        }
        assert forall|q: Seq<char>| !same_path(q, path) implies lookup(w, q) == lookup(s, q) by {
            if has_key(s, q) {
                let i = key_index(s, q);
                let wi = if i < k { i } else { i - 1 };
                assert(w[wi] == s[i]);
                assert(has_key(w, q));
                let j = key_index(w, q);
                assert(j == wi) by {
                    if j != wi {
                        let sj = if j < k { j } else { j + 1 };
                        assert(w[j] == s[sj]);
                    }
                }
            }
            if has_key(w, q) {
                let j = key_index(w, q);
                let sj = if j < k { j } else { j + 1 };
                assert(w[j] == s[sj]);
                assert(has_key(s, q));
            }
        }
    }
}

/// What a well-formed cache guarantees: capacity at least one, no path twice, and no more
/// entries than the capacity.
pub proof fn lemma_wf(c: &ImageCache)
    requires
        c.wf(),
    ensures
        c.spec_capacity() >= 1,
        keys_unique(c.view_entries()),
        c.view_entries().len() <= c.spec_capacity(),
{
}

/// Law: inserting a new path into a full cache evicts exactly the least recently inserted
/// entry; otherwise nothing is evicted. The cache then holds one more entry when the path is
/// new, up to its capacity.
pub proof fn law_full_cache_evicts_oldest(s: Seq<CacheEntry>, cap: int, path: Seq<char>, image: DecodedImage)
    requires
        cap >= 1,
        keys_unique(s),
        s.len() <= cap,
    ensures
        !has_key(s, path) && s.len() == cap ==> inserted(s, cap, path, image).1 == seq![s[0].0],
        has_key(s, path) || s.len() < cap ==> inserted(s, cap, path, image).1 == Seq::<Seq<char>>::empty(),
        inserted(s, cap, path, image).0.len() == if has_key(s, path) {
            s.len() as int
        } else if s.len() < cap {
            s.len() + 1int
        } else {
            cap
        },
{
    lemma_without_key(s, path);
    let r = refreshed(s, path, image);
    if !has_key(s, path) {
        assert(without_key(s, path) == s);
        if s.len() == cap {
            assert(r[0] == s[0]);
        }
    }
}

/// Law: right after `path` is inserted, looking it up gives the image just inserted.
pub proof fn law_read_after_insert(s: Seq<CacheEntry>, cap: int, path: Seq<char>, image: DecodedImage)
    requires
        cap >= 1,
        keys_unique(s),
        s.len() <= cap,
    ensures
        lookup(inserted(s, cap, path, image).0, path) == Some(image),
{
    lemma_without_key(s, path);
    let r = refreshed(s, path, image);
    let n = inserted(s, cap, path, image).0;
    let last = r.len() - 1;
    assert(r[last] == (path, image));
    if r.len() > cap {
        assert(n[last - 1] == r[last]);
        assert(has_key(n, path));
        let j = key_index(n, path);
        assert(n[j] == r[j + 1]);
        if j + 1 != last {
            assert(r[j + 1] == without_key(s, path)[j + 1]);
        }
    } else {
        assert(has_key(n, path));
        let j = key_index(n, path);
        if j != last {
            assert(r[j] == without_key(s, path)[j]);
        }
    }
}

/// Law: an insertion leaves every other path as it was, unless that path was evicted;
/// an evicted path is no longer cached, and at most one path is evicted.
pub proof fn law_insert_keeps_others(s: Seq<CacheEntry>, cap: int, path: Seq<char>, image: DecodedImage, other: Seq<char>)
    requires
        cap >= 1,
        keys_unique(s),
        s.len() <= cap,
        !same_path(other, path),
    ensures
        inserted(s, cap, path, image).1.len() <= 1,
        !names_evicted(inserted(s, cap, path, image).1, other) ==> lookup(inserted(s, cap, path, image).0, other) == lookup(s, other),
        names_evicted(inserted(s, cap, path, image).1, other) ==> lookup(inserted(s, cap, path, image).0, other) is None
            && lookup(s, other) is Some,
{
    lemma_without_key(s, path);
    let w = without_key(s, path);
    let r = refreshed(s, path, image);
    let res = inserted(s, cap, path, image);
    let n = res.0;
    // lookups in r agree with w away from `path`
    assert(lookup(r, other) == lookup(w, other)) by {
        if has_key(w, other) {
            let i = key_index(w, other);
            assert(r[i] == w[i]);
            assert(has_key(r, other));
            let j = key_index(r, other);
            if j < w.len() {
                assert(r[j] == w[j]);
            }
        }
        if has_key(r, other) {
            let j = key_index(r, other);
            if j < w.len() {
                assert(r[j] == w[j]);
                assert(has_key(w, other));
            }
        }
    }
    assert(keys_unique(r)) by {
        assert forall|a: int, b: int| 0 <= a < r.len() && 0 <= b < r.len() && a != b implies !same_path(r[a].0, r[b].0) by {
            if a < w.len() && b < w.len() {
                assert(r[a] == w[a] && r[b] == w[b]);
            } else if a < w.len() {
                assert(r[a] == w[a]);
            } else if b < w.len() {
                assert(r[b] == w[b]);
            }
        }
    }
    if r.len() > cap {
        if same_path(r[0].0, other) {
            assert(names_evicted(res.1, other)) by {
                assert(same_path(res.1[0], other));
            }
            assert(has_key(r, other));
            assert(lookup(n, other) is None) by {
                if has_key(n, other) {
                    let j = key_index(n, other);
                    assert(n[j] == r[j + 1]);
                }
            }
        } else {
            assert(!names_evicted(res.1, other)) by {
                if names_evicted(res.1, other) {
                    let t = choose|t: int| 0 <= t < res.1.len() && same_path(res.1[t], other);
                    assert(res.1[t] == r[0].0);
                }
            }
            assert(lookup(n, other) == lookup(r, other)) by {
                if has_key(r, other) {
                    let i = key_index(r, other);
                    assert(i != 0);
                    assert(n[i - 1] == r[i]);
                    assert(has_key(n, other));
                    let j = key_index(n, other);
                    assert(n[j] == r[j + 1]);
                }
                if has_key(n, other) {
                    let j = key_index(n, other);
                    assert(n[j] == r[j + 1]);
                    assert(has_key(r, other));
                }
            }
        }
    } else {
        assert(!names_evicted(res.1, other));
    }
}

} // verus!
