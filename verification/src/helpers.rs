//! The result cache: a keyed store of opaque payloads, gated by a
//! time-to-live against an explicit clock.
//!
//! Providers write a payload under their name after an expensive scan and
//! ask `cache_expired` before redoing it. The store itself is a value owned
//! by the session; loading it from disk at startup and writing it back, and
//! the serialization of typed payloads to bytes, are the embedding
//! program's business. All times are seconds; the freshness clock of an
//! entry is the time of its last write.
use crate::text::str_eq;
use vstd::prelude::*;

verus! {

/// One cache entry: a provider-chosen key, an opaque payload, and the time
/// of the last write.
pub struct CacheEntry {
    pub key: String,
    pub payload: Vec<u8>,
    pub mtime: i64,
}

/// The cache. Later entries for a key shadow earlier ones, so the store
/// reads as a map from key to payload and write time.
pub struct Helpers {
    entries: Vec<CacheEntry>,
}

/// The map a sequence of entries denotes: the last entry for a key wins.
pub open spec fn cache_map_of(s: Seq<CacheEntry>) -> Map<Seq<char>, (Seq<u8>, int)>
    decreases s.len(),
{
    if s.len() == 0 {
        Map::empty()
    } else {
        cache_map_of(s.drop_last()).insert(
            s.last().key@,
            (s.last().payload@, s.last().mtime as int),
        )
    }
}

impl View for Helpers {
    type V = Map<Seq<char>, (Seq<u8>, int)>;

    closed spec fn view(&self) -> Map<Seq<char>, (Seq<u8>, int)> {
        cache_map_of(self.entries@)
    }
}

/// An entry is expired when the key was never written, or when more than
/// `ttl` seconds passed between its last write and `now`.
pub open spec fn spec_expired(
    m: Map<Seq<char>, (Seq<u8>, int)>,
    key: Seq<char>,
    ttl: int,
    now: int,
) -> bool {
    !m.contains_key(key) || now - m[key].1 > ttl
}

/// If no entry at an index at or past `j` holds `key`, the map of the whole
/// sequence agrees at `key` with the map of the first `j` entries.
proof fn lemma_map_of_untouched_suffix(s: Seq<CacheEntry>, j: int, key: Seq<char>)
    requires
        0 <= j <= s.len(),
        forall|i: int| j <= i < s.len() ==> s[i].key@ != key,
    ensures
        cache_map_of(s).contains_key(key) == cache_map_of(s.subrange(0, j)).contains_key(key),
        cache_map_of(s).contains_key(key) ==> cache_map_of(s)[key] == cache_map_of(
            s.subrange(0, j),
        )[key],
    decreases s.len() - j,
{
    if j == s.len() {
        assert(s.subrange(0, j) =~= s);
    } else {
        let t = s.drop_last();
        assert(s.last().key@ != key);
        assert(t.subrange(0, j) =~= s.subrange(0, j));
        lemma_map_of_untouched_suffix(t, j, key);
    }
}

impl Helpers {
    /// Find the live entry for `key`: the last one written.
    fn find_entry<'a>(&'a self, key: &str) -> (r: Option<&'a CacheEntry>)
        ensures
            match r {
                Some(e) => self@.contains_key(key@) && e.key@ == key@ && self@[key@] == (
                    e.payload@,
                    e.mtime as int,
                ),
                None => !self@.contains_key(key@),
            },
    {
        let mut i: usize = self.entries.len();
        while i > 0
            invariant
                i <= self.entries@.len(),
                forall|k: int| i <= k < self.entries@.len() ==> self.entries@[k].key@ != key@,
            decreases i,
        {
            i = i - 1;
            let e = &self.entries[i];
            if str_eq(e.key.as_str(), key) {
                proof {
                    lemma_map_of_untouched_suffix(self.entries@, i + 1, key@);
                    let prefix = self.entries@.subrange(0, i + 1);
                    assert(prefix.drop_last() =~= self.entries@.subrange(0, i as int));
                    assert(prefix.last() == self.entries@[i as int]);
                }
                return Some(e);
            }
        }
        proof {
            lemma_map_of_untouched_suffix(self.entries@, 0, key@);
            assert(self.entries@.subrange(0, 0) =~= Seq::<CacheEntry>::empty());
        }
        None
    }

    /// The payload stored under `key`, if any.
    pub fn read_cache<'a>(&'a self, key: &str) -> (r: Option<&'a Vec<u8>>)
        ensures
            match r {
                Some(p) => self@.contains_key(key@) && self@[key@].0 == p@,
                None => !self@.contains_key(key@),
            },
    {
        match self.find_entry(key) {
            Some(e) => Some(&e.payload),
            None => None,
        }
    }

    /// Store `data` under `key`, stamping the entry with `now` as its
    /// freshness clock.
    pub fn write_cache(&mut self, key: &str, data: Vec<u8>, now: i64)
        ensures
            final(self)@ == old(self)@.insert(key@, (data@, now as int)),
    {
        let ghost before = self.entries@;
        let entry = CacheEntry { key: String::from_str(key), payload: data, mtime: now };
        self.entries.push(entry);
        proof {
            assert(self.entries@.drop_last() =~= before);
        }
    }

    /// Whether the entry for `key` is missing or older than `ttl` seconds.
    pub fn cache_expired(&self, key: &str, ttl: u64, now: i64) -> (r: bool)
        ensures
            r == spec_expired(self@, key@, ttl as int, now as int),
    {
        match self.find_entry(key) {
            None => true,
            Some(e) => (now as i128) - (e.mtime as i128) > (ttl as i128),
        }
    }
}

impl Default for Helpers {
    /// An empty cache.
    fn default() -> (r: Helpers)
        ensures
            r@ == Map::<Seq<char>, (Seq<u8>, int)>::empty(),
    {
        Helpers { entries: Vec::new() }
    }
}

/// Writing a payload under a key and reading the key back yields exactly
/// that payload, whatever the cache held before.
pub proof fn lemma_cache_round_trip(
    m: Map<Seq<char>, (Seq<u8>, int)>,
    key: Seq<char>,
    data: Seq<u8>,
    now: int,
)
    ensures
        m.insert(key, (data, now)).contains_key(key),
        m.insert(key, (data, now))[key].0 == data,
{
}

/// A key never written is expired for every time-to-live, and a key is not
/// expired right after it is written, for any non-negative time-to-live.
pub proof fn lemma_cache_expiry(
    m: Map<Seq<char>, (Seq<u8>, int)>,
    key: Seq<char>,
    data: Seq<u8>,
    ttl: int,
    now: int,
)
    ensures
        !m.contains_key(key) ==> spec_expired(m, key, ttl, now),
        ttl >= 0 ==> !spec_expired(m.insert(key, (data, now)), key, ttl, now),
{
}

} // verus!
