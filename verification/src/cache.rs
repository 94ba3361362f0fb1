//! The cache of extracted colors, keyed by a digest of the image and of the
//! extraction settings.

use vstd::prelude::*;
use crate::hex::{lower_hex, push_lower_hex};
use crate::paths::{cache_dir, join, join_spec, opt_view};

verus! {

/// One cached color: the key and the color's sRGB bytes.
pub type CacheEntry = (String, (u8, u8, u8));

/// Whether `k` is the key of some entry.
pub open spec fn has_key(s: Seq<CacheEntry>, k: Seq<char>) -> bool {
    exists|i: int| 0 <= i < s.len() && #[trigger] s[i].0@ == k
}

/// No key occurs twice.
pub open spec fn keys_distinct(s: Seq<CacheEntry>) -> bool {
    forall|i: int, j: int|
        0 <= i < s.len() && 0 <= j < s.len() && i != j ==> #[trigger] s[i].0@ != #[trigger] s[j].0@
}

/// The map from key to color that a list of distinct entries stands for.
pub open spec fn entries_map(s: Seq<CacheEntry>) -> Map<Seq<char>, (u8, u8, u8)> {
    Map::new(
        |k: Seq<char>| has_key(s, k),
        |k: Seq<char>| s[choose|i: int| 0 <= i < s.len() && #[trigger] s[i].0@ == k].1,
    )
}

/// The map that inserting the entries one after another builds: a later
/// entry with the same key wins.
pub open spec fn list_map(s: Seq<CacheEntry>) -> Map<Seq<char>, (u8, u8, u8)>
    decreases s.len(),
{
    if s.len() == 0 {
        Map::empty()
    } else {
        list_map(s.drop_last()).insert(s.last().0@, s.last().1)
    }
}

/// What looking a key up in a map of colors gives.
pub open spec fn lookup(m: Map<Seq<char>, (u8, u8, u8)>, k: Seq<char>) -> Option<(u8, u8, u8)> {
    if m.contains_key(k) {
        Some(m[k])
    } else {
        None
    }
}

/// The directory of the cache: `gecol` inside `base`, or inside `.` where
/// the system names no cache directory.
pub open spec fn cache_dir_spec(base: Option<Seq<char>>) -> Seq<char> {
    match base {
        Some(b) => join_spec(b, seq!['g', 'e', 'c', 'o', 'l']),
        None => join_spec(seq!['.'], seq!['g', 'e', 'c', 'o', 'l']),
    }
}

/// The cache file: `colors.toml` inside the cache directory.
pub open spec fn cache_file_spec(base: Option<Seq<char>>) -> Seq<char> {
    join_spec(
        cache_dir_spec(base),
        seq!['c', 'o', 'l', 'o', 'r', 's', '.', 't', 'o', 'm', 'l'],
    )
}

/// Colors extracted before, so that a repeated extraction of the same image
/// with the same settings is answered at once.
pub struct Cache {
    entries: Vec<CacheEntry>,
}

impl View for Cache {
    type V = Map<Seq<char>, (u8, u8, u8)>;

    closed spec fn view(&self) -> Map<Seq<char>, (u8, u8, u8)> {
        entries_map(self.entries@)
    }
}

proof fn lemma_entries_map_at(s: Seq<CacheEntry>, i: int)
    requires
        keys_distinct(s),
        0 <= i < s.len(),
    ensures
        entries_map(s).contains_key(s[i].0@),
        entries_map(s)[s[i].0@] == s[i].1,
{
    let k = s[i].0@;
    assert(has_key(s, k));
    let j = choose|j: int| 0 <= j < s.len() && #[trigger] s[j].0@ == k;
    assert(j == i);
}

impl Cache {
    #[verifier::type_invariant]
    closed spec fn wf(self) -> bool {
        keys_distinct(self.entries@)
    }

    /// An empty cache.
    pub fn new() -> (c: Self)
        ensures
            c@ == Map::<Seq<char>, (u8, u8, u8)>::empty(),
    {
        let c = Cache { entries: Vec::new() };
        assert(c@ =~= Map::<Seq<char>, (u8, u8, u8)>::empty());
        c
    }

    fn find(&self, key: &str) -> (r: Option<usize>)
        ensures
            match r {
                Some(i) => i < self.entries@.len() && self.entries@[i as int].0@ == key@,
                None => !has_key(self.entries@, key@),
            },
    {
        let n = self.entries.len();
        let wanted = String::from_str(key);
        for i in 0..n
            invariant
                n == self.entries@.len(),
                wanted@ == key@,
                forall|j: int| 0 <= j < i ==> #[trigger] self.entries@[j].0@ != key@,
        {
            if self.entries[i].0 == wanted {
                return Some(i);
            }
        }
        None
    }

    /// The color cached under `key`, if any.
    pub fn get(&self, key: &str) -> (r: Option<(u8, u8, u8)>)
        ensures
            r == lookup(self@, key@),
    {
        proof {
            use_type_invariant(self);
        }
        match self.find(key) {
            Some(i) => {
                proof {
                    lemma_entries_map_at(self.entries@, i as int);
                }
                Some(self.entries[i].1)
            },
            None => None,
        }
    }

    /// Caches `color` under `key`, replacing what was cached there.
    pub fn insert(&mut self, key: String, color: (u8, u8, u8))
        ensures
            final(self)@ == old(self)@.insert(key@, color),
    {
        proof {
            use_type_invariant(&*self);
        }
        let ghost k = key@;
        let ghost old_entries = self.entries@;
        let ghost mut idx: int = 0;
        match self.find(key.as_str()) {
            Some(i) => {
                let mut entries: Vec<CacheEntry> = Vec::new();
                std::mem::swap(&mut entries, &mut self.entries);
                entries.set(i, (key, color));
                self.entries = entries;
                proof {
                    idx = i as int;
                    let s = self.entries@;
                    assert(s =~= old_entries.update(i as int, s[i as int]));
                    assert forall|a: int, b: int|
                        0 <= a < s.len() && 0 <= b < s.len() && a != b implies #[trigger] s[a].0@
                        != #[trigger] s[b].0@ by {
                        if a != i && b != i {
                            assert(old_entries[a].0@ != old_entries[b].0@);
                        } else if a == i {
                            assert(old_entries[i as int].0@ != old_entries[b].0@);
                        } else {
                            assert(old_entries[a].0@ != old_entries[i as int].0@);
                        }
                    }
                }
            },
            None => {
                let mut entries: Vec<CacheEntry> = Vec::new();
                std::mem::swap(&mut entries, &mut self.entries);
                entries.push((key, color));
                self.entries = entries;
                proof {
                    idx = old_entries.len() as int;
                    let s = self.entries@;
                    assert(s =~= old_entries.push(s.last()));
                    assert forall|a: int, b: int|
                        0 <= a < s.len() && 0 <= b < s.len() && a != b implies #[trigger] s[a].0@
                        != #[trigger] s[b].0@ by {
                        if a < old_entries.len() && b < old_entries.len() {
                            assert(old_entries[a].0@ != old_entries[b].0@);
                        } else if a == old_entries.len() {
                            assert(old_entries[b] == s[b]);
                        } else {
                            assert(old_entries[a] == s[a]);
                        }
                    }
                }
            },
        }
        proof {
            let s = self.entries@;
            let m_new = entries_map(s);
            let m_old = entries_map(old_entries).insert(k, color);
            assert forall|x: Seq<char>| #[trigger] m_new.contains_key(x) <==> m_old.contains_key(x) by {
                if m_new.contains_key(x) {
                    let j = choose|j: int| 0 <= j < s.len() && #[trigger] s[j].0@ == x;
                    if x != k {
                        assert(old_entries[j] == s[j]);
                        assert(has_key(old_entries, x));
                    }
                }
                if m_old.contains_key(x) && x != k {
                    let j = choose|j: int| 0 <= j < old_entries.len() && #[trigger] old_entries[j].0@ == x;
                    assert(s[j] == old_entries[j]);
                    assert(has_key(s, x));
                }
                if x == k {
                    assert(s[idx].0@ == k);
                    assert(has_key(s, k));
                }
            }
            assert forall|x: Seq<char>| #[trigger] m_new.contains_key(x) implies m_new[x] == m_old[x] by {
                let j = choose|j: int| 0 <= j < s.len() && #[trigger] s[j].0@ == x;
                lemma_entries_map_at(s, j);
                if x != k {
                    assert(old_entries[j] == s[j]);
                    lemma_entries_map_at(old_entries, j);
                }
            }
            assert(m_new =~= m_old);
        }
    }

    /// Builds a cache from entries, inserted in order: of two entries with
    /// the same key the later one stays.
    pub fn from_entries(entries: Vec<CacheEntry>) -> (c: Self)
        ensures
            c@ == list_map(entries@),
    {
        let mut c = Cache::new();
        let n = entries.len();
        for i in 0..n
            invariant
                n == entries@.len(),
                c@ == list_map(entries@.take(i as int)),
        {
            let k = entries[i].0.clone();
            let v = entries[i].1;
            proof {
                assert(entries@.take(i + 1).drop_last() =~= entries@.take(i as int));
            }
            c.insert(k, v);
        }
        assert(entries@.take(n as int) =~= entries@);
        c
    }

    /// The cached entries, each key once, in no particular order.
    pub fn entries(&self) -> (r: &Vec<CacheEntry>)
        ensures
            keys_distinct(r@),
            entries_map(r@) == self@,
    {
        proof {
            use_type_invariant(self);
        }
        &self.entries
    }

    /// Caches a freshly extracted color under `key` when there is one, and
    /// says whether the cache changed and should be saved.
    pub fn record(&mut self, key: String, color: Option<(u8, u8, u8)>) -> (changed: bool)
        ensures
            changed == color.is_some(),
            match color {
                Some(c) => final(self)@ == old(self)@.insert(key@, c),
                None => final(self)@ == old(self)@,
            },
    {
        match color {
            Some(c) => {
                self.insert(key, c);
                true
            },
            None => false,
        }
    }

    /// The key a digest of the image and the settings is written as: its
    /// lowercase hex digits, without leading zeros.
    pub fn key_text(digest: u64) -> (r: String)
        ensures
            r@ == lower_hex(digest as nat),
    {
        let mut r = String::new();
        push_lower_hex(&mut r, digest);
        assert(r@ =~= lower_hex(digest as nat));
        r
    }

    /// The key a color is cached under: the digest of the image and the
    /// settings, or `fallback` when no digest could be made.
    pub fn key_or_fallback(key: Option<String>) -> (r: String)
        ensures
            match key {
                Some(k) => r@ == k@,
                None => r@ == "fallback"@,
            },
    {
        match key {
            Some(k) => k,
            None => String::from_str("fallback"),
        }
    }

    /// The cache file to use: the given one, or else [`Cache::file`].
    pub fn file_or(given: Option<String>) -> (r: String)
        ensures
            match given {
                Some(p) => r@ == p@,
                None => exists|base: Option<Seq<char>>| r@ == cache_file_spec(base),
            },
    {
        match given {
            Some(p) => p,
            None => Self::file(),
        }
    }

    /// The cache directory below a given system cache directory (or below
    /// `.` when there is none).
    pub fn dir_from(base: Option<String>) -> (r: String)
        ensures
            r@ == cache_dir_spec(opt_view(base)),
    {
        proof {
            reveal_strlit("gecol");
            reveal_strlit(".");
        }
        match base {
            Some(b) => join(b.as_str(), "gecol"),
            None => join(".", "gecol"),
        }
    }

    /// Gets the default cache directory: `gecol` inside the system cache
    /// directory.
    pub fn dir() -> (r: String)
        ensures
            exists|base: Option<Seq<char>>| r@ == cache_dir_spec(base),
    {
        let base = cache_dir();
        let ghost b = opt_view(base);
        let r = Self::dir_from(base);
        assert(r@ == cache_dir_spec(b));
        r
    }

    /// Gets the default cache file path: `colors.toml` inside [`Cache::dir`].
    pub fn file() -> (r: String)
        ensures
            exists|base: Option<Seq<char>>| r@ == cache_file_spec(base),
    {
        let base = cache_dir();
        let ghost b = opt_view(base);
        let d = Self::dir_from(base);
        proof {
            reveal_strlit("colors.toml");
        }
        let r = join(d.as_str(), "colors.toml");
        assert(r@ == cache_file_spec(b));
        r
    }
}

/// A color cached under a key is what looking the key up gives, and caching
/// it leaves every other key as it was.
pub proof fn law_cache_read_after_write(
    m: Map<Seq<char>, (u8, u8, u8)>,
    k: Seq<char>,
    other: Seq<char>,
    c: (u8, u8, u8),
)
    requires
        other != k,
    ensures
        lookup(m.insert(k, c), k) == Some(c),
        lookup(m.insert(k, c), other) == lookup(m, other),
{
}

} // verus!
