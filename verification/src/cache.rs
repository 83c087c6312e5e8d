use vstd::prelude::*;
use crate::assoc::{assoc_map, is_last_for_key, lemma_assoc_absent, lemma_assoc_last, lemma_assoc_update_last};
use crate::text::str_eq;

verus! {

/// What the analysis cache remembers of a track.
pub struct CacheEntry {
    /// The detected tempo, as the bit pattern of an `f32` BPM.
    pub bpm_bits: u32,
    pub offset_ms: i64,
    /// File name at the time of the first detection (informational only).
    pub name: String,
    pub cue_sample: Option<usize>,
}

/// The view of a [`CacheEntry`].
pub ghost struct CacheEntryView {
    pub bpm_bits: u32,
    pub offset_ms: i64,
    pub name: Seq<char>,
    pub cue_sample: Option<usize>,
}

impl View for CacheEntry {
    type V = CacheEntryView;

    open spec fn view(&self) -> CacheEntryView {
        CacheEntryView {
            bpm_bits: self.bpm_bits,
            offset_ms: self.offset_ms,
            name: self.name@,
            cue_sample: self.cue_sample,
        }
    }
}

impl CacheEntry {
    /// A copy of the entry.
    pub fn copy(&self) -> (r: CacheEntry)
        ensures
            r@ == self@,
    {
        CacheEntry {
            bpm_bits: self.bpm_bits,
            offset_ms: self.offset_ms,
            name: self.name.clone(),
            cue_sample: self.cue_sample,
        }
    }
}

/// The views of a list of cache entries keyed by content hash.
pub open spec fn entry_views(s: Seq<(String, CacheEntry)>) -> Seq<(Seq<char>, CacheEntryView)> {
    s.map_values(|p: (String, CacheEntry)| (p.0@, p.1@))
}

/// The persistent state: analysis results keyed by the hash of the decoded
/// audio, plus a few settings that survive restarts.
pub struct Cache {
    /// Where the cache file lives.
    pub path: String,
    pub last_browser_path: Option<String>,
    pub audio_latency_ms: i64,
    pub vinyl_mode: bool,
    /// Entries keyed by hash; a later entry for a hash overrides an earlier one.
    pub entries: Vec<(String, CacheEntry)>,
}

impl Cache {
    /// The entries, as a map from hash to entry.
    pub open spec fn entry_map(&self) -> Map<Seq<char>, CacheEntryView> {
        assoc_map(entry_views(self.entries@))
    }

    /// A cache with the given settings and entries (a later entry for a hash
    /// overrides an earlier one).
    pub fn from_parts(
        path: String,
        last_browser_path: Option<String>,
        audio_latency_ms: i64,
        vinyl_mode: bool,
        entries: Vec<(String, CacheEntry)>,
    ) -> (c: Cache)
        ensures
            c.path == path,
            c.last_browser_path == last_browser_path,
            c.audio_latency_ms == audio_latency_ms,
            c.vinyl_mode == vinyl_mode,
            c.entry_map() == assoc_map(entry_views(entries@)),
    {
        Cache { path, last_browser_path, audio_latency_ms, vinyl_mode, entries }
    }

    /// An empty cache stored at `path`.
    pub fn empty(path: String) -> (c: Cache)
        ensures
            c.path == path,
            c.last_browser_path is None,
            c.audio_latency_ms == 0,
            !c.vinyl_mode,
            c.entry_map() == Map::<Seq<char>, CacheEntryView>::empty(),
    {
        Cache { path, last_browser_path: None, audio_latency_ms: 0, vinyl_mode: false, entries: Vec::new() }
    }

    fn last_index_of(&self, hash: &str) -> (r: Option<usize>)
        ensures
            match r {
                Some(i) => is_last_for_key(entry_views(self.entries@), i as int)
                    && entry_views(self.entries@)[i as int].0 == hash@,
                None => forall|j: int|
                    0 <= j < self.entries@.len() ==> #[trigger] entry_views(self.entries@)[j].0 != hash@,
            },
    {
        let ghost ev = entry_views(self.entries@);
        let mut i: usize = self.entries.len();
        while i > 0
            invariant
                i <= self.entries@.len(),
                ev == entry_views(self.entries@),
                forall|j: int| i <= j < self.entries@.len() ==> #[trigger] ev[j].0 != hash@,
            decreases i,
        {
            i -= 1;
            if str_eq(self.entries[i].0.as_str(), hash) {
                return Some(i);
            }
        }
        None
    }

    /// The entry for the audio with this hash, if one was stored.
    pub fn get(&self, hash: &str) -> (r: Option<&CacheEntry>)
        ensures
            match r {
                Some(e) => self.entry_map().dom().contains(hash@) && e@ == self.entry_map()[hash@],
                None => !self.entry_map().dom().contains(hash@),
            },
    {
        match self.last_index_of(hash) {
            Some(i) => {
                proof {
                    lemma_assoc_last(entry_views(self.entries@), i as int);
                }
                Some(&self.entries[i].1)
            },
            None => {
                proof {
                    lemma_assoc_absent(entry_views(self.entries@), hash@);
                }
                None
            },
        }
    }

    /// Stores `entry` for `hash`, replacing what was stored for it.
    pub fn set(&mut self, hash: String, entry: CacheEntry)
        ensures
            final(self).entry_map() == old(self).entry_map().insert(hash@, entry@),
            final(self).path == old(self).path,
            final(self).last_browser_path == old(self).last_browser_path,
            final(self).audio_latency_ms == old(self).audio_latency_ms,
            final(self).vinyl_mode == old(self).vinyl_mode,
    {
        let ghost ev = entry_views(self.entries@);
        match self.last_index_of(hash.as_str()) {
            Some(i) => {
                proof {
                    lemma_assoc_update_last(ev, i as int, entry@);
                }
                self.entries.set(i, (hash, entry));
                assert(entry_views(self.entries@) =~= ev.update(i as int, (ev[i as int].0, entry@)));
            },
            None => {
                self.entries.push((hash, entry));
                assert(entry_views(self.entries@).drop_last() =~= ev);
            },
        }
    }

    /// The directory the browser last showed.
    pub fn last_browser_path(&self) -> (r: Option<&String>)
        ensures
            r == match &self.last_browser_path {
                Some(p) => Some(p),
                None => None::<&String>,
            },
    {
        match &self.last_browser_path {
            Some(p) => Some(p),
            None => None,
        }
    }

    /// Remembers the directory the browser shows.
    pub fn set_last_browser_path(&mut self, p: &str)
        ensures
            final(self).last_browser_path matches Some(s) && s@ == p@,
            final(self).entry_map() == old(self).entry_map(),
            final(self).path == old(self).path,
            final(self).audio_latency_ms == old(self).audio_latency_ms,
            final(self).vinyl_mode == old(self).vinyl_mode,
    {
        self.last_browser_path = Some(p.to_owned());
    }

    /// The stored audio latency, in milliseconds.
    pub fn get_latency(&self) -> (r: i64)
        ensures
            r == self.audio_latency_ms,
    {
        self.audio_latency_ms
    }

    /// Stores the audio latency, in milliseconds.
    pub fn set_latency(&mut self, ms: i64)
        ensures
            final(self).audio_latency_ms == ms,
            final(self).entry_map() == old(self).entry_map(),
            final(self).path == old(self).path,
            final(self).last_browser_path == old(self).last_browser_path,
            final(self).vinyl_mode == old(self).vinyl_mode,
    {
        self.audio_latency_ms = ms;
    }

    /// Whether vinyl mode was on.
    pub fn get_vinyl_mode(&self) -> (r: bool)
        ensures
            r == self.vinyl_mode,
    {
        self.vinyl_mode
    }

    /// Stores whether vinyl mode is on.
    pub fn set_vinyl_mode(&mut self, mode: bool)
        ensures
            final(self).vinyl_mode == mode,
            final(self).entry_map() == old(self).entry_map(),
            final(self).path == old(self).path,
            final(self).last_browser_path == old(self).last_browser_path,
            final(self).audio_latency_ms == old(self).audio_latency_ms,
    {
        self.vinyl_mode = mode;
    }

    /// A copy of the entries.
    pub fn entries_snapshot(&self) -> (r: Vec<(String, CacheEntry)>)
        ensures
            assoc_map(entry_views(r@)) == self.entry_map(),
    {
        let mut r: Vec<(String, CacheEntry)> = Vec::new();
        let mut i: usize = 0;
        while i < self.entries.len()
            invariant
                i <= self.entries@.len(),
                r@.len() == i,
                forall|k: int|
                    0 <= k < i ==> (#[trigger] r@[k]).0@ == self.entries@[k].0@ && r@[k].1@
                        == self.entries@[k].1@,
            decreases self.entries@.len() - i,
        {
            let hc = self.entries[i].0.clone();
            let ec = self.entries[i].1.copy();
            r.push((hc, ec));
            i += 1;
        }
        assert(entry_views(r@) =~= entry_views(self.entries@));
        r
    }
}

/// Storing an entry and reading it back gives that entry; the entries of
/// other hashes are untouched.
pub proof fn law_get_after_set(before: Cache, after: Cache, hash: Seq<char>, entry: CacheEntryView, other: Seq<char>)
    requires
        after.entry_map() == before.entry_map().insert(hash, entry),
        other != hash,
    ensures
        after.entry_map().dom().contains(hash),
        after.entry_map()[hash] == entry,
        after.entry_map().dom().contains(other) == before.entry_map().dom().contains(other),
        after.entry_map()[other] == before.entry_map()[other],
{
}

/// Lowercase hexadecimal digit for `d` (0 to 15).
pub open spec fn hex_digit(d: int) -> char {
    if d < 10 {
        (('0' as int) + d) as char
    } else {
        (('a' as int) + d - 10) as char
    }
}

/// Lowercase hexadecimal encoding: two digits per byte, high nibble first.
pub open spec fn lower_hex(b: Seq<u8>) -> Seq<char>
    decreases b.len(),
{
    if b.len() == 0 {
        Seq::empty()
    } else {
        lower_hex(b.drop_last()) + seq![hex_digit(b.last() as int / 16), hex_digit(b.last() as int % 16)]
    }
}

/// The BLAKE3 hash (32 bytes) of `data`.
pub uninterp spec fn blake3_digest(data: Seq<u8>) -> Seq<u8>;

/// `blake3::Hasher::new().update(bytes).finalize().to_hex()`: the BLAKE3 hash of
/// the bytes, encoded (as its documentation says) in lowercase hexadecimal.
/// Claimed: the result is `lower_hex` of `blake3_digest` of the bytes, 64
/// characters long.
#[verifier::external_body]
fn blake3_hex(bytes: &[u8]) -> (r: String)
    ensures
        r@ == lower_hex(blake3_digest(bytes@)),
        r@.len() == 64,
{
    blake3::Hasher::new().update(bytes).finalize().to_hex().to_string()
}

/// The cache key of decoded audio: the BLAKE3 hash, in lowercase hex, of the
/// samples' bytes (each `f32` in native byte order).
pub fn hash_mono(sample_bytes: &[u8]) -> (r: String)
    ensures
        r@ == lower_hex(blake3_digest(sample_bytes@)),
        r@.len() == 64,
{
    blake3_hex(sample_bytes)
}

} // verus!
