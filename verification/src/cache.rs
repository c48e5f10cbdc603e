//! The time-boxed content cache: one list of preset metadata and one byte
//! blob per URL, each with the instant at which it stops being served.
//!
//! Expiry is judged when an entry is read. An expired entry is treated as
//! absent and stays in place until the next write to its slot.

use vstd::prelude::*;
use crate::clock::Instant;
use crate::keyed::TextMap;

verus! {

/// Seconds for which a fetched preset list is served from the cache.
pub const PRESETS_TTL_SECONDS: u32 = 3600;

/// Seconds for which a downloaded blob is served from the cache.
pub const DOWNLOAD_TTL_SECONDS: u32 = 86400;

/// One preset of the remote catalog: a name, a stable identity and the
/// URLs of its three material files.
#[derive(Debug, PartialEq, Eq)]
pub struct PackInfo {
    pub name: String,
    pub uuid: String,
    pub stub: String,
    pub tonemapping: String,
    pub bloom: String,
}

/// What a [`PackInfo`] holds, as text.
pub struct PackInfoView {
    pub name: Seq<char>,
    pub uuid: Seq<char>,
    pub stub: Seq<char>,
    pub tonemapping: Seq<char>,
    pub bloom: Seq<char>,
}

impl View for PackInfo {
    type V = PackInfoView;

    open spec fn view(&self) -> PackInfoView {
        PackInfoView {
            name: self.name@,
            uuid: self.uuid@,
            stub: self.stub@,
            tonemapping: self.tonemapping@,
            bloom: self.bloom@,
        }
    }
}

impl Clone for PackInfo {
    fn clone(&self) -> (r: Self)
        ensures
            r@ == self@,
    {
        PackInfo {
            name: self.name.clone(),
            uuid: self.uuid.clone(),
            stub: self.stub.clone(),
            tonemapping: self.tonemapping.clone(),
            bloom: self.bloom.clone(),
        }
    }
}

/// The views of a list of presets, in order.
pub open spec fn pack_views(list: Seq<PackInfo>) -> Seq<PackInfoView> {
    Seq::new(list.len(), |i: int| list[i]@)
}

/// A copy of a list of presets.
pub fn copy_packs(list: &Vec<PackInfo>) -> (out: Vec<PackInfo>)
    ensures
        pack_views(out@) == pack_views(list@),
{
    let mut out: Vec<PackInfo> = Vec::new();
    let mut i: usize = 0;
    while i < list.len()
        invariant
            i <= list.len(),
            out@.len() == i,
            forall|j: int| 0 <= j < i ==> out@[j]@ == list@[j]@,
        decreases list.len() - i,
    {
        out.push(list[i].clone());
        i = i + 1;
    }
    assert(pack_views(out@) =~= pack_views(list@));
    out
}

/// A copy of a byte sequence.
pub fn copy_bytes(bytes: &Vec<u8>) -> (out: Vec<u8>)
    ensures
        out@ == bytes@,
{
    let mut out: Vec<u8> = Vec::new();
    let mut i: usize = 0;
    while i < bytes.len()
        invariant
            i <= bytes.len(),
            out@ == bytes@.take(i as int),
        decreases bytes.len() - i,
    {
        out.push(bytes[i]);
        i = i + 1;
    }
    out
}

/// A cached value with the instant it was stored at and the instant at
/// which it expires. An entry is never changed, only replaced.
#[derive(Debug, PartialEq, Eq)]
pub struct CacheEntry<T> {
    pub data: T,
    pub timestamp: Instant,
    pub expires_at: Instant,
}

impl<T> CacheEntry<T> {
    /// An entry is valid at `now` exactly when `now` is before its expiry.
    pub open spec fn valid_at(self, now: Instant) -> bool {
        now.before(self.expires_at)
    }

    /// Decides [`CacheEntry::valid_at`].
    pub fn is_valid_at(&self, now: &Instant) -> (r: bool)
        ensures
            r == self.valid_at(*now),
    {
        now.is_before(&self.expires_at)
    }

    /// An entry for `data` stored at `now` that lives for `ttl` seconds.
    pub fn stamped(data: T, now: Instant, ttl: u32) -> (e: Self)
        requires
            now.can_add(ttl),
        ensures
            e.data == data,
            e.timestamp == now,
            e.expires_at == now.plus(ttl),
    {
        CacheEntry { data, timestamp: now, expires_at: now.plus_seconds(ttl) }
    }
}

/// Whether a cached entry is valid by the system clock at the moment of
/// the call: whatever the clock reads, the answer is that of
/// [`CacheEntry::valid_at`] for that reading.
pub fn is_cache_valid<T>(cached: &CacheEntry<T>) -> (r: bool)
    ensures
        exists|now: Instant| r == cached.valid_at(now),
{
    let now = Instant::now();
    let r = cached.is_valid_at(&now);
    assert(r == cached.valid_at(now));
    r
}

/// What a cache entry holds, over the view of its data.
pub struct EntryView<D> {
    pub data: D,
    pub timestamp: Instant,
    pub expires_at: Instant,
}

impl<D> EntryView<D> {
    /// Whether the entry is served at `now`.
    pub open spec fn valid_at(self, now: Instant) -> bool {
        now.before(self.expires_at)
    }

    /// The entry for `data` stored at `now` with `ttl` seconds to live.
    pub open spec fn stamped(data: D, now: Instant, ttl: u32) -> EntryView<D> {
        EntryView { data, timestamp: now, expires_at: now.plus(ttl) }
    }
}

/// The view of a blob entry.
pub open spec fn blob_view(e: CacheEntry<Vec<u8>>) -> EntryView<Seq<u8>> {
    EntryView { data: e.data@, timestamp: e.timestamp, expires_at: e.expires_at }
}

/// The view of a metadata entry.
pub open spec fn list_view(e: CacheEntry<Vec<PackInfo>>) -> EntryView<Seq<PackInfoView>> {
    EntryView { data: pack_views(e.data@), timestamp: e.timestamp, expires_at: e.expires_at }
}

/// The cache document as a mathematical value: an optional metadata entry
/// and a map from URL to blob entry.
pub struct CacheView {
    pub metadata: Option<EntryView<Seq<PackInfoView>>>,
    pub blobs: Map<Seq<char>, EntryView<Seq<u8>>>,
}

impl CacheView {
    /// The document with no entry at all.
    pub open spec fn empty() -> CacheView {
        CacheView { metadata: None, blobs: Map::empty() }
    }

    /// The preset list served at `now`: the cached one if its entry is
    /// valid then, and nothing otherwise.
    pub open spec fn metadata_at(self, now: Instant) -> Option<Seq<PackInfoView>> {
        match self.metadata {
            Some(e) => if e.valid_at(now) {
                Some(e.data)
            } else {
                None
            },
            None => None,
        }
    }

    /// The blob served for `url` at `now`: the cached one if there is an
    /// entry under exactly this URL and it is valid then.
    pub open spec fn blob_at(self, url: Seq<char>, now: Instant) -> Option<Seq<u8>> {
        if self.blobs.contains_key(url) && self.blobs[url].valid_at(now) {
            Some(self.blobs[url].data)
        } else {
            None
        }
    }

    /// The document after the metadata entry was replaced at `now`.
    pub open spec fn with_metadata(self, list: Seq<PackInfoView>, now: Instant, ttl: u32)
        -> CacheView {
        CacheView { metadata: Some(EntryView::stamped(list, now, ttl)), blobs: self.blobs }
    }

    /// The document after the blob of `url` was stored at `now`.
    pub open spec fn with_blob(self, url: Seq<char>, bytes: Seq<u8>, now: Instant, ttl: u32)
        -> CacheView {
        CacheView {
            metadata: self.metadata,
            blobs: self.blobs.insert(url, EntryView::stamped(bytes, now, ttl)),
        }
    }
}

/// The cache document.
pub struct Cache {
    presets: Option<CacheEntry<Vec<PackInfo>>>,
    downloads: TextMap<CacheEntry<Vec<u8>>>,
}

impl View for Cache {
    type V = CacheView;

    closed spec fn view(&self) -> CacheView {
        CacheView {
            metadata: match self.presets {
                Some(e) => Some(list_view(e)),
                None => None,
            },
            blobs: self.downloads@.map_values(|e: CacheEntry<Vec<u8>>| blob_view(e)),
        }
    }
}

/// A summary of what the cache holds, whether valid or expired.
#[derive(Clone, Copy, Debug, PartialEq, Eq, Structural)]
pub struct CacheInfo {
    pub presets_cached: bool,
    pub presets_count: usize,
    pub presets_expires: Option<Instant>,
    pub downloads_cached: usize,
}

impl Cache {
    /// The empty cache: what a missing, unreadable or corrupt document
    /// stands for.
    pub fn new() -> (c: Self)
        ensures
            c@ == CacheView::empty(),
    {
        let c = Cache { presets: None, downloads: TextMap::new() };
        assert(c@.blobs =~= Map::empty());
        c
    }

    /// The cache that a load attempt stands for: the document that was
    /// read, or the empty cache where none could be read. A lost cache
    /// costs a fetch and never fails the caller.
    pub fn recovered(loaded: Option<Cache>) -> (c: Self)
        ensures
            c@ == match loaded {
                Some(read) => read@,
                None => CacheView::empty(),
            },
    {
        match loaded {
            Some(read) => read,
            None => Cache::new(),
        }
    }

    /// The cached preset list, if its entry is valid at `now`.
    pub fn get_metadata_at(&self, now: &Instant) -> (r: Option<Vec<PackInfo>>)
        ensures
            match r {
                Some(list) => self@.metadata_at(*now) == Some(pack_views(list@)),
                None => self@.metadata_at(*now) is None,
            },
    {
        match &self.presets {
            Some(e) => {
                if e.is_valid_at(now) {
                    Some(copy_packs(&e.data))
                } else {
                    None
                }
            },
            None => None,
        }
    }

    /// Replaces the metadata entry by one stamped `now` that expires `ttl`
    /// seconds later. No blob entry changes.
    pub fn put_metadata_at(&mut self, list: Vec<PackInfo>, now: Instant, ttl: u32)
        requires
            now.can_add(ttl),
        ensures
            final(self)@ == old(self)@.with_metadata(pack_views(list@), now, ttl),
    {
        self.presets = Some(CacheEntry::stamped(list, now, ttl));
    }

    /// The cached blob of `url`, if there is an entry under exactly this
    /// URL and it is valid at `now`.
    pub fn get_blob_at(&self, url: &str, now: &Instant) -> (r: Option<Vec<u8>>)
        ensures
            match r {
                Some(bytes) => self@.blob_at(url@, *now) == Some(bytes@),
                None => self@.blob_at(url@, *now) is None,
            },
    {
        match self.downloads.get(url) {
            Some(e) => {
                if e.is_valid_at(now) {
                    Some(copy_bytes(&e.data))
                } else {
                    None
                }
            },
            None => None,
        }
    }

    /// Stores `bytes` under `url` in an entry stamped `now` that expires
    /// `ttl` seconds later, in place of any entry of that URL. The entries
    /// of all other URLs and the metadata entry stay as they are.
    pub fn put_blob_at(&mut self, url: &str, bytes: Vec<u8>, now: Instant, ttl: u32)
        requires
            now.can_add(ttl),
        ensures
            final(self)@ == old(self)@.with_blob(url@, bytes@, now, ttl),
    {
        let entry = CacheEntry::stamped(bytes, now, ttl);
        self.downloads.insert(url.to_owned(), entry);
        assert(self@.blobs =~= old(self)@.blobs.insert(url@, blob_view(entry)));
    }

    /// The cached preset list, if its entry is valid by the system clock.
    /// Whatever the clock reads, what is returned is the cached list.
    pub fn get_metadata(&self) -> (r: Option<Vec<PackInfo>>)
        ensures
            exists|now: Instant|
                match r {
                    Some(list) => self@.metadata_at(now) == Some(pack_views(list@)),
                    None => self@.metadata_at(now) is None,
                },
    {
        let now = Instant::now();
        let r = self.get_metadata_at(&now);
        proof {
            assert(match r {
                Some(list) => self@.metadata_at(now) == Some(pack_views(list@)),
                None => self@.metadata_at(now) is None,
            });
        }
        r
    }

    /// Replaces the metadata entry by one stamped with the system clock's
    /// time that expires `ttl` seconds later, and returns `true`: the
    /// entry is always stored, since a reading of the clock leaves room for
    /// any time to live. No blob entry changes.
    pub fn put_metadata(&mut self, list: Vec<PackInfo>, ttl: u32) -> (stored: bool)
        ensures
            stored,
            exists|now: Instant|
                now.within_calendar() && final(self)@ == old(self)@.with_metadata(
                    pack_views(list@),
                    now,
                    ttl,
                ),
    {
        let now = Instant::now();
        self.put_metadata_at(list, now, ttl);
        assert(now.within_calendar() && self@ == old(self)@.with_metadata(
            pack_views(list@),
            now,
            ttl,
        ));
        true
    }

    /// The cached blob of `url`, if its entry is valid by the system clock.
    /// Whatever the clock reads, what is returned is the cached blob.
    pub fn get_blob(&self, url: &str) -> (r: Option<Vec<u8>>)
        ensures
            exists|now: Instant|
                match r {
                    Some(bytes) => self@.blob_at(url@, now) == Some(bytes@),
                    None => self@.blob_at(url@, now) is None,
                },
    {
        let now = Instant::now();
        let r = self.get_blob_at(url, &now);
        proof {
            assert(match r {
                Some(bytes) => self@.blob_at(url@, now) == Some(bytes@),
                None => self@.blob_at(url@, now) is None,
            });
        }
        r
    }

    /// Stores `bytes` under `url` in an entry stamped with the system
    /// clock's time that expires `ttl` seconds later, in place of any entry
    /// of that URL, and returns `true`: the entry is always stored, since a
    /// reading of the clock leaves room for any time to live. The entries
    /// of all other URLs and the metadata entry stay as they are.
    pub fn put_blob(&mut self, url: &str, bytes: Vec<u8>, ttl: u32) -> (stored: bool)
        ensures
            stored,
            exists|now: Instant|
                now.within_calendar() && final(self)@ == old(self)@.with_blob(
                    url@,
                    bytes@,
                    now,
                    ttl,
                ),
    {
        let now = Instant::now();
        self.put_blob_at(url, bytes, now, ttl);
        assert(now.within_calendar() && self@ == old(self)@.with_blob(url@, bytes@, now, ttl));
        true
    }

    /// The preset list to answer a listing request with, without a fetch:
    /// the cached one if it is valid at `now` and no refresh is forced.
    pub fn presets_without_fetch(&self, force_refresh: bool, now: &Instant) -> (r: Option<
        Vec<PackInfo>,
    >)
        ensures
            match r {
                Some(list) => !force_refresh && self@.metadata_at(*now) == Some(
                    pack_views(list@),
                ),
                None => force_refresh || self@.metadata_at(*now) is None,
            },
    {
        if force_refresh {
            None
        } else {
            self.get_metadata_at(now)
        }
    }

    /// Counts what the cache holds, expired entries included.
    pub fn info(&self) -> (r: CacheInfo)
        ensures
            r.presets_cached == self@.metadata is Some,
            self@.metadata matches Some(e) ==> r.presets_count == e.data.len()
                && r.presets_expires == Some(e.expires_at),
            self@.metadata is None ==> r.presets_count == 0 && r.presets_expires is None,
            self@.blobs.dom().finite(),
            r.downloads_cached == self@.blobs.dom().len(),
    {
        let downloads_cached = self.downloads.len();
        assert(self@.blobs.dom() =~= self.downloads@.dom());
        match &self.presets {
            Some(e) => CacheInfo {
                presets_cached: true,
                presets_count: e.data.len(),
                presets_expires: Some(e.expires_at),
                downloads_cached,
            },
            None => CacheInfo {
                presets_cached: false,
                presets_count: 0,
                presets_expires: None,
                downloads_cached,
            },
        }
    }

    /// The metadata entry as stored, valid or not.
    pub fn metadata_entry(&self) -> (r: Option<&CacheEntry<Vec<PackInfo>>>)
        ensures
            match r {
                Some(e) => self@.metadata == Some(list_view(*e)),
                None => self@.metadata is None,
            },
    {
        self.presets.as_ref()
    }

    /// The URL of the blob entry at position `i`.
    pub closed spec fn url_at(self, i: int) -> Seq<char> {
        self.downloads.key_at(i)
    }

    /// The number of blob entries, valid or not. The positions below it
    /// hold the URLs of the cache, each URL at exactly one position.
    pub fn blob_count(&self) -> (n: usize)
        ensures
            self@.blobs.dom().finite(),
            n == self@.blobs.dom().len(),
            forall|i: int, j: int|
                0 <= i < n && 0 <= j < n && i != j ==> self.url_at(i) != self.url_at(j),
            forall|k: Seq<char>|
                self@.blobs.contains_key(k) ==> exists|i: int| 0 <= i < n && self.url_at(i) == k,
    {
        let n = self.downloads.len();
        assert(self@.blobs.dom() =~= self.downloads@.dom());
        assert forall|k: Seq<char>| self@.blobs.contains_key(k) implies exists|i: int|
            0 <= i < n && self.url_at(i) == k by {
            assert(self.downloads@.contains_key(k));
            let i = choose|i: int| 0 <= i < n && self.downloads.key_at(i) == k;
            assert(self.url_at(i) == k);
        }
        n
    }

    /// The blob entry at position `i` of `blob_count()`, with its URL.
    pub fn blob_entry_at(&self, i: usize) -> (r: (&String, &CacheEntry<Vec<u8>>))
        requires
            i < self@.blobs.dom().len(),
            self@.blobs.dom().finite(),
        ensures
            r.0@ == self.url_at(i as int),
            self@.blobs.contains_key(r.0@),
            self@.blobs[r.0@] == blob_view(*r.1),
    {
        let n = self.downloads.len();
        assert(self@.blobs.dom() =~= self.downloads@.dom());
        self.downloads.entry_at(i)
    }

    /// Puts back a metadata entry as it was stored, with its own stamps.
    pub fn restore_metadata(&mut self, entry: CacheEntry<Vec<PackInfo>>)
        ensures
            final(self)@.metadata == Some(list_view(entry)),
            final(self)@.blobs == old(self)@.blobs,
    {
        self.presets = Some(entry);
    }

    /// Puts back a blob entry as it was stored, with its own stamps.
    pub fn restore_blob(&mut self, url: String, entry: CacheEntry<Vec<u8>>)
        ensures
            final(self)@.metadata == old(self)@.metadata,
            final(self)@.blobs == old(self)@.blobs.insert(url@, blob_view(entry)),
    {
        self.downloads.insert(url, entry);
        assert(self@.blobs =~= old(self)@.blobs.insert(url@, blob_view(entry)));
    }

    /// Drops every entry.
    pub fn clear(&mut self)
        ensures
            final(self)@ == CacheView::empty(),
    {
        self.presets = None;
        self.downloads.clear();
        assert(self@.blobs =~= Map::empty());
    }
}

/// An entry that has reached its expiry is not served, whatever it holds:
/// not for the metadata list and not for any URL.
pub proof fn law_expired_is_absent(c: CacheView, url: Seq<char>, now: Instant)
    ensures
        c.metadata is Some && now.at_or_after(c.metadata->0.expires_at) ==> c.metadata_at(now)
            is None,
        c.blobs.contains_key(url) && now.at_or_after(c.blobs[url].expires_at) ==> c.blob_at(
            url,
            now,
        ) is None,
{
}

/// Writing the blob of one URL changes nothing under any other URL and
/// leaves the metadata entry alone; writing the metadata entry leaves
/// every blob entry alone.
pub proof fn law_writes_are_local(
    c: CacheView,
    written: Seq<char>,
    other: Seq<char>,
    bytes: Seq<u8>,
    list: Seq<PackInfoView>,
    now: Instant,
    ttl: u32,
)
    requires
        written != other,
    ensures
        c.with_blob(written, bytes, now, ttl).blobs.contains_key(other) == c.blobs.contains_key(
            other,
        ),
        c.blobs.contains_key(other) ==> c.with_blob(written, bytes, now, ttl).blobs[other]
            == c.blobs[other],
        forall|at: Instant|
            c.with_blob(written, bytes, now, ttl).blob_at(other, at) == c.blob_at(other, at),
        c.with_blob(written, bytes, now, ttl).metadata == c.metadata,
        c.with_metadata(list, now, ttl).blobs == c.blobs,
{
}

} // verus!
