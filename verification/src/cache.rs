//! The result cache: where it lives, which files belong to it, and what its
//! statistics are.
use crate::paths::{extension_of, extension_spec};
use crate::text::{lex_lt, opt_text, owned, str_less};
use vstd::prelude::*;

verus! {

/// Statistics over the cache directory.
#[derive(Debug)]
pub struct CacheStats {
    pub enabled: bool,
    pub cache_dir: String,
    pub total_entries: usize,
    pub total_size_bytes: u64,
    pub total_size_human: String,
    pub oldest_entry: Option<String>,
    pub newest_entry: Option<String>,
}

/// One file found in the cache directory, as far as it could be inspected:
/// its size when its metadata could be read, and then its modification time
/// in whole seconds since the Unix epoch when the platform gives one (a time
/// before the epoch counts as 0).
#[derive(Debug)]
pub struct CacheEntry {
    pub path: String,
    pub size: Option<u64>,
    pub modified_secs: Option<u64>,
}

/// The default cache directory, relative to the working directory.
pub fn get_default_cache_dir() -> (r: String)
    ensures
        r@ == ".rok/cache"@,
{
    owned(".rok/cache")
}

/// A file belongs to the cache when its extension is `json`.
pub open spec fn is_cache_path(p: Seq<char>) -> bool {
    extension_spec(p) == Some("json"@)
}

/// Whether the file at `path` is a cache entry.
pub fn is_cache_file(path: &str) -> (r: bool)
    requires
        path@.len() < i64::MAX,
    ensures
        r == is_cache_path(path@),
{
    match extension_of(path) {
        Some(e) => {
            proof {
                reveal_strlit("json");
            }
            crate::text::same_text(e.as_str(), "json")
        },
        None => false,
    }
}

/// The RFC 3339 rendering of a Unix time in UTC (`None` when out of range).
pub uninterp spec fn timestamp_rfc3339(secs: i64) -> Option<Seq<char>>;

/// `chrono::DateTime::from_timestamp(secs, 0)` rendered with `to_rfc3339`:
/// the contract claims only that the result is the one named for `secs`.
#[verifier::external_body]
fn rfc3339_of(secs: i64) -> (r: Option<String>)
    ensures
        r matches Some(d) ==> timestamp_rfc3339(secs) == Some(d@),
        r is None ==> timestamp_rfc3339(secs) is None,
{
    chrono::DateTime::from_timestamp(secs, 0).map(|dt| dt.to_rfc3339())
}

/// The date shown for a modification time: empty when it cannot be shown.
pub open spec fn entry_date(secs: u64) -> Seq<char> {
    match timestamp_rfc3339(secs as i64) {
        Some(d) => d,
        None => Seq::empty(),
    }
}

/// The date of an entry, when it counts towards the oldest and newest.
pub open spec fn dated(e: CacheEntry) -> Option<Seq<char>> {
    if is_cache_path(e.path@) && e.size is Some && e.modified_secs is Some {
        Some(entry_date(e.modified_secs->0))
    } else {
        None
    }
}

/// How many entries of the listing are cache files.
pub open spec fn cache_count(ls: Seq<CacheEntry>) -> nat
    decreases ls.len(),
{
    if ls.len() == 0 {
        0
    } else {
        cache_count(ls.drop_last()) + if is_cache_path(ls.last().path@) {
            1nat
        } else {
            0nat
        }
    }
}

/// The total size of the cache files of the listing whose size is known.
pub open spec fn cache_size(ls: Seq<CacheEntry>) -> nat
    decreases ls.len(),
{
    if ls.len() == 0 {
        0
    } else {
        cache_size(ls.drop_last()) + match ls.last().size {
            Some(s) if is_cache_path(ls.last().path@) => s as nat,
            _ => 0nat,
        }
    }
}

/// The smallest date of the listing, the earliest of equal ones kept.
pub open spec fn oldest_of(ls: Seq<CacheEntry>) -> Option<Seq<char>>
    decreases ls.len(),
{
    if ls.len() == 0 {
        None
    } else {
        let prev = oldest_of(ls.drop_last());
        match dated(ls.last()) {
            None => prev,
            Some(d) => match prev {
                None => Some(d),
                Some(o) => if lex_lt(d, o) {
                    Some(d)
                } else {
                    prev
                },
            },
        }
    }
}

/// The largest date of the listing, the earliest of equal ones kept.
pub open spec fn newest_of(ls: Seq<CacheEntry>) -> Option<Seq<char>>
    decreases ls.len(),
{
    if ls.len() == 0 {
        None
    } else {
        let prev = newest_of(ls.drop_last());
        match dated(ls.last()) {
            None => prev,
            Some(d) => match prev {
                None => Some(d),
                Some(n) => if lex_lt(n, d) {
                    Some(d)
                } else {
                    prev
                },
            },
        }
    }
}

/// Sizes only grow along a listing.
proof fn lemma_cache_size_prefix(ls: Seq<CacheEntry>, i: int)
    requires
        0 <= i <= ls.len(),
    ensures
        cache_size(ls.take(i)) <= cache_size(ls),
    decreases ls.len() - i,
{
    if i < ls.len() {
        lemma_cache_size_prefix(ls, i + 1);
        assert(ls.take(i + 1).drop_last() =~= ls.take(i));
    } else {
        assert(ls.take(i) =~= ls);
    }
}

/// Statistics over the listing of the cache directory.  The listing counts
/// only when the cache is enabled and its directory exists.  The
/// human-readable size is a floating-point rendering: it is left empty here
/// for the caller to fill in.
pub fn get_stats(cache_dir: &str, enabled: bool, exists: bool, listing: &[CacheEntry]) -> (r:
    CacheStats)
    requires
        forall|i: int| 0 <= i < listing@.len() ==> (#[trigger] listing@[i]).path@.len() < i64::MAX,
        cache_size(listing@) <= u64::MAX,
    ensures
        r.enabled == enabled,
        r.cache_dir@ == cache_dir@,
        r.total_size_human@ == Seq::<char>::empty(),
        enabled && exists ==> {
            &&& r.total_entries == cache_count(listing@)
            &&& r.total_size_bytes == cache_size(listing@)
            &&& opt_text(r.oldest_entry) == oldest_of(listing@)
            &&& opt_text(r.newest_entry) == newest_of(listing@)
        },
        !(enabled && exists) ==> {
            &&& r.total_entries == 0
            &&& r.total_size_bytes == 0
            &&& r.oldest_entry is None
            &&& r.newest_entry is None
        },
{
    let mut total_entries: usize = 0;
    let mut total_size_bytes: u64 = 0;
    let mut oldest_entry: Option<String> = None;
    let mut newest_entry: Option<String> = None;
    if enabled && exists {
        let mut i: usize = 0;
        while i < listing.len()
            invariant
                i <= listing.len(),
                forall|j: int|
                    0 <= j < listing@.len() ==> (#[trigger] listing@[j]).path@.len() < i64::MAX,
                cache_size(listing@) <= u64::MAX,
                total_entries == cache_count(listing@.take(i as int)),
                total_entries <= i,
                total_size_bytes == cache_size(listing@.take(i as int)),
                opt_text(oldest_entry) == oldest_of(listing@.take(i as int)),
                opt_text(newest_entry) == newest_of(listing@.take(i as int)),
            decreases listing.len() - i,
        {
            let e = &listing[i];
            let ghost pre = listing@.take(i as int);
            assert(listing@.take(i + 1).drop_last() =~= pre);
            assert(listing@.take(i + 1).last() == listing@[i as int]);
            proof {
                lemma_cache_size_prefix(listing@, i + 1);
            }
            if is_cache_file(e.path.as_str()) {
                total_entries = total_entries + 1;
                match e.size {
                    Some(sz) => {
                        total_size_bytes = total_size_bytes + sz;
                        match e.modified_secs {
                            Some(secs) => {
                                let date = match rfc3339_of(secs as i64) {
                                    Some(d) => d,
                                    None => String::new(),
                                };
                                let older = match &oldest_entry {
                                    None => true,
                                    Some(o) => str_less(date.as_str(), o.as_str()),
                                };
                                if older {
                                    oldest_entry = Some(date.clone());
                                }
                                let newer = match &newest_entry {
                                    None => true,
                                    Some(n) => str_less(n.as_str(), date.as_str()),
                                };
                                if newer {
                                    newest_entry = Some(date);
                                }
                            },
                            None => {},
                        }
                    },
                    None => {},
                }
            }
            i = i + 1;
        }
        assert(listing@.take(listing@.len() as int) =~= listing@);
    }
    CacheStats {
        enabled,
        cache_dir: owned(cache_dir),
        total_entries,
        total_size_bytes,
        total_size_human: String::new(),
        oldest_entry,
        newest_entry,
    }
}

/// The unit a size is shown in: gigabytes from 1 GiB, megabytes from
/// 1 MiB, kilobytes from 1 KiB, else bytes; with the number of bytes in it.
pub open spec fn size_unit_spec(bytes: u64) -> (u64, Seq<char>) {
    if bytes >= 1073741824 {
        (1073741824, "GB"@)
    } else if bytes >= 1048576 {
        (1048576, "MB"@)
    } else if bytes >= 1024 {
        (1024, "KB"@)
    } else {
        (1, "B"@)
    }
}

/// The unit a size in bytes is shown in, and its size in bytes.  Showing
/// the quotient with two decimals is a floating-point rendering, the
/// caller's part.
pub fn size_unit(bytes: u64) -> (r: (u64, &'static str))
    ensures
        r.0 == size_unit_spec(bytes).0,
        r.1@ == size_unit_spec(bytes).1,
{
    if bytes >= 1073741824 {
        (1073741824, "GB")
    } else if bytes >= 1048576 {
        (1048576, "MB")
    } else if bytes >= 1024 {
        (1024, "KB")
    } else {
        (1, "B")
    }
}

} // verus!
