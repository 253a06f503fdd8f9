//! The image cache model: a content-addressed map from URL to a downloaded
//! temp file, evicted by age and by count.  The surrounding application
//! performs the downloads and file operations; every bookkeeping decision —
//! what to evict, what to reuse, how to name a file — is made here.

use vstd::prelude::*;

use crate::content::{ImageData, ImageFormat};
use crate::errors::NotificationError;
use crate::text::{chars_of, str_eq, string_from_chars, to_decimal_u64};

verus! {

/// Entries older than this many milliseconds are evicted.
pub const CACHE_TTL_MILLIS: u64 = 3600000;

/// The most entries the cache holds after an eviction pass.
pub const MAX_CACHE_ENTRIES: usize = 100;

/// The largest download accepted, in bytes.
pub const MAX_IMAGE_BYTES: u64 = 10485760;

/// One cached download.
#[derive(Debug, Clone, PartialEq, Eq)]
pub struct CachedImage {
    /// The local temp file holding the bytes.
    pub path: String,
    /// When it was cached, milliseconds since the epoch.
    pub cached_at: u64,
}

/// An image resolved to a local file.
#[derive(Debug, Clone, PartialEq, Eq)]
pub struct ResolvedImage {
    /// The local file path.
    pub path: String,
    /// Whether the file is a temp file this library asked for.
    pub is_temp: bool,
    /// Where the image came from.
    pub original_url: String,
}

/// Whether an entry is still young enough to keep at time `now`.
pub open spec fn entry_fresh(e: CachedImage, now: u64) -> bool {
    now < e.cached_at || now - e.cached_at < CACHE_TTL_MILLIS
}

/// The first entry under `url` in the cache list.
pub open spec fn cache_get(m: Seq<(String, CachedImage)>, url: Seq<char>) -> Option<CachedImage>
    decreases m.len(),
{
    if m.len() == 0 {
        None
    } else if m[0].0@ == url {
        Some(m[0].1)
    } else {
        cache_get(m.drop_first(), url)
    }
}

/// The image cache: URL keys mapped to cached files, oldest evicted first.
#[derive(Debug, Clone)]
pub struct ImageCache {
    /// The entries, with distinct URL keys.
    pub entries: Vec<(String, CachedImage)>,
}

impl ImageCache {
    /// Distinct keys.
    pub open spec fn wf(self) -> bool {
        forall|i: int, j: int|
            0 <= i < j < self.entries@.len() ==> (#[trigger] self.entries@[i]).0@ != (
            #[trigger] self.entries@[j]).0@
    }

    /// An empty cache.
    pub fn new() -> (r: ImageCache)
        ensures
            r.entries@.len() == 0,
            r.wf(),
    {
        ImageCache { entries: Vec::new() }
    }

    /// The entry cached for `url`, if any.
    pub fn lookup(&self, url: &str) -> (r: Option<&CachedImage>)
        ensures
            match r {
                Some(e) => cache_get(self.entries@, url@) == Some(*e),
                None => cache_get(self.entries@, url@) is None,
            },
    {
        let n: usize = self.entries.len();
        let mut i: usize = 0;
        proof {
            assert(self.entries@.skip(0) =~= self.entries@);
        }
        while i < n
            invariant
                n == self.entries@.len(),
                i <= n,
                cache_get(self.entries@, url@) == cache_get(self.entries@.skip(i as int), url@),
            decreases n - i,
        {
            proof {
                assert(self.entries@.skip(i as int)[0] == self.entries@[i as int]);
                assert(self.entries@.skip(i as int).drop_first() =~= self.entries@.skip(
                    i as int + 1,
                ));
            }
            if str_eq(self.entries[i].0.as_str(), url) {
                return Some(&self.entries[i].1);
            }
            i = i + 1;
        }
        None
    }

    /// Evict every entry whose age has reached the TTL, then evict oldest
    /// first while more than `MAX_CACHE_ENTRIES` remain.  Returns the paths
    /// of the evicted files, for the caller to unlink.  Afterwards every
    /// surviving entry is fresh and an unmodified entry of the old cache;
    /// every old entry either survives or has its path among the returned
    /// ones; and count-eviction took the oldest first, so no fresh evicted
    /// entry is younger than any survivor.
    pub fn evict_stale(&mut self, now: u64) -> (removed: Vec<String>)
        requires
            old(self).wf(),
        ensures
            final(self).wf(),
            forall|k: int|
                0 <= k < final(self).entries@.len() ==> entry_fresh(
                    (#[trigger] final(self).entries@[k]).1,
                    now,
                ),
            final(self).entries@.len() <= MAX_CACHE_ENTRIES,
            final(self).entries@.len() + removed@.len() >= old(self).entries@.len(),
            // Survivors are entries of the old cache, unmodified.
            forall|k: int|
                0 <= k < final(self).entries@.len() ==> old(self).entries@.contains(
                    #[trigger] final(self).entries@[k],
                ),
            // Every old entry survives or has its path returned.
            forall|j: int|
                0 <= j < old(self).entries@.len() ==> (final(self).entries@.contains(
                    #[trigger] old(self).entries@[j],
                ) || removed@.contains(old(self).entries@[j].1.path)),
            // Oldest first: a fresh entry that was evicted is no younger
            // than any survivor.
            forall|j: int, k: int|
                0 <= j < old(self).entries@.len() && 0 <= k < final(self).entries@.len()
                    && entry_fresh((#[trigger] old(self).entries@[j]).1, now)
                    && !final(self).entries@.contains(old(self).entries@[j])
                    ==> old(self).entries@[j].1.cached_at
                    <= (#[trigger] final(self).entries@[k]).1.cached_at,
    {
        let ghost orig = self.entries@;
        let mut removed: Vec<String> = Vec::new();
        let mut kept: Vec<(String, CachedImage)> = Vec::new();
        let n: usize = self.entries.len();
        let mut i: usize = 0;
        while i < n
            invariant
                n == self.entries@.len(),
                self.entries@ == orig,
                i <= n,
                forall|a: int, b: int|
                    0 <= a < b < orig.len() ==> (#[trigger] orig[a]).0@ != (
                    #[trigger] orig[b]).0@,
                kept@.len() + removed@.len() == i,
                forall|k: int|
                    0 <= k < kept@.len() ==> entry_fresh((#[trigger] kept@[k]).1, now),
                forall|k: int| 0 <= k < kept@.len() ==> orig.contains(#[trigger] kept@[k]),
                forall|k: int|
                    0 <= k < kept@.len() ==> exists|j: int|
                        0 <= j < i && orig[j] == #[trigger] kept@[k],
                forall|j: int|
                    0 <= j < i ==> (kept@.contains(#[trigger] orig[j]) || removed@.contains(
                        orig[j].1.path,
                    )),
                forall|j: int|
                    0 <= j < i && entry_fresh((#[trigger] orig[j]).1, now) ==> kept@.contains(
                        orig[j],
                    ),
                forall|k1: int, k2: int|
                    0 <= k1 < k2 < kept@.len() ==> (#[trigger] kept@[k1]).0@ != (
                    #[trigger] kept@[k2]).0@,
            decreases n - i,
        {
            let fresh: bool = now < self.entries[i].1.cached_at || now
                - self.entries[i].1.cached_at < CACHE_TTL_MILLIS;
            if fresh {
                let entry: (String, CachedImage) = (
                    self.entries[i].0.clone(),
                    CachedImage {
                        path: self.entries[i].1.path.clone(),
                        cached_at: self.entries[i].1.cached_at,
                    },
                );
                proof {
                    assert(entry == orig[i as int]);
                }
                let ghost kept0 = kept@;
                kept.push(entry);
                proof {
                    assert(kept@.last() == orig[i as int]);
                    assert(kept@.contains(orig[i as int]));
                    assert forall|x: (String, CachedImage)| kept0.contains(x) implies kept@
                        .contains(x) by {
                        let k = choose|k: int| 0 <= k < kept0.len() && kept0[k] == x;
                        assert(kept@[k] == x);
                    }
                    assert forall|k1: int, k2: int|
                        0 <= k1 < k2 < kept@.len() implies (#[trigger] kept@[k1]).0@ != (
                    #[trigger] kept@[k2]).0@ by {
                        if k2 == kept@.len() - 1 {
                            let j1 = choose|j1: int|
                                0 <= j1 < i && orig[j1] == #[trigger] kept0[k1];
                            assert(orig[j1].0@ != orig[i as int].0@);
                        }
                    }
                }
            } else {
                let ghost removed0 = removed@;
                removed.push(self.entries[i].1.path.clone());
                proof {
                    assert(removed@.last() == orig[i as int].1.path);
                    assert(removed@.contains(orig[i as int].1.path));
                    assert forall|x: String| removed0.contains(x) implies removed@.contains(x)
                        by {
                        let k = choose|k: int| 0 <= k < removed0.len() && removed0[k] == x;
                        assert(removed@[k] == x);
                    }
                }
            }
            i = i + 1;
        }
        // Oldest-first eviction down to the bound.
        while kept.len() > MAX_CACHE_ENTRIES
            invariant
                forall|k: int|
                    0 <= k < kept@.len() ==> entry_fresh((#[trigger] kept@[k]).1, now),
                forall|k: int| 0 <= k < kept@.len() ==> orig.contains(#[trigger] kept@[k]),
                forall|j: int|
                    0 <= j < orig.len() ==> (kept@.contains(#[trigger] orig[j])
                        || removed@.contains(orig[j].1.path)),
                forall|j: int|
                    0 <= j < orig.len() && entry_fresh((#[trigger] orig[j]).1, now)
                        && !kept@.contains(orig[j]) ==> (forall|k: int|
                        0 <= k < kept@.len() ==> orig[j].1.cached_at <= (
                        #[trigger] kept@[k]).1.cached_at),
                forall|k1: int, k2: int|
                    0 <= k1 < k2 < kept@.len() ==> (#[trigger] kept@[k1]).0@ != (
                    #[trigger] kept@[k2]).0@,
                kept@.len() + removed@.len() >= orig.len(),
            decreases kept@.len(),
        {
            // Index of the oldest entry.
            let m: usize = kept.len();
            let mut oldest: usize = 0;
            let mut j: usize = 1;
            while j < m
                invariant
                    m == kept@.len(),
                    m >= 1,
                    j <= m,
                    oldest < m,
                    forall|t: int|
                        0 <= t < j ==> kept@[oldest as int].1.cached_at <= (
                        #[trigger] kept@[t]).1.cached_at,
                decreases m - j,
            {
                if kept[j].1.cached_at < kept[oldest].1.cached_at {
                    oldest = j;
                }
                j = j + 1;
            }
            let ghost before = kept@;
            let evicted: (String, CachedImage) = kept.remove(oldest);
            let ghost removed0 = removed@;
            removed.push(evicted.1.path.clone());
            proof {
                assert(kept@ =~= before.subrange(0, oldest as int) + before.skip(
                    oldest as int + 1,
                ));
                // Indexing through the removal.
                assert forall|k: int|
                    0 <= k < kept@.len() implies #[trigger] kept@[k] == before[
                    if k < oldest {
                        k
                    } else {
                        k + 1
                    }
                ] by {}
                // The per-element facts carry over.
                assert forall|k: int|
                    0 <= k < kept@.len() implies entry_fresh((#[trigger] kept@[k]).1, now)
                        && orig.contains(kept@[k]) by {}
                assert forall|k1: int, k2: int|
                    0 <= k1 < k2 < kept@.len() implies (#[trigger] kept@[k1]).0@ != (
                #[trigger] kept@[k2]).0@ by {}
                // The returned paths grew by the evicted entry's path.
                assert(removed@.last() == before[oldest as int].1.path);
                assert(removed@.contains(before[oldest as int].1.path));
                assert forall|x: String| removed0.contains(x) implies removed@.contains(x) by {
                    let k = choose|k: int| 0 <= k < removed0.len() && removed0[k] == x;
                    assert(removed@[k] == x);
                }
                // Membership in the shrunken list implies membership before.
                assert forall|x: (String, CachedImage)| kept@.contains(x) implies before
                    .contains(x) by {
                    let k = choose|k: int| 0 <= k < kept@.len() && kept@[k] == x;
                    assert(before[
                        if k < oldest {
                            k
                        } else {
                            k + 1
                        }
                    ] == x);
                }
                // Coverage: an old entry no longer kept is the evicted one,
                // whose path was just returned.
                assert forall|j2: int|
                    0 <= j2 < orig.len() implies (kept@.contains(#[trigger] orig[j2])
                        || removed@.contains(orig[j2].1.path)) by {
                    if before.contains(orig[j2]) && !kept@.contains(orig[j2]) {
                        let kb = choose|kb: int|
                            0 <= kb < before.len() && before[kb] == orig[j2];
                        if kb != oldest {
                            let ka: int = if kb < oldest {
                                kb
                            } else {
                                kb - 1
                            };
                            assert(kept@[ka] == before[kb]);
                        }
                        assert(orig[j2] == before[oldest as int]);
                    }
                }
                // Oldest first: fresh entries no longer kept are no younger
                // than anything still kept.
                assert forall|j2: int, k: int|
                    0 <= j2 < orig.len() && 0 <= k < kept@.len() && entry_fresh(
                        (#[trigger] orig[j2]).1,
                        now,
                    ) && !kept@.contains(orig[j2]) implies orig[j2].1.cached_at <= (
                #[trigger] kept@[k]).1.cached_at by {
                    if before.contains(orig[j2]) {
                        // It must be the entry evicted this round: anything
                        // else still kept would contradict non-membership.
                        let kb = choose|kb: int|
                            0 <= kb < before.len() && before[kb] == orig[j2];
                        if kb != oldest {
                            let ka: int = if kb < oldest {
                                kb
                            } else {
                                kb - 1
                            };
                            assert(kept@[ka] == before[kb]);
                        }
                        assert(orig[j2] == before[oldest as int]);
                        assert(before[oldest as int].1.cached_at <= kept@[k].1.cached_at);
                    } else {
                        assert(orig[j2].1.cached_at <= before[
                            if k < oldest {
                                k
                            } else {
                                k + 1
                            }
                        ].1.cached_at);
                    }
                }
            }
        }
        self.entries = kept;
        proof {
            assert(self.entries@.len() + removed@.len() >= orig.len());
        }
        removed
    }

    /// Record a download under its URL, replacing any previous entry.
    /// Returns the replaced entry's path, if any, for the caller to unlink.
    pub fn insert(&mut self, url: &str, path: String, now: u64) -> (replaced: Option<String>)
        requires
            old(self).wf(),
        ensures
            final(self).wf(),
            cache_get(final(self).entries@, url@) matches Some(e) && e.path == path
                && e.cached_at == now,
            final(self).entries@.len() <= old(self).entries@.len() + 1,
    {
        let ghost orig = self.entries@;
        let entry: CachedImage = CachedImage { path, cached_at: now };
        let mut kept: Vec<(String, CachedImage)> = Vec::new();
        let mut replaced: Option<String> = None;
        let n: usize = self.entries.len();
        let mut i: usize = 0;
        while i < n
            invariant
                n == self.entries@.len(),
                self.entries@ == orig,
                forall|a: int, b: int|
                    0 <= a < b < orig.len() ==> (#[trigger] orig[a]).0@ != (
                    #[trigger] orig[b]).0@,
                i <= n,
                kept@.len() <= i,
                forall|k: int| 0 <= k < kept@.len() ==> (#[trigger] kept@[k]).0@ != url@,
                forall|k: int|
                    0 <= k < kept@.len() ==> exists|j: int|
                        0 <= j < i && (#[trigger] kept@[k]).0@ == orig[j].0@,
                forall|k1: int, k2: int|
                    0 <= k1 < k2 < kept@.len() ==> (#[trigger] kept@[k1]).0@ != (
                    #[trigger] kept@[k2]).0@,
            decreases n - i,
        {
            if str_eq(self.entries[i].0.as_str(), url) {
                replaced = Some(self.entries[i].1.path.clone());
            } else {
                let ghost kept0 = kept@;
                let item: (String, CachedImage) = (
                    self.entries[i].0.clone(),
                    CachedImage {
                        path: self.entries[i].1.path.clone(),
                        cached_at: self.entries[i].1.cached_at,
                    },
                );
                kept.push(item);
                proof {
                    assert forall|k1: int, k2: int|
                        0 <= k1 < k2 < kept@.len() implies (#[trigger] kept@[k1]).0@ != (
                    #[trigger] kept@[k2]).0@ by {
                        if k2 == kept@.len() - 1 {
                            let j1 = choose|j1: int|
                                0 <= j1 < i && (#[trigger] kept0[k1]).0@ == orig[j1].0@;
                            assert(orig[j1].0@ != orig[i as int].0@);
                        }
                    }
                }
            }
            i = i + 1;
        }
        let ghost before = kept@;
        kept.push((url.to_owned(), entry));
        proof {
            lemma_cache_get_push_hit(before, url@, kept@.last().1);
            assert forall|k1: int, k2: int|
                0 <= k1 < k2 < kept@.len() implies (#[trigger] kept@[k1]).0@ != (
            #[trigger] kept@[k2]).0@ by {
                if k2 == kept@.len() - 1 {
                    assert(kept@[k1] == before[k1]);
                } else {
                    assert(kept@[k1] == before[k1]);
                    assert(kept@[k2] == before[k2]);
                }
            }
        }
        self.entries = kept;
        replaced
    }

    /// Forget the entry under `url`, returning its path for the caller to
    /// unlink.
    pub fn remove(&mut self, url: &str) -> (r: Option<String>)
        requires
            old(self).wf(),
        ensures
            final(self).wf(),
            final(self).entries@.len() <= old(self).entries@.len(),
    {
        let n: usize = self.entries.len();
        let mut i: usize = 0;
        while i < n
            invariant
                n == self.entries@.len(),
                self.entries@ == old(self).entries@,
                old(self).wf(),
                i <= n,
            decreases n - i,
        {
            if str_eq(self.entries[i].0.as_str(), url) {
                let ghost before = self.entries@;
                let entry: (String, CachedImage) = self.entries.remove(i);
                proof {
                    assert(self.entries@ =~= before.subrange(0, i as int) + before.skip(
                        i as int + 1,
                    ));
                    assert forall|i1: int, j1: int|
                        0 <= i1 < j1 < self.entries@.len() implies (
                    #[trigger] self.entries@[i1]).0@ != (#[trigger] self.entries@[j1]).0@ by {
                        let b1: int = if i1 < i {
                            i1
                        } else {
                            i1 + 1
                        };
                        let b2: int = if j1 < i {
                            j1
                        } else {
                            j1 + 1
                        };
                        assert(self.entries@[i1] == before[b1]);
                        assert(self.entries@[j1] == before[b2]);
                    }
                }
                return Some(entry.1.path);
            }
            i = i + 1;
        }
        None
    }

    /// Drop every entry, returning all cached paths for the caller to
    /// unlink.
    pub fn clear_all(&mut self) -> (paths: Vec<String>)
        ensures
            final(self).entries@.len() == 0,
            final(self).wf(),
            paths@.len() == old(self).entries@.len(),
            forall|k: int|
                0 <= k < paths@.len() ==> #[trigger] paths@[k] == old(
                    self,
                ).entries@[k].1.path,
    {
        let mut paths: Vec<String> = Vec::new();
        let n: usize = self.entries.len();
        let mut i: usize = 0;
        while i < n
            invariant
                n == self.entries@.len(),
                self.entries@ == old(self).entries@,
                i <= n,
                paths@.len() == i,
                forall|k: int|
                    0 <= k < i ==> #[trigger] paths@[k] == old(self).entries@[k].1.path,
            decreases n - i,
        {
            paths.push(self.entries[i].1.path.clone());
            i = i + 1;
        }
        self.entries = Vec::new();
        paths
    }
}

proof fn lemma_cache_get_set(
    before: Seq<(String, CachedImage)>,
    after: Seq<(String, CachedImage)>,
    i: int,
    url: Seq<char>,
)
    requires
        0 <= i < before.len(),
        after =~= before.update(i, (after[i].0, after[i].1)),
        after[i].0@ == url,
        before[i].0@ == url,
        forall|j: int| 0 <= j < i ==> (#[trigger] before[j]).0@ != url,
    ensures
        cache_get(after, url) == Some(after[i].1),
    decreases i,
{
    if i == 0 {
    } else {
        assert(after[0] == before[0]);
        assert(after.drop_first() =~= before.drop_first().update(i - 1, (after[i].0, after[i].1)));
        assert(forall|j: int|
            0 <= j < i - 1 ==> (#[trigger] before.drop_first()[j]).0@ != url);
        lemma_cache_get_set(before.drop_first(), after.drop_first(), i - 1, url);
    }
}

proof fn lemma_cache_get_push_hit(m: Seq<(String, CachedImage)>, url: Seq<char>, e: CachedImage)
    requires
        forall|j: int| 0 <= j < m.len() ==> (#[trigger] m[j]).0@ != url,
    ensures
        forall|key: String|
            key@ == url ==> cache_get(#[trigger] m.push((key, e)), url) == Some(e),
    decreases m.len(),
{
    assert forall|key: String| key@ == url implies cache_get(
        #[trigger] m.push((key, e)),
        url,
    ) == Some(e) by {
        if m.len() == 0 {
            assert(m.push((key, e))[0] == (key, e));
        } else {
            assert(m.push((key, e))[0] == m[0]);
            assert(m[0].0@ != url);
            assert(m.push((key, e)).drop_first() =~= m.drop_first().push((key, e)));
            assert(forall|j: int|
                0 <= j < m.drop_first().len() ==> (#[trigger] m.drop_first()[j]).0@ != url);
            lemma_cache_get_push_hit(m.drop_first(), url, e);
        }
    }
}

// ---------------------------------------------------------------------------
// Resolution decisions
// ---------------------------------------------------------------------------

/// What the application should do to resolve one image source.
#[derive(Debug, Clone)]
pub enum ResolveAction {
    /// The source is a local file at this path; no copy is made.
    UseLocalFile { path: String, original_url: String },
    /// The source is remote; download this URL.
    Download { url: String },
    /// The source is embedded; write the bytes to a temp file with this
    /// extension.
    WriteEmbedded { extension: String },
    /// The source cannot be resolved here (a system icon or an unsupported
    /// scheme).
    NoImage,
    /// The source is invalid and resolution must fail.
    Invalid { error: NotificationError },
}

/// The scheme of a URL: the text before the first `"://"`, lower-cased by
/// the caller's convention (schemes here are compared verbatim).
pub open spec fn spec_has_scheme(u: Seq<char>, scheme: Seq<char>) -> bool {
    u.len() >= scheme.len() + 3 && u.subrange(0, scheme.len() as int) == scheme && u.subrange(
        scheme.len() as int,
        scheme.len() as int + 3,
    ) == seq![':', '/', '/']
}

/// Does `u` start with `scheme` followed by `://`?
pub fn has_scheme(u: &str, scheme: &str) -> (r: bool)
    ensures
        r == spec_has_scheme(u@, scheme@),
{
    let uc: Vec<char> = chars_of(u);
    let sc: Vec<char> = chars_of(scheme);
    let slen: usize = sc.len();
    if uc.len() < 3 || uc.len() - 3 < slen {
        return false;
    }
    let mut k: usize = 0;
    while k < slen
        invariant
            slen == scheme@.len(),
            sc@ == scheme@,
            uc@ == u@,
            slen + 3 <= u@.len(),
            k <= slen,
            forall|t: int| 0 <= t < k ==> u@[t] == scheme@[t],
        decreases slen - k,
    {
        if uc[k] != sc[k] {
            proof {
                if spec_has_scheme(u@, scheme@) {
                    assert(u@.subrange(0, slen as int)[k as int] == scheme@[k as int]);
                }
            }
            return false;
        }
        k = k + 1;
    }
    let sep_ok: bool = uc[slen] == ':' && uc[slen + 1] == '/' && uc[slen + 2] == '/';
    proof {
        assert(u@.subrange(0, slen as int) =~= scheme@);
        if sep_ok {
            assert(u@.subrange(slen as int, slen as int + 3) =~= seq![':', '/', '/']);
        } else {
            if spec_has_scheme(u@, scheme@) {
                assert(u@.subrange(slen as int, slen as int + 3)[0] == u@[slen as int]);
                assert(u@.subrange(slen as int, slen as int + 3)[1] == u@[slen as int + 1]);
                assert(u@.subrange(slen as int, slen as int + 3)[2] == u@[slen as int + 2]);
            }
        }
    }
    sep_ok
}

/// The text after `scheme://`.
fn strip_scheme(u: &str, scheme: &str) -> (r: String)
    requires
        spec_has_scheme(u@, scheme@),
    ensures
        r@ == u@.skip(scheme@.len() as int + 3),
{
    let uc: Vec<char> = chars_of(u);
    let sc: Vec<char> = chars_of(scheme);
    let ulen: usize = uc.len();
    let slen: usize = sc.len();
    proof {
        assert(scheme@.len() + 3 <= u@.len());
        assert(slen + 3 <= ulen);
    }
    let start: usize = slen + 3;
    let mut out: Vec<char> = Vec::new();
    let mut i: usize = start;
    while i < uc.len()
        invariant
            uc@ == u@,
            start == scheme@.len() + 3,
            start <= u@.len(),
            start <= i <= u@.len(),
            out@ == u@.subrange(start as int, i as int),
        decreases u@.len() - i,
    {
        out.push(uc[i]);
        i = i + 1;
        proof {
            assert(out@ =~= u@.subrange(start as int, i as int));
        }
    }
    proof {
        assert(out@ =~= u@.skip(start as int));
    }
    string_from_chars(&out)
}

/// The temp-file extension for an embedded image format.
pub fn embedded_extension(format: &ImageFormat) -> (r: &'static str)
    ensures
        *format is Png ==> r@ == "png"@,
        *format is Jpeg ==> r@ == "jpg"@,
        *format is Gif ==> r@ == "gif"@,
        *format is WebP ==> r@ == "webp"@,
        *format is Svg ==> r@ == "svg"@,
        *format is Ico ==> r@ == "ico"@,
{
    match format {
        ImageFormat::Png => "png",
        ImageFormat::Jpeg => "jpg",
        ImageFormat::Gif => "gif",
        ImageFormat::WebP => "webp",
        ImageFormat::Svg => "svg",
        ImageFormat::Ico => "ico",
    }
}

/// Decide how to resolve one image source: a file path or `file` URL is
/// used in place, `http`/`https` URLs are downloaded, embedded bytes are
/// written out when non-empty and in a supported format, system icons and
/// unknown schemes resolve to nothing.
pub fn resolve_plan(data: &ImageData) -> (r: ResolveAction)
    ensures
        (match *data {
            ImageData::File(p) => r matches ResolveAction::UseLocalFile { path, original_url }
                && path == p && original_url@ == "file://"@ + p@,
            ImageData::Url(_) => r is UseLocalFile || r is Download || r is NoImage,
            ImageData::Embedded { data: bytes, format } => if bytes@.len() > 0
                && format.spec_supported() {
                r matches ResolveAction::WriteEmbedded { extension } && extension@ == (
                match format {
                    ImageFormat::Png => "png"@,
                    ImageFormat::Jpeg => "jpg"@,
                    ImageFormat::Gif => "gif"@,
                    ImageFormat::WebP => "webp"@,
                    ImageFormat::Svg => "svg"@,
                    ImageFormat::Ico => "ico"@,
                })
            } else {
                r matches ResolveAction::Invalid { error } && (error
                    matches NotificationError::ValidationError { field, .. } && (if bytes@.len()
                    == 0 {
                    field@ == "image_data"@
                } else {
                    field@ == "image_format"@
                }))
            },
            ImageData::SystemIcon(_) => r is NoImage,
        }),
        (match *data {
            ImageData::Url(u) => {
                &&& ((spec_has_scheme(u@, "http"@) || spec_has_scheme(u@, "https"@)) ==> (
                r matches ResolveAction::Download { url } && url == u))
                &&& (spec_has_scheme(u@, "file"@) ==> (r matches ResolveAction::UseLocalFile {
                    path,
                    original_url,
                } && path@ == u@.skip("file"@.len() as int + 3) && original_url == u))
            },
            _ => true,
        }),
{
    match data {
        ImageData::File(path) => {
            let mut original_url: String = String::new();
            crate::text::append_str(&mut original_url, "file://");
            crate::text::append_str(&mut original_url, path.as_str());
            ResolveAction::UseLocalFile { path: path.clone(), original_url }
        },
        ImageData::Url(url) => {
            if has_scheme(url.as_str(), "file") {
                proof {
                    reveal_strlit("file");
                    reveal_strlit("http");
                    reveal_strlit("https");
                    assert(url@.subrange(0, 4)[0] == url@[0]);
                    if spec_has_scheme(url@, "http"@) {
                        assert(url@.subrange(0, 4)[0] == url@[0]);
                        assert(url@[0] == 'h');
                        assert(url@[0] == 'f');
                    }
                    if spec_has_scheme(url@, "https"@) {
                        assert(url@.subrange(0, 5)[0] == url@[0]);
                        assert(url@[0] == 'h');
                        assert(url@[0] == 'f');
                    }
                }
                ResolveAction::UseLocalFile {
                    path: strip_scheme(url.as_str(), "file"),
                    original_url: url.clone(),
                }
            } else if has_scheme(url.as_str(), "http") || has_scheme(url.as_str(), "https") {
                proof {
                    reveal_strlit("file");
                    reveal_strlit("http");
                    reveal_strlit("https");
                    if spec_has_scheme(url@, "file"@) {
                        assert(url@.subrange(0, 4)[0] == url@[0]);
                        assert(url@[0] == 'f');
                        if spec_has_scheme(url@, "http"@) {
                            assert(url@.subrange(0, 4)[0] == url@[0]);
                            assert(url@[0] == 'h');
                        }
                        if spec_has_scheme(url@, "https"@) {
                            assert(url@.subrange(0, 5)[0] == url@[0]);
                            assert(url@[0] == 'h');
                        }
                    }
                }
                ResolveAction::Download { url: url.clone() }
            } else {
                ResolveAction::NoImage
            }
        },
        ImageData::Embedded { data: bytes, format } => {
            if bytes.len() == 0 {
                ResolveAction::Invalid {
                    error: NotificationError::ValidationError {
                        field: "image_data".to_owned(),
                        message: "Embedded image data cannot be empty".to_owned(),
                    },
                }
            } else if !format.is_supported() {
                ResolveAction::Invalid {
                    error: NotificationError::ValidationError {
                        field: "image_format".to_owned(),
                        message: "Unsupported image format".to_owned(),
                    },
                }
            } else {
                ResolveAction::WriteEmbedded {
                    extension: embedded_extension(format).to_owned(),
                }
            }
        },
        ImageData::SystemIcon(_) => ResolveAction::NoImage,
    }
}

// ---------------------------------------------------------------------------
// Download validation and file naming
// ---------------------------------------------------------------------------

/// Validate a download before and after reading the body: a non-success
/// status fails, a declared length over the cap fails, a body under eight
/// bytes fails.
pub fn check_download(status_success: bool, content_length: Option<u64>, body_len: usize) -> (r:
    Result<(), NotificationError>)
    ensures
        r is Ok <==> (status_success && (match content_length {
            Some(len) => len <= MAX_IMAGE_BYTES,
            None => true,
        }) && body_len >= 8),
        r is Err ==> (r matches Err(NotificationError::ResourceError { resource_type, .. })
            && resource_type@ == "image"@),
{
    if !status_success {
        return Err(
            NotificationError::ResourceError {
                resource_type: "image".to_owned(),
                resource_id: String::new(),
                message: "HTTP error downloading image".to_owned(),
            },
        );
    }
    match content_length {
        Some(len) => {
            if len > MAX_IMAGE_BYTES {
                return Err(
                    NotificationError::ResourceError {
                        resource_type: "image".to_owned(),
                        resource_id: String::new(),
                        message: "Image too large".to_owned(),
                    },
                );
            }
        },
        None => {},
    }
    if body_len < 8 {
        return Err(
            NotificationError::ResourceError {
                resource_type: "image".to_owned(),
                resource_id: String::new(),
                message: "Downloaded image is too small to be valid".to_owned(),
            },
        );
    }
    Ok(())
}

/// The position of the last `'.'` in `s`; meaningful only when one occurs.
pub open spec fn last_dot(s: Seq<char>) -> int
    decreases s.len(),
{
    if s.len() == 0 {
        0
    } else if s.last() == '.' {
        s.len() - 1
    } else {
        last_dot(s.drop_last())
    }
}

/// Does a dot occur in `s`?
pub open spec fn has_dot(s: Seq<char>) -> bool {
    exists|k: int| 0 <= k < s.len() && s[k] == '.'
}

proof fn lemma_last_dot(s: Seq<char>)
    requires
        has_dot(s),
    ensures
        0 <= last_dot(s) < s.len(),
        s[last_dot(s)] == '.',
        forall|j: int| last_dot(s) < j < s.len() ==> s[j] != '.',
    decreases s.len(),
{
    if s.last() != '.' {
        assert(has_dot(s.drop_last())) by {
            let k = choose|k: int| 0 <= k < s.len() && s[k] == '.';
            assert(s.drop_last()[k] == '.');
        }
        lemma_last_dot(s.drop_last());
        assert(s[last_dot(s)] == s.drop_last()[last_dot(s)]);
        assert forall|j: int| last_dot(s) < j < s.len() implies s[j] != '.' by {
            if j < s.len() - 1 {
                assert(s.drop_last()[j] == s[j]);
            }
        }
    }
}

/// The extension taken from the last path segment: the text after its last
/// dot, lower-cased, when present, non-empty and at most four characters.
pub fn extension_from_segment(segment: &str) -> (r: Option<String>)
    ensures
        r is Some <==> (has_dot(segment@) && 1 <= segment@.len() - 1 - last_dot(segment@) <= 4),
        r matches Some(e) ==> e@.len() == segment@.len() - 1 - last_dot(segment@),
{
    let cs: Vec<char> = chars_of(segment);
    let n: usize = cs.len();
    // The last dot.
    let mut dot: Option<usize> = None;
    let mut i: usize = 0;
    while i < n
        invariant
            n == segment@.len(),
            cs@ == segment@,
            i <= n,
            match dot {
                Some(d) => d < i && segment@[d as int] == '.' && (forall|j: int|
                    d < j < i ==> segment@[j] != '.'),
                None => forall|j: int| 0 <= j < i ==> segment@[j] != '.',
            },
        decreases n - i,
    {
        if cs[i] == '.' {
            dot = Some(i);
        }
        i = i + 1;
    }
    match dot {
        Some(d) => {
            proof {
                assert(has_dot(segment@));
                lemma_last_dot(segment@);
                assert(last_dot(segment@) == d) by {
                    if last_dot(segment@) > d {
                        assert(segment@[last_dot(segment@)] == '.');
                    }
                    if last_dot(segment@) < d {
                        assert(segment@[d as int] == '.');
                    }
                }
            }
            let ext_len: usize = n - d - 1;
            if ext_len == 0 || ext_len > 4 {
                return None;
            }
            let mut out: Vec<char> = Vec::new();
            let mut j: usize = d + 1;
            while j < n
                invariant
                    n == segment@.len(),
                    cs@ == segment@,
                    d < j <= n,
                    out@.len() == j - d - 1,
                decreases n - j,
            {
                out.push(crate::html::to_lower_char(cs[j]));
                j = j + 1;
            }
            Some(string_from_chars(&out))
        },
        None => {
            proof {
                if has_dot(segment@) {
                    let k = choose|k: int| 0 <= k < segment@.len() && segment@[k] == '.';
                    assert(segment@[k] != '.');
                }
            }
            None
        },
    }
}

/// Whether `pat` occurs anywhere in `s`.
pub open spec fn spec_contains_text(s: Seq<char>, pat: Seq<char>) -> bool {
    exists|k: int| 0 <= k <= s.len() - pat.len() && #[trigger] s.subrange(k, k + pat.len()) == pat
}

/// The extension a `Content-Type` header implies, tested most specific
/// first: PNG, JPEG, GIF, WebP, SVG, icons, BMP, TIFF, defaulting to PNG.
pub open spec fn spec_content_type_extension(ct: Seq<char>) -> Seq<char> {
    if spec_contains_text(ct, "image/png"@) {
        "png"@
    } else if spec_contains_text(ct, "image/jpeg"@) || spec_contains_text(ct, "image/jpg"@) {
        "jpg"@
    } else if spec_contains_text(ct, "image/gif"@) {
        "gif"@
    } else if spec_contains_text(ct, "image/webp"@) {
        "webp"@
    } else if spec_contains_text(ct, "image/svg"@) {
        "svg"@
    } else if spec_contains_text(ct, "image/x-icon"@) || spec_contains_text(
        ct,
        "image/vnd.microsoft.icon"@,
    ) {
        "ico"@
    } else if spec_contains_text(ct, "image/bmp"@) {
        "bmp"@
    } else if spec_contains_text(ct, "image/tiff"@) {
        "tiff"@
    } else {
        "png"@
    }
}

/// The extension implied by a `Content-Type` header.
pub fn extension_from_content_type(content_type: &str) -> (r: &'static str)
    ensures
        r@ == spec_content_type_extension(content_type@),
{
    if contains_text(content_type, "image/png") {
        "png"
    } else if contains_text(content_type, "image/jpeg") || contains_text(
        content_type,
        "image/jpg",
    ) {
        "jpg"
    } else if contains_text(content_type, "image/gif") {
        "gif"
    } else if contains_text(content_type, "image/webp") {
        "webp"
    } else if contains_text(content_type, "image/svg") {
        "svg"
    } else if contains_text(content_type, "image/x-icon") || contains_text(
        content_type,
        "image/vnd.microsoft.icon",
    ) {
        "ico"
    } else if contains_text(content_type, "image/bmp") {
        "bmp"
    } else if contains_text(content_type, "image/tiff") {
        "tiff"
    } else {
        "png"
    }
}

/// Does `pat` occur anywhere in `s`?
pub fn contains_text(s: &str, pat: &str) -> (r: bool)
    ensures
        r == spec_contains_text(s@, pat@),
{
    let sc: Vec<char> = chars_of(s);
    let pc: Vec<char> = chars_of(pat);
    let n: usize = sc.len();
    let plen: usize = pc.len();
    if plen > n {
        proof {
            if exists|k: int|
                0 <= k <= s@.len() - pat@.len() && #[trigger] s@.subrange(k, k + pat@.len())
                    == pat@ {
                let k = choose|k: int|
                    0 <= k <= s@.len() - pat@.len() && #[trigger] s@.subrange(
                        k,
                        k + pat@.len(),
                    ) == pat@;
                assert(k <= s@.len() - pat@.len());
            }
        }
        return false;
    }
    if plen == 0 {
        proof {
            assert(s@.subrange(0, 0 + pat@.len() as int) =~= pat@);
            assert(exists|k: int|
                0 <= k <= s@.len() - pat@.len() && #[trigger] s@.subrange(k, k + pat@.len())
                    == pat@) by {
                assert(0 <= 0 <= s@.len() - pat@.len());
                assert(s@.subrange(0, 0 + pat@.len() as int) == pat@);
            }
        }
        return true;
    }
    let limit: usize = n - plen;
    let mut i: usize = 0;
    while i <= limit
        invariant
            n == s@.len(),
            plen == pat@.len(),
            sc@ == s@,
            pc@ == pat@,
            plen <= n,
            limit == n - plen,
            1 <= plen,
            i <= limit + 1,
            forall|k: int| 0 <= k < i ==> #[trigger] s@.subrange(k, k + pat@.len()) != pat@,
        decreases limit + 1 - i,
    {
        let mut j: usize = 0;
        let mut found: bool = true;
        while j < plen
            invariant
                n == s@.len(),
                plen == pat@.len(),
                sc@ == s@,
                pc@ == pat@,
                i + plen <= n,
                j <= plen,
                found ==> forall|t: int| 0 <= t < j ==> s@[i + t] == pat@[t],
                !found ==> s@.subrange(i as int, i as int + plen as int) != pat@,
            decreases plen - j,
        {
            if sc[i + j] != pc[j] {
                proof {
                    if s@.subrange(i as int, i as int + plen as int) == pat@ {
                        assert(s@.subrange(i as int, i as int + plen as int)[j as int]
                            == s@[i + j]);
                    }
                }
                found = false;
                j = plen;
            } else {
                j = j + 1;
            }
        }
        if found {
            proof {
                assert(s@.subrange(i as int, i as int + plen as int) =~= pat@) by {
                    assert forall|t: int| 0 <= t < plen implies s@.subrange(
                        i as int,
                        i as int + plen as int,
                    )[t] == pat@[t] by {
                        assert(s@.subrange(i as int, i as int + plen as int)[t] == s@[i + t]);
                    }
                }
            }
            return true;
        }
        i = i + 1;
    }
    proof {
        if exists|k: int|
            0 <= k <= s@.len() - pat@.len() && #[trigger] s@.subrange(k, k + pat@.len())
                == pat@ {
            let k = choose|k: int|
                0 <= k <= s@.len() - pat@.len() && #[trigger] s@.subrange(k, k + pat@.len())
                    == pat@;
            assert(k < i);
        }
    }
    false
}

/// A temp-file name for a download: the decimal tag dot extension.
pub fn temp_file_name(tag: u64, extension: &str) -> (r: String)
    ensures
        r@ == crate::text::dec_of(tag as nat) + seq!['.'] + extension@,
{
    let mut out: String = to_decimal_u64(tag);
    crate::text::append_str(&mut out, ".");
    crate::text::append_str(&mut out, extension);
    proof {
        reveal_strlit(".");
        assert(out@ =~= crate::text::dec_of(tag as nat) + seq!['.'] + extension@);
    }
    out
}

} // verus!
