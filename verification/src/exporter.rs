//! The exporter: a cache shared behind one lock, updated by fetch outcomes
//! and read to render the response body.

use vstd::prelude::*;
use vstd::rwlock::RwLock;
use vstd::string::{StrSliceExecFns, StringExecFns};
use crate::cache::{cache_wf, CacheView, FetchOutcome, MetricsCache};
use crate::render::{render_snapshot, render_spec};

verus! {

/// The invariant every value stored in the cache lock satisfies.
pub open spec fn cache_lock_pred() -> spec_fn(MetricsCache) -> bool {
    |c: MetricsCache| cache_wf(c@)
}

/// The shared cache: one lock guards the three fields together. Reads and
/// writes each take the lock, so every observed snapshot is a whole triple,
/// never a partial update.
pub struct SharedCache {
    lock: RwLock<MetricsCache, spec_fn(MetricsCache) -> bool>,
}

impl SharedCache {
    /// The lock was set up with the cache invariant.
    pub closed spec fn wf(&self) -> bool {
        self.lock.pred() == cache_lock_pred()
    }

    /// A shared cache holding the initial state.
    pub fn new() -> (s: Self)
        ensures
            s.wf(),
    {
        let c = MetricsCache::new();
        proof {
            assert(cache_lock_pred()(c));
        }
        SharedCache { lock: RwLock::new(c, Ghost(cache_lock_pred())) }
    }

    /// An atomic snapshot of the full triple: text, reachability, error.
    /// Every snapshot satisfies the cache invariant.
    pub fn read(&self) -> (r: (String, bool, String))
        requires
            self.wf(),
        ensures
            cache_wf(CacheView { metrics_text: r.0@, reachable: r.1, last_error: r.2@ }),
    {
        let handle = self.lock.acquire_read();
        let r = handle.borrow().read();
        proof {
            assert(cache_lock_pred()(handle.view()));
            assert((CacheView { metrics_text: r.0@, reachable: r.1, last_error: r.2@ })
                =~= handle.view()@);
        }
        handle.release_read();
        r
    }

    /// Atomically replace the full triple. The caller keeps the invariant:
    /// a reachable state carries no error message.
    pub fn write(&self, text: String, reachable: bool, error: String)
        requires
            self.wf(),
            cache_wf(CacheView { metrics_text: text@, reachable: reachable, last_error: error@ }),
    {
        let (mut c, handle) = self.lock.acquire_write();
        c.write(text, reachable, error);
        proof {
            assert(c@ =~= (CacheView {
                metrics_text: text@,
                reachable: reachable,
                last_error: error@,
            }));
            assert(cache_lock_pred()(c));
        }
        handle.release_write(c);
    }

    /// Fold one fetch outcome into the cache under the lock: one atomic
    /// replacement of all three fields, never a partial update.
    pub fn apply_fetch(&self, outcome: &FetchOutcome)
        requires
            self.wf(),
    {
        let (mut c, handle) = self.lock.acquire_write();
        c.apply_fetch(outcome);
        proof {
            assert(cache_lock_pred()(c));
        }
        handle.release_write(c);
    }
}

/// The upstream metrics endpoint: the base URL with any trailing slash
/// removed, then `/metrics`.
pub open spec fn metrics_url_spec(base: Seq<char>) -> Seq<char> {
    (if base.len() > 0 && base.last() == '/' {
        base.drop_last()
    } else {
        base
    }) + "/metrics"@
}

/// Build the URL fetched from the upstream gateway.
pub fn metrics_url_of(base: &str) -> (u: String)
    ensures
        u@ == metrics_url_spec(base@),
{
    let n = base.unicode_len();
    let mut u = String::new();
    if n > 0 && base.get_char(n - 1) == '/' {
        u.append(base.substring_char(0, n - 1));
        proof {
            assert(base@.subrange(0, n - 1) =~= base@.drop_last());
        }
    } else {
        u.append(base);
    }
    u.append("/metrics");
    proof {
        assert(u@ =~= metrics_url_spec(base@));
    }
    u
}

/// Whether an HTTP status code counts as success (2xx).
pub fn status_is_success(code: u16) -> (r: bool)
    ensures
        r == (200 <= code && code < 300),
{
    200 <= code && code < 300
}

/// The exporter: owns the shared cache and the upstream base URL.
pub struct GodonExporter {
    cache: SharedCache,
    push_gateway_url: String,
}

impl GodonExporter {
    /// The cache lock carries its invariant.
    pub closed spec fn wf(&self) -> bool {
        self.cache.wf()
    }

    /// The configured upstream base URL.
    pub closed spec fn base_url(&self) -> Seq<char> {
        self.push_gateway_url@
    }

    /// An exporter for the given upstream base URL, with an empty,
    /// unreachable cache.
    pub fn new(push_gateway_url: String) -> (e: Self)
        ensures
            e.wf(),
            e.base_url() == push_gateway_url@,
    {
        GodonExporter { cache: SharedCache::new(), push_gateway_url }
    }

    /// The URL one fetch attempt targets.
    pub fn metrics_url(&self) -> (u: String)
        ensures
            u@ == metrics_url_spec(self.base_url()),
    {
        metrics_url_of(self.push_gateway_url.as_str())
    }

    /// Record the outcome of one upstream fetch in the shared cache, as one
    /// atomic replacement of the whole triple.
    pub fn apply_fetch_outcome(&self, outcome: &FetchOutcome)
        requires
            self.wf(),
    {
        self.cache.apply_fetch(outcome);
    }

    /// Render the response body from the current cache snapshot: the output
    /// is the rendering of one whole snapshot that satisfies the cache
    /// invariant — never a mixture of two updates.
    pub fn get_metrics_text(&self) -> (out: String)
        requires
            self.wf(),
        ensures
            exists|c: CacheView| cache_wf(c) && out@ == render_spec(c),
    {
        let (text, reachable, error) = self.cache.read();
        let out = render_snapshot(text.as_str(), reachable, error.as_str());
        proof {
            let c = CacheView { metrics_text: text@, reachable: reachable, last_error: error@ };
            assert(cache_wf(c) && out@ == render_spec(c));
        }
        out
    }
}

} // verus!
