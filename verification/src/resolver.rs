use vstd::prelude::*;

use crate::errors::ResolveError;
use crate::text::{spec_split, str_eq};
use crate::uri::{
    parse_uri, query_split, scheme_split, spec_local_path, spec_version_of, spec_wapm_url,
    strip_authority_marker, wapm_url, ResolvableUri,
};

verus! {

/// How the resolver decides whether a cached payload is still fresh.
#[derive(Debug, Copy, Clone, PartialEq, Eq, Structural)]
pub enum CachingStrategy {
    /// Ask the server with a conditional request whether the cached value
    /// is still valid before serving it.
    Etags,
    /// A cached value is fresh forever once a response has been stored.
    Url,
    /// Cached values are always stale.
    Never,
}

/// The strategy named by its kebab-case rendering, if it names one.
pub open spec fn spec_strategy_from(s: Seq<char>) -> Option<CachingStrategy> {
    if s == "etags"@ {
        Some(CachingStrategy::Etags)
    } else if s == "url"@ {
        Some(CachingStrategy::Url)
    } else if s == "never"@ {
        Some(CachingStrategy::Never)
    } else {
        None
    }
}

impl CachingStrategy {
    /// Read a strategy from its kebab-case name.
    pub fn from_kebab(s: &str) -> (r: Option<CachingStrategy>)
        ensures
            r == spec_strategy_from(s@),
    {
        if str_eq(s, "etags") {
            Some(CachingStrategy::Etags)
        } else if str_eq(s, "url") {
            Some(CachingStrategy::Url)
        } else if str_eq(s, "never") {
            Some(CachingStrategy::Never)
        } else {
            None
        }
    }
}

/// A cached payload together with the validator the server supplied.
#[derive(Debug, Clone)]
pub struct Bucket {
    pub data: Vec<u8>,
    pub etag: String,
}

/// The mathematical content of a [`Bucket`].
pub struct BucketView {
    pub data: Seq<u8>,
    pub etag: Seq<char>,
}

impl View for Bucket {
    type V = BucketView;

    open spec fn view(&self) -> BucketView {
        BucketView { data: self.data@, etag: self.etag@ }
    }
}

/// The first bucket stored under `url`, if any.
pub open spec fn spec_find(s: Seq<(Seq<char>, BucketView)>, url: Seq<char>) -> Option<BucketView>
    decreases s.len(),
{
    if s.len() == 0 {
        None
    } else if s[0].0 == url {
        Some(s[0].1)
    } else {
        spec_find(s.drop_first(), url)
    }
}

/// No two stored buckets share a URL.
pub open spec fn unique_keys(s: Seq<(Seq<char>, BucketView)>) -> bool {
    forall|i: int, j: int| 0 <= i < j < s.len() ==> s[i].0 != s[j].0
}

/// An in-memory download cache keyed by the exact URL string, consulted
/// under a resolver-wide [`CachingStrategy`].
#[derive(Debug)]
pub struct Cache {
    pub entries: Vec<(String, Bucket)>,
    pub strategy: CachingStrategy,
}

impl Cache {
    /// The stored URL/bucket pairs, as mathematical values.
    pub open spec fn buckets(self) -> Seq<(Seq<char>, BucketView)> {
        self.entries@.map_values(|e: (String, Bucket)| (e.0@, e.1@))
    }

    /// Each URL is stored at most once.
    pub open spec fn wf(self) -> bool {
        unique_keys(self.buckets())
    }

    /// An empty cache under the given strategy.
    pub fn with_strategy(strategy: CachingStrategy) -> (r: Cache)
        ensures
            r.wf(),
            r.strategy == strategy,
            r.buckets().len() == 0,
    {
        let r = Cache { entries: Vec::new(), strategy };
        proof {
            assert(r.buckets() =~= Seq::<(Seq<char>, BucketView)>::empty());
        }
        r
    }
}

/// The bucket the cache holds for `url`, if any.
pub open spec fn cached_bucket(c: Cache, url: Seq<char>) -> Option<BucketView> {
    spec_find(c.buckets(), url)
}

/// The cache can serve `url` without any network traffic.
pub open spec fn serves_cached(c: Cache, url: Seq<char>) -> bool {
    c.strategy == CachingStrategy::Url && cached_bucket(c, url) is Some
}

/// The cache holds a candidate for `url` that must first be revalidated
/// by a conditional request.
pub open spec fn revalidates(c: Cache, url: Seq<char>) -> bool {
    c.strategy == CachingStrategy::Etags && cached_bucket(c, url) is Some
}

/// Resolving `url` must download it in full.
pub open spec fn downloads(c: Cache, url: Seq<char>) -> bool {
    !serves_cached(c, url) && !revalidates(c, url)
}

/// What the resolver asks the embedding application to do for one remote
/// URL, after consulting the cache.
#[derive(Debug)]
pub enum FetchPlan {
    /// The cached bytes are fresh: return them, no request is made.
    Serve(Vec<u8>),
    /// Issue a conditional `HEAD` request carrying this entity tag in an
    /// `If-None-Match` header, then report the status to [`Cache::check_etag`].
    Revalidate(String),
    /// Issue a full `GET` request, then report the outcome to
    /// [`Cache::store_response`].
    Download,
}

/// `plan` is the correct decision for `url` in cache `c`.
pub open spec fn plan_matches(c: Cache, url: Seq<char>, plan: FetchPlan) -> bool {
    &&& serves_cached(c, url) ==> {
        &&& plan matches FetchPlan::Serve(d)
        &&& d@ == cached_bucket(c, url)->0.data
    }
    &&& revalidates(c, url) ==> {
        &&& plan matches FetchPlan::Revalidate(e)
        &&& e@ == cached_bucket(c, url)->0.etag
    }
    &&& downloads(c, url) ==> plan is Download
}

/// A successful store leaves exactly the new bucket under `url` and every
/// other URL untouched.
pub open spec fn store_updates(
    old_cache: Cache,
    new_cache: Cache,
    url: Seq<char>,
    etag: Seq<char>,
    data: Seq<u8>,
) -> bool {
    &&& cached_bucket(new_cache, url) matches Some(b) && b.data == data && b.etag == etag
    &&& forall|k: Seq<char>| k != url ==> cached_bucket(new_cache, k) == cached_bucket(
        old_cache,
        k,
    )
}

proof fn lemma_find_first(s: Seq<(Seq<char>, BucketView)>, i: int)
    requires
        0 <= i < s.len(),
        forall|j: int| 0 <= j < i ==> s[j].0 != s[i].0,
    ensures
        spec_find(s, s[i].0) == Some(s[i].1),
    decreases i,
{
    if i > 0 {
        assert(s.drop_first()[i - 1] == s[i]);
        assert(forall|j: int| 0 <= j < i - 1 ==> s.drop_first()[j] == s[j + 1]);
        lemma_find_first(s.drop_first(), i - 1);
    }
}

proof fn lemma_find_absent(s: Seq<(Seq<char>, BucketView)>, url: Seq<char>)
    requires
        forall|i: int| 0 <= i < s.len() ==> s[i].0 != url,
    ensures
        spec_find(s, url) is None,
    decreases s.len(),
{
    if s.len() > 0 {
        assert(forall|i: int| 0 <= i < s.drop_first().len() ==> s.drop_first()[i] == s[i + 1]);
        lemma_find_absent(s.drop_first(), url);
    }
}

proof fn lemma_find_update(s: Seq<(Seq<char>, BucketView)>, i: int, b: BucketView)
    requires
        0 <= i < s.len(),
        forall|j: int| 0 <= j < i ==> s[j].0 != s[i].0,
    ensures
        forall|q: Seq<char>| #![auto]
            spec_find(s.update(i, (s[i].0, b)), q) == if q == s[i].0 {
                Some(b)
            } else {
                spec_find(s, q)
            },
    decreases i,
{
    let t = s.update(i, (s[i].0, b));
    if i == 0 {
        assert forall|q: Seq<char>| #![auto]
            spec_find(t, q) == if q == s[0].0 {
                Some(b)
            } else {
                spec_find(s, q)
            } by {
            assert(t[0] == (s[0].0, b));
            if q != s[0].0 {
                assert(t.drop_first() =~= s.drop_first());
                assert(spec_find(t, q) == spec_find(t.drop_first(), q));
                assert(spec_find(s, q) == spec_find(s.drop_first(), q));
            }
        }
    } else {
        assert(forall|j: int| 0 <= j < i - 1 ==> s.drop_first()[j] == s[j + 1]);
        assert(s.drop_first()[i - 1] == s[i]);
        lemma_find_update(s.drop_first(), i - 1, b);
        assert(t[0] == s[0]);
        assert(t.drop_first() =~= s.drop_first().update(i - 1, (s[i].0, b)));
        assert forall|q: Seq<char>| #![auto]
            spec_find(t, q) == if q == s[i].0 {
                Some(b)
            } else {
                spec_find(s, q)
            } by {
            assert(s[0].0 != s[i].0);
            if q == s[0].0 {
                assert(spec_find(t, q) == Some(s[0].1));
                assert(spec_find(s, q) == Some(s[0].1));
            } else {
                assert(spec_find(t, q) == spec_find(t.drop_first(), q));
                assert(spec_find(s, q) == spec_find(s.drop_first(), q));
            }
        }
    }
}

proof fn lemma_find_push(s: Seq<(Seq<char>, BucketView)>, k: Seq<char>, b: BucketView)
    requires
        spec_find(s, k) is None,
    ensures
        forall|q: Seq<char>| #![auto]
            spec_find(s.push((k, b)), q) == if q == k {
                Some(b)
            } else {
                spec_find(s, q)
            },
    decreases s.len(),
{
    let t = s.push((k, b));
    if s.len() == 0 {
        assert forall|q: Seq<char>| #![auto]
            spec_find(t, q) == if q == k {
                Some(b)
            } else {
                spec_find(s, q)
            } by {
            assert(t[0] == (k, b));
            if q != k {
                assert(t.drop_first() =~= Seq::<(Seq<char>, BucketView)>::empty());
                assert(spec_find(t, q) == spec_find(t.drop_first(), q));
            }
        }
    } else {
        assert(s[0].0 != k);
        lemma_find_push(s.drop_first(), k, b);
        assert(t[0] == s[0]);
        assert(t.drop_first() =~= s.drop_first().push((k, b)));
        assert forall|q: Seq<char>| #![auto]
            spec_find(t, q) == if q == k {
                Some(b)
            } else {
                spec_find(s, q)
            } by {
            if q == s[0].0 {
                assert(spec_find(t, q) == Some(s[0].1));
                assert(spec_find(s, q) == Some(s[0].1));
            } else {
                assert(spec_find(t, q) == spec_find(t.drop_first(), q));
                assert(spec_find(s, q) == spec_find(s.drop_first(), q));
            }
        }
    }
}

impl Cache {
    /// Index of the bucket stored under `url`, if any.
    fn find_entry(&self, url: &str) -> (r: Option<usize>)
        ensures
            match r {
                Some(i) => {
                    &&& i < self.entries@.len()
                    &&& self.buckets()[i as int].0 == url@
                    &&& spec_find(self.buckets(), url@) == Some(self.buckets()[i as int].1)
                },
                None => spec_find(self.buckets(), url@) is None,
            },
    {
        let n = self.entries.len();
        let mut i: usize = 0;
        while i < n
            invariant
                0 <= i <= n,
                n == self.entries@.len(),
                forall|j: int| 0 <= j < i ==> self.buckets()[j].0 != url@,
            decreases n - i,
        {
            if str_eq(self.entries[i].0.as_str(), url) {
                proof {
                    assert(self.buckets()[i as int].0 == url@);
                    lemma_find_first(self.buckets(), i as int);
                }
                return Some(i);
            }
            proof {
                assert(self.buckets()[i as int].0 == self.entries@[i as int].0@);
            }
            i += 1;
        }
        proof {
            lemma_find_absent(self.buckets(), url@);
        }
        None
    }

    /// Consult the cache for `url` under the active strategy and decide
    /// what the embedding application must do: serve the cached bytes,
    /// revalidate them with a conditional request, or download in full.
    pub fn lookup(&self, url: &str) -> (r: FetchPlan)
        ensures
            plan_matches(*self, url@, r),
    {
        match self.find_entry(url) {
            None => FetchPlan::Download,
            Some(i) => match self.strategy {
                CachingStrategy::Never => FetchPlan::Download,
                CachingStrategy::Url => FetchPlan::Serve(self.entries[i].1.data.clone()),
                CachingStrategy::Etags => FetchPlan::Revalidate(self.entries[i].1.etag.clone()),
            },
        }
    }

    /// Judge the status of a conditional `HEAD` request for `url`:
    /// a `304 Not Modified` answer means the cached bytes are still valid
    /// and are returned; any other status, or a failed request (`None`),
    /// means the caller must fall through to a full download.
    pub fn check_etag(&self, url: &str, status: Option<u16>) -> (r: Option<Vec<u8>>)
        ensures
            match r {
                Some(d) => {
                    &&& status == Some(304u16)
                    &&& cached_bucket(*self, url@) matches Some(b) && d@ == b.data
                },
                None => status != Some(304u16) || cached_bucket(*self, url@) is None,
            },
    {
        match status {
            Some(code) if code == 304u16 => match self.find_entry(url) {
                Some(i) => Some(self.entries[i].1.data.clone()),
                None => None,
            },
            _ => None,
        }
    }

    /// Record the outcome of a full `GET` of `url` and hand the payload
    /// back: a non-2xx status is a transport failure; a 2xx response is
    /// cached if and only if it carried an entity tag.
    pub fn store_response(
        &mut self,
        url: &str,
        status: u16,
        etag: Option<&str>,
        body: Vec<u8>,
    ) -> (r: Result<Vec<u8>, ResolveError>)
        requires
            old(self).wf(),
        ensures
            final(self).wf(),
            final(self).strategy == old(self).strategy,
            !(200 <= status < 300) ==> {
                &&& r matches Err(ResolveError::Transport(_))
                &&& *final(self) == *old(self)
            },
            200 <= status < 300 ==> {
                &&& r matches Ok(d) && d@ == body@
                &&& match etag {
                    Some(e) => store_updates(*old(self), *final(self), url@, e@, body@),
                    None => *final(self) == *old(self),
                }
            },
    {
        if !(200 <= status && status < 300) {
            return Err(ResolveError::Transport(String::from_str("request failed")));
        }
        match etag {
            None => Ok(body),
            Some(e) => {
                let bucket = Bucket { data: body.clone(), etag: String::from_str(e) };
                let key = String::from_str(url);
                let ghost bucket_view = bucket@;
                match self.find_entry(url) {
                    Some(i) => {
                        let ghost old_buckets = self.buckets();
                        proof {
                            assert(unique_keys(old_buckets));
                            assert(forall|j: int|
                                0 <= j < i ==> old_buckets[j].0 != old_buckets[i as int].0);
                            lemma_find_update(old_buckets, i as int, bucket_view);
                        }
                        self.entries.set(i, (key, bucket));
                        proof {
                            assert(self.buckets() =~= old_buckets.update(
                                i as int,
                                (old_buckets[i as int].0, bucket_view),
                            ));
                            assert(forall|j: int|
                                0 <= j < self.buckets().len() ==> self.buckets()[j].0
                                    == old_buckets[j].0);
                        }
                        Ok(body)
                    },
                    None => {
                        let ghost old_buckets = self.buckets();
                        proof {
                            lemma_find_first_any(old_buckets, url@);
                            lemma_find_push(old_buckets, url@, bucket_view);
                        }
                        self.entries.push((key, bucket));
                        proof {
                            assert(self.buckets() =~= old_buckets.push((url@, bucket_view)));
                        }
                        Ok(body)
                    },
                }
            },
        }
    }
}

/// A URL that is absent is absent at every index.
proof fn lemma_find_first_any(s: Seq<(Seq<char>, BucketView)>, url: Seq<char>)
    requires
        spec_find(s, url) is None,
    ensures
        forall|i: int| 0 <= i < s.len() ==> s[i].0 != url,
    decreases s.len(),
{
    if s.len() > 0 {
        lemma_find_first_any(s.drop_first(), url);
        assert(forall|i: int| 1 <= i < s.len() ==> s[i] == s.drop_first()[i - 1]);
    }
}

/// What the resolver asks the embedding application to do for one URI.
#[derive(Debug)]
pub enum ResolveAction {
    /// Read this filesystem path; file reads are never cached.
    ReadLocalFile(String),
    /// Carry out `plan` for this remote URL.
    Fetch { url: String, plan: FetchPlan },
}

impl Cache {
    /// Dispatch one URI by its scheme, exactly as [`parse_uri`] reads it:
    /// local paths are handed back to be read (never cached), remote URLs
    /// are planned against the cache, registry package references are
    /// turned into their deterministic CDN URL first.
    pub fn read(&self, uri: &str) -> (r: Result<ResolveAction, ResolveError>)
        ensures
            ({
                let (scheme, rest) = scheme_split(uri@);
                if scheme == "file"@ || scheme.len() == 0 {
                    &&& r matches Ok(ResolveAction::ReadLocalFile(p))
                    &&& p@ == spec_local_path(strip_authority_marker(rest))
                } else if scheme == "http"@ || scheme == "https"@ {
                    &&& r matches Ok(ResolveAction::Fetch { url, plan })
                    &&& url@ == uri@
                    &&& plan_matches(*self, uri@, plan)
                } else if scheme == "wapm"@ {
                    let (pathpart, query) = query_split(strip_authority_marker(rest));
                    let segs = spec_split(pathpart, '/');
                    if segs.len() != 2 {
                        &&& r matches Err(ResolveError::MalformedReference(m))
                        &&& m@ == pathpart
                    } else if spec_version_of(query) is None {
                        &&& r matches Err(ResolveError::MalformedReference(m))
                        &&& m@ == "No version specified"@
                    } else {
                        let cdn = spec_wapm_url(segs[0], segs[1], spec_version_of(query)->0);
                        &&& r matches Ok(ResolveAction::Fetch { url, plan })
                        &&& url@ == cdn
                        &&& plan_matches(*self, cdn, plan)
                    }
                } else {
                    &&& r matches Err(ResolveError::UnsupportedScheme(m))
                    &&& m@ == scheme
                }
            }),
    {
        match parse_uri(uri)? {
            ResolvableUri::LocalFile(p) => Ok(ResolveAction::ReadLocalFile(p)),
            ResolvableUri::Http(u) => {
                let plan = self.lookup(u.as_str());
                Ok(ResolveAction::Fetch { url: u, plan })
            },
            ResolvableUri::PackageRef { namespace, name, version } => {
                let url = wapm_url(namespace.as_str(), name.as_str(), version.as_str());
                let plan = self.lookup(url.as_str());
                Ok(ResolveAction::Fetch { url, plan })
            },
        }
    }
}

/// Under the `Never` strategy every resolution of every URL issues a
/// network request, however recently the same URL was fetched.
pub proof fn lemma_never_always_downloads(c: Cache, url: Seq<char>)
    requires
        c.strategy == CachingStrategy::Never,
    ensures
        downloads(c, url),
{
}

/// Under the `Url` strategy, a first resolution of a cold URL downloads
/// it once; after its response is stored, the next resolution of the same
/// URL serves exactly the stored bytes with no further request.
pub proof fn lemma_url_strategy_serves_stored(
    c0: Cache,
    c1: Cache,
    url: Seq<char>,
    etag: Seq<char>,
    data: Seq<u8>,
)
    requires
        c0.strategy == CachingStrategy::Url,
        c1.strategy == CachingStrategy::Url,
        cached_bucket(c0, url) is None,
        store_updates(c0, c1, url, etag, data),
    ensures
        downloads(c0, url),
        serves_cached(c1, url),
        cached_bucket(c1, url)->0.data == data,
{
}

/// Under the `Etags` strategy, after a response for `url` is stored, the
/// next resolution issues only a conditional request, and a `304` answer
/// yields exactly the bytes of the first download.
pub proof fn lemma_etags_revalidates_stored(
    c0: Cache,
    c1: Cache,
    url: Seq<char>,
    etag: Seq<char>,
    data: Seq<u8>,
)
    requires
        c1.strategy == CachingStrategy::Etags,
        store_updates(c0, c1, url, etag, data),
    ensures
        revalidates(c1, url),
        cached_bucket(c1, url)->0.data == data,
        cached_bucket(c1, url)->0.etag == etag,
{
}

} // verus!

