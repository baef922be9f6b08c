use vstd::prelude::*;

use crate::errors::ResolveError;
use crate::text::{
    find_from, has_prefix, index_of_from, join_with, spec_join, spec_split, split_on, str_eq,
};

verus! {

/// A reference the resolver can act on, parsed once per resolve call and
/// never persisted: a filesystem path, a remote URL taken literally, or a
/// virtual registry package named by namespace, package and version.
pub enum ResolvableUri {
    LocalFile(String),
    Http(String),
    PackageRef { namespace: String, name: String, version: String },
}

/// The characters before the first `:` of `s`, and those after it.
/// A string without `:` has the empty scheme and is all remainder.
pub open spec fn scheme_split(s: Seq<char>) -> (Seq<char>, Seq<char>) {
    match index_of_from(s, ':', 0) {
        Some(i) => (s.take(i), s.skip(i + 1)),
        None => (Seq::empty(), s),
    }
}

/// The remainder of a URI with a leading authority marker `//` removed.
pub open spec fn strip_authority_marker(s: Seq<char>) -> Seq<char> {
    if s.len() >= 2 && s[0] == '/' && s[1] == '/' {
        s.skip(2)
    } else {
        s
    }
}

/// The characters before the first `?` of `s`, and those after it.
pub open spec fn query_split(s: Seq<char>) -> (Seq<char>, Seq<char>) {
    match index_of_from(s, '?', 0) {
        Some(i) => (s.take(i), s.skip(i + 1)),
        None => (s, Seq::empty()),
    }
}

/// The filesystem path built from a URI path: its segments joined by `/`,
/// with the leading root marker kept when the URI path is absolute.
pub open spec fn spec_local_path(path: Seq<char>) -> Seq<char> {
    let root: Seq<char> = if path.len() > 0 && path[0] == '/' {
        "/"@
    } else {
        Seq::empty()
    };
    root + spec_join(spec_split(path, '/'), "/"@)
}

/// The key that introduces a version parameter in a query string.
pub open spec fn version_key() -> Seq<char> {
    "version="@
}

/// Is `p` a `version=...` pair?
pub open spec fn is_version_pair(p: Seq<char>) -> bool {
    version_key().len() <= p.len() && p.take(version_key().len() as int) == version_key()
}

/// The value of the first `version=...` pair among `params`, if any.
pub open spec fn first_version(params: Seq<Seq<char>>) -> Option<Seq<char>>
    decreases params.len(),
{
    if params.len() == 0 {
        None
    } else if is_version_pair(params[0]) {
        Some(params[0].skip(version_key().len() as int))
    } else {
        first_version(params.drop_first())
    }
}

/// The version demanded by a query string: the value of its first
/// `version=...` parameter.
pub open spec fn spec_version_of(query: Seq<char>) -> Option<Seq<char>> {
    first_version(spec_split(query, '&'))
}

/// The deterministic CDN location of a registry package's module.
pub open spec fn spec_wapm_url(ns: Seq<char>, name: Seq<char>, version: Seq<char>) -> Seq<char> {
    "https://registry-cdn.wapm.io/contents/"@ + ns + "/"@ + name + "/"@ + version + "/"@ + name
        + ".wasm"@
}

/// What `parse_uri` must return for the input `s`.
pub open spec fn spec_parse(s: Seq<char>, r: Result<ResolvableUri, ResolveError>) -> bool {
    let (scheme, rest) = scheme_split(s);
    if scheme == "file"@ || scheme.len() == 0 {
        &&& r matches Ok(ResolvableUri::LocalFile(p))
        &&& p@ == spec_local_path(strip_authority_marker(rest))
    } else if scheme == "http"@ || scheme == "https"@ {
        &&& r matches Ok(ResolvableUri::Http(u))
        &&& u@ == s
    } else if scheme == "wapm"@ {
        let (pathpart, query) = query_split(strip_authority_marker(rest));
        let segs = spec_split(pathpart, '/');
        if segs.len() != 2 {
            &&& r matches Err(ResolveError::MalformedReference(m))
            &&& m@ == pathpart
        } else if spec_version_of(query) is None {
            &&& r matches Err(ResolveError::MalformedReference(m))
            &&& m@ == "No version specified"@
        } else {
            &&& r matches Ok(ResolvableUri::PackageRef { namespace, name, version })
            &&& namespace@ == segs[0]
            &&& name@ == segs[1]
            &&& version@ == spec_version_of(query)->0
        }
    } else {
        &&& r matches Err(ResolveError::UnsupportedScheme(m))
        &&& m@ == scheme
    }
}

/// Take a URI apart by its scheme: `file` and the empty scheme name a
/// local path, `http`/`https` are kept literally, `wapm` names a registry
/// package as `{namespace}/{package}` with a `version` query parameter,
/// and every other scheme is refused.
pub fn parse_uri(uri: &str) -> (r: Result<ResolvableUri, ResolveError>)
    ensures
        spec_parse(uri@, r),
{
    let n = uri.unicode_len();
    let (scheme, rest): (String, String) = match find_from(uri, 0, ':') {
        Some(i) => (
            String::from_str(uri.substring_char(0, i)),
            String::from_str(uri.substring_char(i + 1, n)),
        ),
        None => (String::new(), String::from_str(uri)),
    };
    proof {
        assert(scheme@ =~= scheme_split(uri@).0);
        assert(rest@ =~= scheme_split(uri@).1);
    }
    if str_eq(scheme.as_str(), "file") || scheme.unicode_len() == 0 {
        Ok(ResolvableUri::LocalFile(local_path(rest.as_str())))
    } else if str_eq(scheme.as_str(), "http") || str_eq(scheme.as_str(), "https") {
        Ok(ResolvableUri::Http(String::from_str(uri)))
    } else if str_eq(scheme.as_str(), "wapm") {
        package_ref(rest.as_str())
    } else {
        Err(ResolveError::UnsupportedScheme(scheme))
    }
}

/// Drop a leading `//` authority marker.
fn strip_marker(s: &str) -> (r: &str)
    ensures
        r@ == strip_authority_marker(s@),
{
    proof {
        reveal_strlit("//");
    }
    if has_prefix(s, "//") {
        assert(s@[0] == '/' && s@[1] == '/') by {
            assert(s@.take(2)[0] == '/');
            assert(s@.take(2)[1] == '/');
        }
        let r = s.substring_char(2, s.unicode_len());
        assert(r@ =~= strip_authority_marker(s@));
        r
    } else {
        if s.unicode_len() >= 2 {
            assert(s@.take(2) =~= "//"@ ==> false);
        }
        s
    }
}

/// Build the filesystem path for the URI remainder `rest`.
fn local_path(rest: &str) -> (r: String)
    ensures
        r@ == spec_local_path(strip_authority_marker(rest@)),
{
    let path = strip_marker(rest);
    let segs = split_on(path, '/');
    let joined = join_with(&segs, "/");
    let absolute = if path.unicode_len() > 0 {
        path.get_char(0) == '/'
    } else {
        false
    };
    if absolute {
        String::from_str("/").concat(joined.as_str())
    } else {
        proof {
            assert(Seq::<char>::empty() + joined@ =~= joined@);
        }
        joined
    }
}

/// Read a `wapm` remainder as `{namespace}/{package}` plus a `version`
/// query parameter.
fn package_ref(rest: &str) -> (r: Result<ResolvableUri, ResolveError>)
    ensures
        ({
            let (pathpart, query) = query_split(strip_authority_marker(rest@));
            let segs = spec_split(pathpart, '/');
            if segs.len() != 2 {
                &&& r matches Err(ResolveError::MalformedReference(m))
                &&& m@ == pathpart
            } else if spec_version_of(query) is None {
                &&& r matches Err(ResolveError::MalformedReference(m))
                &&& m@ == "No version specified"@
            } else {
                &&& r matches Ok(ResolvableUri::PackageRef { namespace, name, version })
                &&& namespace@ == segs[0]
                &&& name@ == segs[1]
                &&& version@ == spec_version_of(query)->0
            }
        }),
{
    let path = strip_marker(rest);
    let n = path.unicode_len();
    let (pathpart, query): (String, String) = match find_from(path, 0, '?') {
        Some(i) => (
            String::from_str(path.substring_char(0, i)),
            String::from_str(path.substring_char(i + 1, n)),
        ),
        None => (String::from_str(path), String::new()),
    };
    proof {
        assert(pathpart@ =~= query_split(path@).0);
        assert(query@ =~= query_split(path@).1);
    }
    let segs = split_on(pathpart.as_str(), '/');
    if segs.len() != 2 {
        assert(segs@.map_values(|x: String| x@).len() == segs@.len());
        return Err(ResolveError::MalformedReference(pathpart));
    }
    assert(segs@.map_values(|x: String| x@)[0] == segs@[0]@);
    assert(segs@.map_values(|x: String| x@)[1] == segs@[1]@);
    match version_of(query.as_str()) {
        None => Err(ResolveError::MalformedReference(String::from_str("No version specified"))),
        Some(v) => {
            let namespace = segs[0].clone();
            let name = segs[1].clone();
            Ok(ResolvableUri::PackageRef { namespace, name, version: v })
        },
    }
}

/// The value of the first `version=...` parameter of `query`, if any.
fn version_of(query: &str) -> (r: Option<String>)
    ensures
        match r {
            Some(v) => spec_version_of(query@) == Some(v@),
            None => spec_version_of(query@) is None,
        },
{
    proof {
        reveal_strlit("version=");
    }
    let params = split_on(query, '&');
    let ghost views = params@.map_values(|x: String| x@);
    let m = params.len();
    let mut i: usize = 0;
    proof {
        assert(views.skip(0) =~= views);
    }
    while i < m
        invariant
            0 <= i <= m,
            m == params@.len(),
            views == params@.map_values(|x: String| x@),
            views == spec_split(query@, '&'),
            first_version(views) == first_version(views.skip(i as int)),
            version_key().len() == 8,
        decreases m - i,
    {
        let p = &params[i];
        proof {
            assert(views.skip(i as int)[0] == views[i as int]);
            assert(views[i as int] == p@);
        }
        if has_prefix(p.as_str(), "version=") {
            assert(is_version_pair(p@));
            let v = p.as_str().substring_char(8, p.as_str().unicode_len());
            assert(v@ =~= p@.skip(version_key().len() as int));
            assert(first_version(views.skip(i as int)) == Some(v@));
            return Some(String::from_str(v));
        }
        proof {
            assert(!is_version_pair(p@));
            assert(views.skip(i as int).drop_first() =~= views.skip(i + 1));
        }
        i += 1;
    }
    proof {
        assert(views.skip(m as int) =~= Seq::<Seq<char>>::empty());
    }
    None
}

/// Build the deterministic CDN download URL of a registry package.
pub fn wapm_url(namespace: &str, name: &str, version: &str) -> (r: String)
    ensures
        r@ == spec_wapm_url(namespace@, name@, version@),
{
    let mut out = String::from_str("https://registry-cdn.wapm.io/contents/");
    out.append(namespace);
    out.append("/");
    out.append(name);
    out.append("/");
    out.append(version);
    out.append("/");
    out.append(name);
    out.append(".wasm");
    out
}

} // verus!
