use vstd::prelude::*;

use crate::errors::ResolveError;
use crate::shared::package::Package;
use crate::text::str_eq;

verus! {

/// One catalog row: a package version that was successfully downloaded,
/// with where its payload was written and when.
#[derive(Debug, Clone)]
pub struct CatalogEntry {
    pub name: String,
    pub version: String,
    pub public_url: String,
    pub description: String,
    pub file_location: String,
    pub created_at: u64,
}

/// The mathematical content of a [`CatalogEntry`].
pub struct EntryView {
    pub name: Seq<char>,
    pub version: Seq<char>,
    pub public_url: Seq<char>,
    pub description: Seq<char>,
    pub file_location: Seq<char>,
    pub created_at: u64,
}

impl View for CatalogEntry {
    type V = EntryView;

    open spec fn view(&self) -> EntryView {
        EntryView {
            name: self.name@,
            version: self.version@,
            public_url: self.public_url@,
            description: self.description@,
            file_location: self.file_location@,
            created_at: self.created_at,
        }
    }
}

/// Does the catalog hold a row matching both `name` and `version`?
pub open spec fn spec_has(s: Seq<EntryView>, name: Seq<char>, version: Seq<char>) -> bool {
    exists|i: int| 0 <= i < s.len() && s[i].name == name && s[i].version == version
}

/// No two rows share a (name, version) pair.
pub open spec fn unique_rows(s: Seq<EntryView>) -> bool {
    forall|i: int, j: int|
        0 <= i < j < s.len() ==> !(s[i].name == s[j].name && s[i].version == s[j].version)
}

/// The catalog after storing `e`: the first row with `e`'s key replaced,
/// or `e` appended when the key is new.
pub open spec fn spec_upsert(s: Seq<EntryView>, e: EntryView) -> Seq<EntryView>
    decreases s.len(),
{
    if s.len() == 0 {
        seq![e]
    } else if s[0].name == e.name && s[0].version == e.version {
        seq![e] + s.drop_first()
    } else {
        seq![s[0]] + spec_upsert(s.drop_first(), e)
    }
}

/// Storing a row keeps every other key as it was, leaves exactly the new
/// row under its own key, and grows the catalog only when the key is new.
pub proof fn lemma_upsert(s: Seq<EntryView>, e: EntryView)
    requires
        unique_rows(s),
    ensures
        unique_rows(spec_upsert(s, e)),
        spec_has(spec_upsert(s, e), e.name, e.version),
        forall|n: Seq<char>, v: Seq<char>|
            !(n == e.name && v == e.version) ==> #[trigger] spec_has(spec_upsert(s, e), n, v)
                == spec_has(s, n, v),
        spec_upsert(s, e).len() == if spec_has(s, e.name, e.version) {
            s.len()
        } else {
            s.len() + 1
        },
        forall|i: int|
            0 <= i < spec_upsert(s, e).len() && (spec_upsert(s, e)[i].name == e.name
                && spec_upsert(s, e)[i].version == e.version) ==> spec_upsert(s, e)[i] == e,
    decreases s.len(),
{
    let t = spec_upsert(s, e);
    if s.len() == 0 {
        assert(t =~= seq![e]);
        assert(t[0] == e);
    } else if s[0].name == e.name && s[0].version == e.version {
        assert(t =~= seq![e] + s.drop_first());
        assert(t[0] == e);
        assert(forall|i: int| 1 <= i < t.len() ==> t[i] == s[i]);
        assert(spec_has(s, e.name, e.version)) by {
            assert(s[0].name == e.name && s[0].version == e.version);
        }
        assert forall|n: Seq<char>, v: Seq<char>|
            !(n == e.name && v == e.version) implies #[trigger] spec_has(t, n, v) == spec_has(
            s,
            n,
            v,
        ) by {
            if spec_has(t, n, v) {
                let i = choose|i: int| 0 <= i < t.len() && t[i].name == n && t[i].version == v;
                assert(i >= 1);
                assert(s[i].name == n && s[i].version == v);
            }
            if spec_has(s, n, v) {
                let i = choose|i: int| 0 <= i < s.len() && s[i].name == n && s[i].version == v;
                assert(i >= 1);
                assert(t[i].name == n && t[i].version == v);
            }
        }
    } else {
        lemma_upsert(s.drop_first(), e);
        let u = spec_upsert(s.drop_first(), e);
        assert(t =~= seq![s[0]] + u);
        assert(t[0] == s[0]);
        assert(forall|i: int| 1 <= i < t.len() ==> t[i] == u[i - 1]);
        assert(forall|i: int| 0 <= i < s.drop_first().len() ==> s.drop_first()[i] == s[i + 1]);
        // presence of e's key in the tail result lifts to t
        assert(spec_has(u, e.name, e.version));
        let w = choose|i: int| 0 <= i < u.len() && u[i].name == e.name && u[i].version == e.version;
        assert(t[w + 1].name == e.name && t[w + 1].version == e.version);
        // key counts
        assert(spec_has(s, e.name, e.version) == spec_has(s.drop_first(), e.name, e.version)) by {
            if spec_has(s, e.name, e.version) {
                let i = choose|i: int|
                    0 <= i < s.len() && s[i].name == e.name && s[i].version == e.version;
                assert(i >= 1);
                assert(s.drop_first()[i - 1].name == e.name);
            }
            if spec_has(s.drop_first(), e.name, e.version) {
                let i = choose|i: int|
                    0 <= i < s.drop_first().len() && s.drop_first()[i].name == e.name
                        && s.drop_first()[i].version == e.version;
                assert(s[i + 1].name == e.name && s[i + 1].version == e.version);
            }
        }
        // other keys unchanged
        assert forall|n: Seq<char>, v: Seq<char>|
            !(n == e.name && v == e.version) implies #[trigger] spec_has(t, n, v) == spec_has(
            s,
            n,
            v,
        ) by {
            if spec_has(t, n, v) {
                let i = choose|i: int| 0 <= i < t.len() && t[i].name == n && t[i].version == v;
                if i == 0 {
                    assert(s[0].name == n && s[0].version == v);
                } else {
                    assert(u[i - 1].name == n && u[i - 1].version == v);
                    assert(spec_has(u, n, v));
                    assert(spec_has(s.drop_first(), n, v));
                    let j = choose|j: int|
                        0 <= j < s.drop_first().len() && s.drop_first()[j].name == n
                            && s.drop_first()[j].version == v;
                    assert(s[j + 1].name == n && s[j + 1].version == v);
                }
            }
            if spec_has(s, n, v) {
                let i = choose|i: int| 0 <= i < s.len() && s[i].name == n && s[i].version == v;
                if i == 0 {
                    assert(t[0].name == n && t[0].version == v);
                } else {
                    assert(s.drop_first()[i - 1].name == n && s.drop_first()[i - 1].version == v);
                    assert(spec_has(s.drop_first(), n, v));
                    assert(spec_has(u, n, v));
                    let j = choose|j: int| 0 <= j < u.len() && u[j].name == n && u[j].version == v;
                    assert(t[j + 1].name == n && t[j + 1].version == v);
                }
            }
        }
        // uniqueness: the head's key is not e's key and not in the tail twice
        assert forall|i: int, j: int| 0 <= i < j < t.len() implies !(t[i].name == t[j].name
            && t[i].version == t[j].version) by {
            if i == 0 {
                if t[0].name == t[j].name && t[0].version == t[j].version {
                    assert(u[j - 1].name == s[0].name && u[j - 1].version == s[0].version);
                    assert(spec_has(u, s[0].name, s[0].version));
                    assert(spec_has(s.drop_first(), s[0].name, s[0].version));
                    let w2 = choose|w2: int|
                        0 <= w2 < s.drop_first().len() && s.drop_first()[w2].name == s[0].name
                            && s.drop_first()[w2].version == s[0].version;
                    assert(s[w2 + 1].name == s[0].name && s[w2 + 1].version == s[0].version);
                }
            } else {
                assert(t[i] == u[i - 1] && t[j] == u[j - 1]);
            }
        }
    }
}

/// The local catalog of already-downloaded packages, keyed by
/// (name, version); no two rows share a key.
#[derive(Debug)]
pub struct Catalog {
    pub entries: Vec<CatalogEntry>,
}

impl Catalog {
    /// The rows, as mathematical values.
    pub open spec fn rows(self) -> Seq<EntryView> {
        self.entries@.map_values(|e: CatalogEntry| e@)
    }

    /// No two rows share a (name, version) pair.
    pub open spec fn wf(self) -> bool {
        unique_rows(self.rows())
    }

    /// An empty catalog.
    pub fn new() -> (r: Catalog)
        ensures
            r.wf(),
            r.rows().len() == 0,
    {
        let r = Catalog { entries: Vec::new() };
        proof {
            assert(r.rows() =~= Seq::<EntryView>::empty());
        }
        r
    }

    /// The number of rows.
    pub fn len(&self) -> (r: usize)
        ensures
            r == self.rows().len(),
    {
        self.entries.len()
    }

    /// Is a row with exactly this `name` and `version` present?
    pub fn contains(&self, name: &str, version: &str) -> (r: bool)
        ensures
            r == spec_has(self.rows(), name@, version@),
    {
        let n = self.entries.len();
        let mut i: usize = 0;
        while i < n
            invariant
                0 <= i <= n,
                n == self.entries@.len(),
                forall|j: int|
                    0 <= j < i ==> !(self.rows()[j].name == name@ && self.rows()[j].version
                        == version@),
            decreases n - i,
        {
            if str_eq(self.entries[i].name.as_str(), name) && str_eq(
                self.entries[i].version.as_str(),
                version,
            ) {
                assert(self.rows()[i as int].name == name@ && self.rows()[i as int].version
                    == version@);
                return true;
            }
            proof {
                assert(self.rows()[i as int] == self.entries@[i as int]@);
            }
            i += 1;
        }
        false
    }

    /// Store `e`: replace the row with its (name, version) key, or append
    /// a new row. The unique-key invariant is kept either way.
    pub fn upsert(&mut self, e: CatalogEntry)
        requires
            old(self).wf(),
        ensures
            final(self).wf(),
            final(self).rows() == spec_upsert(old(self).rows(), e@),
    {
        let ghost old_rows = self.rows();
        let n = self.entries.len();
        let mut i: usize = 0;
        while i < n
            invariant
                0 <= i <= n,
                n == self.entries@.len(),
                old_rows == self.rows(),
                old_rows == old(self).rows(),
                unique_rows(old_rows),
                forall|j: int|
                    0 <= j < i ==> !(self.rows()[j].name == e.name@ && self.rows()[j].version
                        == e.version@),
            decreases n - i,
        {
            if str_eq(self.entries[i].name.as_str(), e.name.as_str()) && str_eq(
                self.entries[i].version.as_str(),
                e.version.as_str(),
            ) {
                proof {
                    assert(old_rows[i as int] == self.entries@[i as int]@);
                    lemma_upsert_found(old_rows, i as int, e@);
                }
                self.entries.set(i, e);
                proof {
                    assert(self.rows() =~= old_rows.update(i as int, e@));
                    lemma_upsert(old_rows, e@);
                }
                return ;
            }
            proof {
                assert(self.rows()[i as int] == self.entries@[i as int]@);
            }
            i += 1;
        }
        proof {
            lemma_upsert_fresh(old_rows, e@);
        }
        self.entries.push(e);
        proof {
            assert(self.rows() =~= old_rows.push(e@));
            lemma_upsert(old_rows, e@);
        }
    }

    /// The catalog's packages, as the registry type: the stored file
    /// location stands in for the download URL.
    pub fn known_packages(&self) -> (r: Vec<Package>)
        ensures
            r@.len() == self.rows().len(),
            forall|i: int|
                0 <= i < r@.len() ==> {
                    &&& r@[i]@.name == self.rows()[i].name
                    &&& r@[i]@.description == self.rows()[i].description
                    &&& r@[i]@.last_version == self.rows()[i].version
                    &&& r@[i]@.public_url == self.rows()[i].file_location
                },
    {
        let n = self.entries.len();
        let mut out: Vec<Package> = Vec::new();
        let mut i: usize = 0;
        while i < n
            invariant
                0 <= i <= n,
                n == self.entries@.len(),
                out@.len() == i,
                forall|j: int|
                    0 <= j < i ==> {
                        &&& out@[j]@.name == self.rows()[j].name
                        &&& out@[j]@.description == self.rows()[j].description
                        &&& out@[j]@.last_version == self.rows()[j].version
                        &&& out@[j]@.public_url == self.rows()[j].file_location
                    },
            decreases n - i,
        {
            let e = &self.entries[i];
            out.push(
                Package {
                    name: e.name.clone(),
                    description: e.description.clone(),
                    last_version: e.version.clone(),
                    public_url: e.file_location.clone(),
                },
            );
            proof {
                assert(self.rows()[i as int] == self.entries@[i as int]@);
            }
            i += 1;
        }
        out
    }
}

/// An upsert whose key first occurs at `i` is an update at `i`.
proof fn lemma_upsert_found(s: Seq<EntryView>, i: int, e: EntryView)
    requires
        0 <= i < s.len(),
        s[i].name == e.name && s[i].version == e.version,
        forall|j: int| 0 <= j < i ==> !(s[j].name == e.name && s[j].version == e.version),
    ensures
        spec_upsert(s, e) == s.update(i, e),
    decreases i,
{
    if i == 0 {
        assert(spec_upsert(s, e) =~= s.update(0, e));
    } else {
        assert(forall|j: int| 0 <= j < s.drop_first().len() ==> s.drop_first()[j] == s[j + 1]);
        lemma_upsert_found(s.drop_first(), i - 1, e);
        assert(spec_upsert(s, e) =~= s.update(i, e));
    }
}

/// An upsert whose key is absent is an append.
proof fn lemma_upsert_fresh(s: Seq<EntryView>, e: EntryView)
    requires
        forall|j: int| 0 <= j < s.len() ==> !(s[j].name == e.name && s[j].version == e.version),
    ensures
        spec_upsert(s, e) == s.push(e),
    decreases s.len(),
{
    if s.len() == 0 {
        assert(spec_upsert(s, e) =~= s.push(e));
    } else {
        assert(forall|j: int| 0 <= j < s.drop_first().len() ==> s.drop_first()[j] == s[j + 1]);
        lemma_upsert_fresh(s.drop_first(), e);
        assert(spec_upsert(s, e) =~= s.push(e));
    }
}

/// A raw row as the persistence layer hands it back: every column may be
/// missing or of the wrong shape, in which case it is `None`.
#[derive(Debug, Clone)]
pub struct CatalogRow {
    pub name: Option<String>,
    pub description: Option<String>,
    pub version: Option<String>,
    pub file_loc: Option<String>,
}

/// Every column of the row is present.
pub open spec fn row_complete(r: CatalogRow) -> bool {
    r.name is Some && r.description is Some && r.version is Some && r.file_loc is Some
}

/// Turn raw catalog rows into packages: the stored file location stands
/// in for the download URL. A row with any column missing is refused with
/// a `CatalogError` instead of being read blindly.
pub fn known_proc_blocks(rows: &Vec<CatalogRow>) -> (r: Result<Vec<Package>, ResolveError>)
    ensures
        (forall|i: int| 0 <= i < rows@.len() ==> row_complete(rows@[i])) <==> r is Ok,
        r matches Ok(ps) ==> {
            &&& ps@.len() == rows@.len()
            &&& forall|i: int|
                0 <= i < ps@.len() ==> {
                    &&& ps@[i]@.name == rows@[i].name->0@
                    &&& ps@[i]@.description == rows@[i].description->0@
                    &&& ps@[i]@.last_version == rows@[i].version->0@
                    &&& ps@[i]@.public_url == rows@[i].file_loc->0@
                }
        },
        r matches Err(x) ==> x matches ResolveError::CatalogError(_),
{
    let n = rows.len();
    let mut out: Vec<Package> = Vec::new();
    let mut i: usize = 0;
    while i < n
        invariant
            0 <= i <= n,
            n == rows@.len(),
            out@.len() == i,
            forall|j: int| 0 <= j < i ==> row_complete(rows@[j]),
            forall|j: int|
                0 <= j < i ==> {
                    &&& out@[j]@.name == rows@[j].name->0@
                    &&& out@[j]@.description == rows@[j].description->0@
                    &&& out@[j]@.last_version == rows@[j].version->0@
                    &&& out@[j]@.public_url == rows@[j].file_loc->0@
                },
        decreases n - i,
    {
        let row = &rows[i];
        match (&row.name, &row.description, &row.version, &row.file_loc) {
            (Some(name), Some(description), Some(version), Some(file_loc)) => {
                let p = Package {
                    name: name.clone(),
                    description: description.clone(),
                    last_version: version.clone(),
                    public_url: file_loc.clone(),
                };
                out.push(p);
            }
            _ => {
                return Err(ResolveError::CatalogError(String::from_str("malformed catalog row")));
            }
        }
        i += 1;
    }
    Ok(out)
}

} // verus!
