use vstd::prelude::*;

use crate::shared::package::{Package, PackageView};

verus! {

/// The fixed registry endpoint the package manifest is fetched from.
pub fn wapm_registry() -> (r: String)
    ensures
        r@ == "https://registry.wapm.io/graphql"@,
{
    String::from_str("https://registry.wapm.io/graphql")
}

/// The manifest query: all packages under one organization namespace.
pub struct GetNamespace {
    pub name: String,
}

impl GetNamespace {
    /// The query for the fixed organization whose packages are synced.
    pub fn hotg() -> (r: GetNamespace)
        ensures
            r.name@ == "hotg-ai"@,
    {
        GetNamespace { name: String::from_str("hotg-ai") }
    }
}

/// One module of a published package version; only its download URL is
/// of interest here.
#[derive(Debug, Clone)]
pub struct ModuleNode {
    pub public_url: String,
}

/// The latest published version of a package.
#[derive(Debug, Clone)]
pub struct VersionNode {
    pub version: String,
    pub description: String,
    pub modules: Vec<ModuleNode>,
}

/// One package node of the registry answer.
#[derive(Debug, Clone)]
pub struct PackageNode {
    pub name: String,
    pub last_version: Option<VersionNode>,
}

/// One edge of the package listing.
#[derive(Debug, Clone)]
pub struct PackageEdge {
    pub node: Option<PackageNode>,
}

/// The package listing of a namespace.
#[derive(Debug, Clone)]
pub struct PackageConnection {
    pub edges: Vec<Option<PackageEdge>>,
}

/// The namespace the registry answered with.
#[derive(Debug, Clone)]
pub struct NamespaceData {
    pub packages: Option<PackageConnection>,
}

/// The `data` part of the registry answer.
#[derive(Debug, Clone)]
pub struct ResponseData {
    pub get_namespace: Option<NamespaceData>,
}

/// A registry answer: optional data plus application-level error
/// messages. A non-empty error list poisons the whole answer.
#[derive(Debug, Clone)]
pub struct ManifestResponse {
    pub data: Option<ResponseData>,
    pub errors: Vec<String>,
}

/// The packages one edge contributes: none when the edge, its node, the
/// node's last version or that version's module list is missing or
/// empty; otherwise one package built from the first module's URL.
pub open spec fn node_packages(e: Option<PackageEdge>) -> Seq<PackageView> {
    match e {
        None => Seq::empty(),
        Some(edge) => match edge.node {
            None => Seq::empty(),
            Some(node) => match node.last_version {
                None => Seq::empty(),
                Some(lv) => if lv.modules@.len() == 0 {
                    Seq::empty()
                } else {
                    seq![
                        PackageView {
                            name: node.name@,
                            description: lv.description@,
                            last_version: lv.version@,
                            public_url: lv.modules@[0].public_url@,
                        },
                    ]
                },
            },
        },
    }
}

/// All packages the listed edges contribute, in listing order.
pub open spec fn flatten_edges(edges: Seq<Option<PackageEdge>>) -> Seq<PackageView>
    decreases edges.len(),
{
    if edges.len() == 0 {
        Seq::empty()
    } else {
        node_packages(edges[0]) + flatten_edges(edges.drop_first())
    }
}

/// The packages of a registry answer's data: those of its namespace's
/// listing, or none where any layer of the answer is missing.
pub open spec fn spec_manifest_packages(data: Option<ResponseData>) -> Seq<PackageView> {
    match data {
        None => Seq::empty(),
        Some(d) => match d.get_namespace {
            None => Seq::empty(),
            Some(ns) => match ns.packages {
                None => Seq::empty(),
                Some(conn) => flatten_edges(conn.edges@),
            },
        },
    }
}

/// Walk the nested registry answer: organization, packages, edges, node,
/// last version, modules. A node without modules is skipped; for the
/// rest, the first module's URL becomes the package's download URL.
pub fn flatten_packages(data: Option<ResponseData>) -> (r: Vec<Package>)
    ensures
        r@.map_values(|p: Package| p@) == spec_manifest_packages(data),
{
    let mut out: Vec<Package> = Vec::new();
    let conn: PackageConnection = match data {
        Some(d) => match d.get_namespace {
            Some(ns) => match ns.packages {
                Some(conn) => conn,
                None => {
                    proof {
                        assert(out@.map_values(|p: Package| p@) =~= Seq::<PackageView>::empty());
                    }
                    return out;
                },
            },
            None => {
                proof {
                    assert(out@.map_values(|p: Package| p@) =~= Seq::<PackageView>::empty());
                }
                return out;
            },
        },
        None => {
            proof {
                assert(out@.map_values(|p: Package| p@) =~= Seq::<PackageView>::empty());
            }
            return out;
        },
    };
    let ghost edges = conn.edges@;
    let n = conn.edges.len();
    let mut i: usize = 0;
    proof {
        assert(edges.skip(0) =~= edges);
        assert(out@.map_values(|p: Package| p@) =~= Seq::<PackageView>::empty());
        assert(out@.map_values(|p: Package| p@) + flatten_edges(edges) =~= flatten_edges(edges));
    }
    while i < n
        invariant
            0 <= i <= n,
            n == conn.edges@.len(),
            edges == conn.edges@,
            flatten_edges(edges) == out@.map_values(|p: Package| p@) + flatten_edges(
                edges.skip(i as int),
            ),
        decreases n - i,
    {
        proof {
            assert(edges.skip(i as int)[0] == edges[i as int]);
            assert(edges.skip(i as int).drop_first() =~= edges.skip(i + 1));
        }
        let ghost before = out@.map_values(|p: Package| p@);
        match &conn.edges[i] {
            Some(edge) => match &edge.node {
                Some(node) => match &node.last_version {
                    Some(lv) => {
                        if lv.modules.len() > 0 {
                            let p = Package {
                                name: node.name.clone(),
                                description: lv.description.clone(),
                                last_version: lv.version.clone(),
                                public_url: lv.modules[0].public_url.clone(),
                            };
                            proof {
                                assert(node_packages(edges[i as int]) =~= seq![p@]);
                            }
                            out.push(p);
                            proof {
                                assert(out@.map_values(|p: Package| p@) =~= before.push(
                                    out@[out@.len() - 1]@,
                                ));
                                assert(out@.map_values(|p: Package| p@) =~= before + node_packages(
                                    edges[i as int],
                                ));
                            }
                        } else {
                            proof {
                                assert(node_packages(edges[i as int]) =~= Seq::<
                                    PackageView,
                                >::empty());
                                assert(before + node_packages(edges[i as int]) =~= before);
                            }
                        }
                    },
                    None => {
                        proof {
                            assert(node_packages(edges[i as int]) =~= Seq::<PackageView>::empty());
                            assert(before + node_packages(edges[i as int]) =~= before);
                        }
                    },
                },
                None => {
                    proof {
                        assert(node_packages(edges[i as int]) =~= Seq::<PackageView>::empty());
                        assert(before + node_packages(edges[i as int]) =~= before);
                    }
                },
            },
            None => {
                proof {
                    assert(node_packages(edges[i as int]) =~= Seq::<PackageView>::empty());
                    assert(before + node_packages(edges[i as int]) =~= before);
                }
            },
        }
        i += 1;
    }
    proof {
        assert(edges.skip(n as int) =~= Seq::<Option<PackageEdge>>::empty());
        assert(flatten_edges(edges) =~= out@.map_values(|p: Package| p@));
    }
    out
}

/// A serializable account of a failure, with its message, the chain of
/// causes, and a verbose rendering.
#[derive(Debug, Clone)]
pub struct SerializableError {
    pub msg: String,
    pub causes: Vec<String>,
    pub backtrace: String,
}

impl SerializableError {
    /// An error that consists of a single message: it is its own only
    /// cause and its own verbose rendering.
    pub fn from_message(msg: String) -> (r: SerializableError)
        ensures
            r.msg@ == msg@,
            r.causes@.len() == 1 && r.causes@[0]@ == msg@,
            r.backtrace@ == msg@,
    {
        let mut causes: Vec<String> = Vec::new();
        causes.push(msg.clone());
        SerializableError { msg: msg.clone(), causes, backtrace: msg }
    }
}

/// Judge a registry answer: a non-empty error list fails the whole fetch
/// with one aggregate registry error and no partial use of its data;
/// otherwise the flattened package listing is the manifest.
pub fn fetch_packages(response: ManifestResponse) -> (r: Result<Vec<Package>, SerializableError>)
    ensures
        response.errors@.len() == 0 <==> r is Ok,
        r matches Ok(ps) ==> ps@.map_values(|p: Package| p@) == spec_manifest_packages(
            response.data,
        ),
        r matches Err(e) ==> e.msg@ == "Querying the WAPM registry failed"@,
{
    if response.errors.len() > 0 {
        Err(SerializableError::from_message(String::from_str("Querying the WAPM registry failed")))
    } else {
        Ok(flatten_packages(response.data))
    }
}

} // verus!
