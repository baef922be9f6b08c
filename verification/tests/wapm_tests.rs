use weld::wapm::{
    fetch_packages, flatten_packages, wapm_registry, GetNamespace, ManifestResponse, ModuleNode,
    NamespaceData, PackageConnection, PackageEdge, PackageNode, ResponseData, VersionNode,
};

fn sample_data() -> ResponseData {
    ResponseData {
        get_namespace: Some(NamespaceData {
            packages: Some(PackageConnection {
                edges: vec![
                    Some(PackageEdge {
                        node: Some(PackageNode {
                            name: String::from("softmax"),
                            last_version: Some(VersionNode {
                                version: String::from("0.12.0"),
                                description: String::from("softmax block"),
                                modules: vec![
                                    ModuleNode { public_url: String::from("http://cdn/softmax.wasm") },
                                    ModuleNode { public_url: String::from("http://cdn/other.wasm") },
                                ],
                            }),
                        }),
                    }),
                    // a node without modules has nothing downloadable
                    Some(PackageEdge {
                        node: Some(PackageNode {
                            name: String::from("empty"),
                            last_version: Some(VersionNode {
                                version: String::from("1.0.0"),
                                description: String::from("no modules"),
                                modules: vec![],
                            }),
                        }),
                    }),
                    // a node that never published a version is skipped
                    Some(PackageEdge {
                        node: Some(PackageNode {
                            name: String::from("unversioned"),
                            last_version: None,
                        }),
                    }),
                    Some(PackageEdge { node: None }),
                    None,
                ],
            }),
        }),
    }
}

#[test]
fn flatten_keeps_only_nodes_with_modules() {
    let packages = flatten_packages(Some(sample_data()));
    assert_eq!(packages.len(), 1);
    assert_eq!(packages[0].name, "softmax");
    assert_eq!(packages[0].description, "softmax block");
    assert_eq!(packages[0].last_version, "0.12.0");
    // only the first module's URL is used
    assert_eq!(packages[0].public_url, "http://cdn/softmax.wasm");
}

#[test]
fn flatten_of_a_missing_layer_is_empty() {
    assert!(flatten_packages(None).is_empty());
    assert!(flatten_packages(Some(ResponseData { get_namespace: None })).is_empty());
    assert!(flatten_packages(Some(ResponseData {
        get_namespace: Some(NamespaceData { packages: None }),
    }))
    .is_empty());
}

#[test]
fn fetch_packages_flattens_a_clean_answer() {
    let response = ManifestResponse { data: Some(sample_data()), errors: vec![] };
    let packages = fetch_packages(response).expect("no registry errors");
    assert_eq!(packages.len(), 1);
    assert_eq!(packages[0].name, "softmax");
}

#[test]
fn fetch_packages_fails_on_registry_errors_without_using_data() {
    let response = ManifestResponse {
        data: Some(sample_data()),
        errors: vec![String::from("namespace temporarily unavailable")],
    };
    let err = fetch_packages(response).expect_err("errors poison the answer");
    assert_eq!(err.msg, "Querying the WAPM registry failed");
}

#[test]
fn registry_endpoint_and_namespace_are_fixed() {
    assert_eq!(wapm_registry(), "https://registry.wapm.io/graphql");
    assert_eq!(GetNamespace::hotg().name, "hotg-ai");
}
