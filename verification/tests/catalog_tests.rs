use weld::catalog::{known_proc_blocks, Catalog, CatalogEntry, CatalogRow};
use weld::errors::ResolveError;

fn entry(name: &str, version: &str, url: &str) -> CatalogEntry {
    CatalogEntry {
        name: String::from(name),
        version: String::from(version),
        public_url: String::from(url),
        description: String::from("a block"),
        file_location: format!("/home/u/proc_blocks/{}/{}/pb.wasm", name, version),
        created_at: 1_700_000_000,
    }
}

#[test]
fn upsert_then_contains() {
    let mut catalog = Catalog::new();
    assert!(!catalog.contains("softmax", "0.12.0"));
    catalog.upsert(entry("softmax", "0.12.0", "http://x/a.wasm"));
    assert!(catalog.contains("softmax", "0.12.0"));
    assert_eq!(catalog.len(), 1);
}

#[test]
fn matching_needs_both_name_and_version() {
    let mut catalog = Catalog::new();
    catalog.upsert(entry("softmax", "0.12.0", "http://x/a.wasm"));
    assert!(!catalog.contains("softmax", "0.13.0"));
    assert!(!catalog.contains("argmax", "0.12.0"));
}

#[test]
fn upsert_with_equal_key_replaces_the_row() {
    let mut catalog = Catalog::new();
    catalog.upsert(entry("softmax", "0.12.0", "http://x/a.wasm"));
    catalog.upsert(entry("softmax", "0.12.0", "http://y/b.wasm"));
    assert_eq!(catalog.len(), 1);
    assert_eq!(catalog.entries[0].public_url, "http://y/b.wasm");
}

#[test]
fn upsert_with_new_version_adds_a_row() {
    let mut catalog = Catalog::new();
    catalog.upsert(entry("softmax", "0.12.0", "http://x/a.wasm"));
    catalog.upsert(entry("softmax", "0.13.0", "http://x/c.wasm"));
    assert_eq!(catalog.len(), 2);
    assert!(catalog.contains("softmax", "0.12.0"));
    assert!(catalog.contains("softmax", "0.13.0"));
}

#[test]
fn known_packages_use_the_stored_file_location() {
    let mut catalog = Catalog::new();
    catalog.upsert(entry("softmax", "0.12.0", "http://x/a.wasm"));
    let packages = catalog.known_packages();
    assert_eq!(packages.len(), 1);
    assert_eq!(packages[0].name, "softmax");
    assert_eq!(packages[0].last_version, "0.12.0");
    assert_eq!(packages[0].description, "a block");
    assert_eq!(packages[0].public_url, "/home/u/proc_blocks/softmax/0.12.0/pb.wasm");
}

#[test]
fn complete_rows_become_packages() {
    let rows = vec![CatalogRow {
        name: Some(String::from("softmax")),
        description: Some(String::from("a block")),
        version: Some(String::from("0.12.0")),
        file_loc: Some(String::from("/home/u/proc_blocks/softmax/0.12.0/pb.wasm")),
    }];
    let packages = known_proc_blocks(&rows).expect("rows are complete");
    assert_eq!(packages.len(), 1);
    assert_eq!(packages[0].name, "softmax");
    assert_eq!(packages[0].last_version, "0.12.0");
    assert_eq!(packages[0].public_url, "/home/u/proc_blocks/softmax/0.12.0/pb.wasm");
}

#[test]
fn a_row_with_a_missing_column_is_refused() {
    let rows = vec![CatalogRow {
        name: Some(String::from("softmax")),
        description: None,
        version: Some(String::from("0.12.0")),
        file_loc: Some(String::from("/tmp/pb.wasm")),
    }];
    assert!(matches!(
        known_proc_blocks(&rows),
        Err(ResolveError::CatalogError(_))
    ));
}
