use weld::catalog::{Catalog, CatalogEntry};
use weld::shared::Package;
use weld::sync::{run_sync, file_location, SyncPipeline, SyncState};
use weld::wapm::SerializableError;

fn package(name: &str, version: &str, url: &str) -> Package {
    Package {
        name: String::from(name),
        description: format!("{} block", name),
        last_version: String::from(version),
        public_url: String::from(url),
    }
}

fn entry_for(p: &Package, home: &str, now: u64) -> CatalogEntry {
    CatalogEntry {
        name: p.name.clone(),
        version: p.last_version.clone(),
        public_url: p.public_url.clone(),
        description: p.description.clone(),
        file_location: format!("{}/proc_blocks/{}/{}/pb.wasm", home, p.name, p.last_version),
        created_at: now,
    }
}

#[test]
fn diffing_skips_pairs_already_present() {
    let mut catalog = Catalog::new();
    let a = package("a", "1.0", "http://x/a.wasm");
    catalog.upsert(entry_for(&a, "/home/u", 1));
    let mut pipeline = SyncPipeline::new(catalog, String::from("/home/u"));
    pipeline.start();
    pipeline.manifest_fetched(vec![
        package("a", "1.0", "http://x/a.wasm"),
        package("b", "2.0", "http://x/b.wasm"),
    ]);
    let count = pipeline.select_downloads();
    assert_eq!(count, 1);
    assert_eq!(pipeline.pending.len(), 1);
    assert_eq!(pipeline.pending[0].name, "b");
}

#[test]
fn a_new_version_of_a_known_package_is_selected() {
    let mut catalog = Catalog::new();
    let a = package("a", "1.0", "http://x/a.wasm");
    catalog.upsert(entry_for(&a, "/home/u", 1));
    let mut pipeline = SyncPipeline::new(catalog, String::from("/home/u"));
    pipeline.start();
    pipeline.manifest_fetched(vec![package("a", "1.1", "http://x/a.wasm")]);
    assert_eq!(pipeline.select_downloads(), 1);
}

#[test]
fn fresh_manifest_downloads_and_records_every_package() {
    let catalog = Catalog::new();
    let manifest = vec![
        package("a", "1.0", "http://x/a.wasm"),
        package("b", "2.0", "http://x/b.wasm"),
        package("c", "3.0", "http://x/c.wasm"),
    ];
    let outcomes = vec![true, true, true];
    let report = run_sync(
        catalog,
        String::from("/home/u"),
        Ok(manifest),
        &outcomes,
        1_700_000_000,
    );
    assert_eq!(report.state, SyncState::Done);
    assert_eq!(report.attempted, 3);
    assert!(report.failed.is_empty());
    assert_eq!(report.catalog.len(), 3);
    assert!(report.catalog.contains("a", "1.0"));
    assert!(report.catalog.contains("b", "2.0"));
    assert!(report.catalog.contains("c", "3.0"));
    let progress: Vec<u32> = report.events.iter().map(|e| e.progress).collect();
    assert!(progress.windows(2).all(|w| w[0] <= w[1]));
    assert_eq!(*progress.last().unwrap(), 100);
}

#[test]
fn skipped_sync_still_ends_at_full_progress() {
    let mut catalog = Catalog::new();
    catalog.upsert(entry_for(&package("a", "1.0", "http://x/a.wasm"), "/h", 1));
    let outcomes: Vec<bool> = Vec::new();
    let report = run_sync(
        catalog,
        String::from("/h"),
        Err(SerializableError::from_message(String::from(
            "Querying the WAPM registry failed",
        ))),
        &outcomes,
        2,
    );
    assert_eq!(report.state, SyncState::ManifestFetchFailed);
    assert_eq!(report.attempted, 0);
    assert_eq!(report.catalog.len(), 1);
    let progress: Vec<u32> = report.events.iter().map(|e| e.progress).collect();
    assert_eq!(progress, vec![10, 100]);
    assert_eq!(report.events.last().unwrap().message, "Done");
}

#[test]
fn end_to_end_single_package_sync() {
    let catalog = Catalog::new();
    let manifest = vec![package("a", "1.0", "http://x/a.wasm")];
    let outcomes = vec![true];
    let report = run_sync(catalog, String::from("/home/u"), Ok(manifest), &outcomes, 42);
    assert_eq!(report.catalog.len(), 1);
    assert!(report.catalog.contains("a", "1.0"));
    let row = &report.catalog.entries[0];
    assert_eq!(row.file_location, "/home/u/proc_blocks/a/1.0/pb.wasm");
    assert_eq!(row.public_url, "http://x/a.wasm");
    assert_eq!(row.created_at, 42);
    let progress: Vec<u32> = report.events.iter().map(|e| e.progress).collect();
    assert!(progress.windows(2).all(|w| w[0] <= w[1]));
    assert_eq!(progress, vec![10, 20, 21, 100]);
    let messages: Vec<&str> = report.events.iter().map(|e| e.message.as_str()).collect();
    assert_eq!(
        messages,
        vec!["Fetching manifest...", "Checking files", "Fetched package a", "Done"]
    );
}

#[test]
fn a_failed_download_is_recorded_without_disturbing_the_rest() {
    let catalog = Catalog::new();
    let manifest = vec![
        package("a", "1.0", "http://x/a.wasm"),
        package("b", "2.0", "http://x/b.wasm"),
    ];
    let outcomes = vec![true, false];
    let report = run_sync(catalog, String::from("/h"), Ok(manifest), &outcomes, 7);
    assert_eq!(report.attempted, 2);
    assert_eq!(report.failed, vec![String::from("b")]);
    assert_eq!(report.catalog.len(), 1);
    assert!(report.catalog.contains("a", "1.0"));
    assert!(!report.catalog.contains("b", "2.0"));
    assert_eq!(report.state, SyncState::Done);
    assert_eq!(report.events.last().unwrap().progress, 100);
}

#[test]
fn an_empty_selection_finishes_without_downloads() {
    let mut catalog = Catalog::new();
    let a = package("a", "1.0", "http://x/a.wasm");
    catalog.upsert(entry_for(&a, "/h", 1));
    let mut pipeline = SyncPipeline::new(catalog, String::from("/h"));
    pipeline.start();
    pipeline.manifest_fetched(vec![package("a", "1.0", "http://x/a.wasm")]);
    let count = pipeline.select_downloads();
    assert_eq!(count, 0);
    let ev = pipeline.finish();
    assert_eq!(ev.progress, 100);
    assert_eq!(pipeline.state, SyncState::Done);
    assert_eq!(pipeline.catalog.len(), 1);
}

#[test]
fn stepwise_download_events_report_each_package() {
    let catalog = Catalog::new();
    let mut pipeline = SyncPipeline::new(catalog, String::from("/h"));
    pipeline.start();
    pipeline.manifest_fetched(vec![
        package("a", "1.0", "http://x/a.wasm"),
        package("b", "2.0", "http://x/b.wasm"),
    ]);
    assert_eq!(pipeline.select_downloads(), 2);
    let first = pipeline.pending[0].clone();
    let second = pipeline.pending[1].clone();
    // completion order need not be submission order
    let ev1 = pipeline.download_done(second, true, 5);
    assert_eq!(ev1.progress, 21);
    assert_eq!(ev1.message, "Fetched package b");
    let ev2 = pipeline.download_done(first, false, 5);
    assert_eq!(ev2.progress, 22);
    assert_eq!(ev2.message, "Failed package a");
    assert_eq!(pipeline.state, SyncState::Finalizing);
    pipeline.finish();
    assert!(pipeline.catalog.contains("b", "2.0"));
    assert!(!pipeline.catalog.contains("a", "1.0"));
    assert_eq!(pipeline.failed, vec![String::from("a")]);
}

#[test]
fn file_location_is_content_addressed() {
    assert_eq!(
        file_location("/home/u", "softmax", "0.12.0"),
        "/home/u/proc_blocks/softmax/0.12.0/pb.wasm"
    );
}
