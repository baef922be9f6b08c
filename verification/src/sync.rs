use vstd::prelude::*;

use crate::catalog::{lemma_upsert, spec_has, spec_upsert, unique_rows, Catalog, CatalogEntry, EntryView};
use crate::shared::package::{Package, PackageView};
use crate::wapm::SerializableError;

verus! {

broadcast use vstd::seq_lib::group_filter_ensures;

/// One progress report of the pipeline: a value between 0 and 100 and a
/// message for the user.
#[derive(Debug)]
pub struct ProgressEvent {
    pub progress: u32,
    pub message: String,
}

/// The mathematical content of a [`ProgressEvent`].
pub struct EventView {
    pub progress: u32,
    pub message: Seq<char>,
}

impl View for ProgressEvent {
    type V = EventView;

    open spec fn view(&self) -> EventView {
        EventView { progress: self.progress, message: self.message@ }
    }
}

/// The stations of one synchronization run.
#[derive(Debug, Copy, Clone, PartialEq, Eq, Structural)]
pub enum SyncState {
    Idle,
    FetchingManifest,
    Diffing,
    Downloading,
    Finalizing,
    Done,
    ManifestFetchFailed,
}

/// A package must be downloaded when no catalog row matches both its
/// name and its version.
pub open spec fn spec_needs_download(cat: Seq<EntryView>, p: PackageView) -> bool {
    !spec_has(cat, p.name, p.last_version)
}

/// The packages of the manifest that are not yet in the catalog, in
/// manifest order.
pub open spec fn spec_diff(man: Seq<PackageView>, cat: Seq<EntryView>) -> Seq<PackageView> {
    man.filter(|p: PackageView| spec_needs_download(cat, p))
}

/// Where a downloaded payload is written: the content-addressed location
/// `{home}/proc_blocks/{name}/{version}/pb.wasm`.
pub open spec fn spec_file_location(home: Seq<char>, name: Seq<char>, version: Seq<char>) -> Seq<
    char,
> {
    home + "/proc_blocks/"@ + name + "/"@ + version + "/pb.wasm"@
}

/// The catalog row written after `p` was downloaded successfully.
pub open spec fn spec_entry_of(p: PackageView, home: Seq<char>, now: u64) -> EntryView {
    EntryView {
        name: p.name,
        version: p.last_version,
        public_url: p.public_url,
        description: p.description,
        file_location: spec_file_location(home, p.name, p.last_version),
        created_at: now,
    }
}

/// The progress value after `done` completed downloads: the count on a
/// base of 20, held at 100.
pub open spec fn spec_progress_value(done: int) -> u32 {
    if 20 + done >= 100 {
        100
    } else {
        (20 + done) as u32
    }
}

/// The message of a successful per-package progress event.
pub open spec fn fetched_message(name: Seq<char>) -> Seq<char> {
    "Fetched package "@ + name
}

/// The message of a failed per-package progress event.
pub open spec fn failed_message(name: Seq<char>) -> Seq<char> {
    "Failed package "@ + name
}

/// Progress values never decrease along the event list.
pub open spec fn monotone(events: Seq<EventView>) -> bool {
    forall|i: int, j: int|
        0 <= i < j < events.len() ==> events[i].progress <= events[j].progress
}

/// Every progress value is between 0 and 100.
pub open spec fn bounded(events: Seq<EventView>) -> bool {
    forall|i: int| 0 <= i < events.len() ==> events[i].progress <= 100
}

/// The synchronization pipeline: it is driven with the outcome of the
/// manifest fetch and of every download, keeps the catalog and the
/// progress report in step, and never lets the progress run backwards.
#[derive(Debug)]
pub struct SyncPipeline {
    pub state: SyncState,
    pub catalog: Catalog,
    pub home_dir: String,
    pub manifest: Vec<Package>,
    pub pending: Vec<Package>,
    pub done_count: usize,
    pub failed: Vec<String>,
    pub events: Vec<ProgressEvent>,
}

impl SyncPipeline {
    /// The emitted progress events, as mathematical values.
    pub open spec fn events_view(self) -> Seq<EventView> {
        self.events@.map_values(|e: ProgressEvent| e@)
    }

    /// The selected packages, as mathematical values.
    pub open spec fn pending_view(self) -> Seq<PackageView> {
        self.pending@.map_values(|p: Package| p@)
    }

    /// The well-formedness every method preserves: a sound catalog, a
    /// bounded and monotone event list, and the progress bookkeeping the
    /// current state demands.
    pub open spec fn wf(self) -> bool {
        &&& self.catalog.wf()
        &&& bounded(self.events_view())
        &&& monotone(self.events_view())
        &&& match self.state {
            SyncState::Idle => self.events@.len() == 0 && self.done_count == 0,
            SyncState::FetchingManifest => {
                &&& self.events@.len() > 0
                &&& self.events_view().last().progress == 10
                &&& self.done_count == 0
            },
            SyncState::Diffing => {
                &&& self.events@.len() > 0
                &&& self.events_view().last().progress == 20
                &&& self.done_count == 0
            },
            SyncState::Downloading => {
                &&& self.events@.len() > 0
                &&& self.events_view().last().progress == spec_progress_value(
                    self.done_count as int,
                )
                &&& self.done_count < self.pending_view().len()
            },
            SyncState::Finalizing => {
                &&& self.events@.len() > 0
                &&& self.events_view().last().progress == spec_progress_value(
                    self.done_count as int,
                )
                &&& self.done_count == self.pending_view().len()
            },
            SyncState::Done => self.events@.len() > 0 && self.events_view().last().progress == 100,
            SyncState::ManifestFetchFailed => self.events@.len() > 0
                && self.events_view().last().progress == 100,
        }
    }

    /// A fresh pipeline over the given catalog, not yet started.
    pub fn new(catalog: Catalog, home_dir: String) -> (r: SyncPipeline)
        requires
            catalog.wf(),
        ensures
            r.wf(),
            r.state == SyncState::Idle,
            r.catalog == catalog,
            r.home_dir == home_dir,
            r.events@.len() == 0,
            r.failed@.len() == 0,
    {
        let r = SyncPipeline {
            state: SyncState::Idle,
            catalog,
            home_dir,
            manifest: Vec::new(),
            pending: Vec::new(),
            done_count: 0,
            failed: Vec::new(),
            events: Vec::new(),
        };
        proof {
            assert(r.events_view() =~= Seq::<EventView>::empty());
        }
        r
    }

    /// Append one progress event; the caller guarantees it does not run
    /// the progress backwards.
    fn emit(&mut self, progress: u32, message: String) -> (ev: ProgressEvent)
        requires
            progress <= 100,
            bounded(old(self).events_view()),
            monotone(old(self).events_view()),
            old(self).events@.len() > 0 ==> old(self).events_view().last().progress <= progress,
        ensures
            final(self).events@ == old(self).events@.push(ev),
            ev.progress == progress,
            ev.message@ == message@,
            bounded(final(self).events_view()),
            monotone(final(self).events_view()),
            final(self).events_view().last().progress == progress,
            final(self).state == old(self).state,
            final(self).catalog == old(self).catalog,
            final(self).home_dir == old(self).home_dir,
            final(self).manifest == old(self).manifest,
            final(self).pending == old(self).pending,
            final(self).done_count == old(self).done_count,
            final(self).failed == old(self).failed,
    {
        let ev = ProgressEvent { progress, message: message.clone() };
        let ghost before = self.events_view();
        self.events.push(ev);
        proof {
            assert(self.events_view() =~= before.push(
                EventView { progress, message: message@ },
            ));
            assert forall|i: int, j: int|
                0 <= i < j < self.events_view().len() implies self.events_view()[i].progress
                <= self.events_view()[j].progress by {
                if j < before.len() {
                } else {
                    if i < before.len() {
                        assert(before[i].progress <= progress) by {
                            if before.len() > 0 {
                                assert(before[i].progress <= before[before.len() - 1].progress);
                            }
                        }
                    }
                }
            }
        }
        ProgressEvent { progress, message }
    }

    /// Start the run: announce that the manifest is being fetched.
    pub fn start(&mut self) -> (ev: ProgressEvent)
        requires
            old(self).wf(),
            old(self).state == SyncState::Idle,
        ensures
            final(self).wf(),
            final(self).state == SyncState::FetchingManifest,
            final(self).catalog == old(self).catalog,
            final(self).home_dir == old(self).home_dir,
            final(self).failed == old(self).failed,
            final(self).events@ == old(self).events@.push(ev),
            ev@.progress == 10 && ev@.message == "Fetching manifest..."@,
    {
        let ev = self.emit(10, String::from_str("Fetching manifest..."));
        self.state = SyncState::FetchingManifest;
        ev
    }

    /// The manifest could not be fetched: the run terminates at once with
    /// a final full-progress event; the failure is not fatal to the
    /// embedding application, sync is simply skipped.
    pub fn manifest_failed(&mut self) -> (ev: ProgressEvent)
        requires
            old(self).wf(),
            old(self).state == SyncState::FetchingManifest,
        ensures
            final(self).wf(),
            final(self).state == SyncState::ManifestFetchFailed,
            final(self).catalog == old(self).catalog,
            final(self).home_dir == old(self).home_dir,
            final(self).failed == old(self).failed,
            final(self).events@ == old(self).events@.push(ev),
            ev@.progress == 100 && ev@.message == "Done"@,
    {
        let ev = self.emit(100, String::from_str("Done"));
        self.state = SyncState::ManifestFetchFailed;
        ev
    }

    /// The manifest arrived: keep it and move on to diffing it against
    /// the catalog.
    pub fn manifest_fetched(&mut self, manifest: Vec<Package>) -> (ev: ProgressEvent)
        requires
            old(self).wf(),
            old(self).state == SyncState::FetchingManifest,
        ensures
            final(self).wf(),
            final(self).state == SyncState::Diffing,
            final(self).catalog == old(self).catalog,
            final(self).home_dir == old(self).home_dir,
            final(self).failed == old(self).failed,
            final(self).manifest == manifest,
            final(self).events@ == old(self).events@.push(ev),
            ev@.progress == 20 && ev@.message == "Checking files"@,
    {
        let ev = self.emit(20, String::from_str("Checking files"));
        self.state = SyncState::Diffing;
        self.manifest = manifest;
        ev
    }

    /// Diff the manifest against the catalog: exactly the packages whose
    /// (name, version) pair the catalog lacks are selected, in manifest
    /// order. With nothing to download the run moves straight on to
    /// finalizing.
    pub fn select_downloads(&mut self) -> (count: usize)
        requires
            old(self).wf(),
            old(self).state == SyncState::Diffing,
        ensures
            final(self).wf(),
            final(self).pending_view() == spec_diff(
                old(self).manifest@.map_values(|p: Package| p@),
                old(self).catalog.rows(),
            ),
            count == final(self).pending_view().len(),
            final(self).state == if count == 0 {
                SyncState::Finalizing
            } else {
                SyncState::Downloading
            },
            final(self).catalog == old(self).catalog,
            final(self).manifest == old(self).manifest,
            final(self).home_dir == old(self).home_dir,
            final(self).failed == old(self).failed,
            final(self).events == old(self).events,
            final(self).done_count == 0,
    {
        let ghost man = self.manifest@.map_values(|p: Package| p@);
        let ghost cat = self.catalog.rows();
        let ghost pred = |p: PackageView| spec_needs_download(cat, p);
        let n = self.manifest.len();
        let mut selected: Vec<Package> = Vec::new();
        let mut i: usize = 0;
        proof {
            assert(man.take(0).filter(pred) =~= Seq::<PackageView>::empty());
            assert(selected@.map_values(|p: Package| p@) =~= Seq::<PackageView>::empty());
        }
        while i < n
            invariant
                0 <= i <= n,
                n == self.manifest@.len(),
                man == self.manifest@.map_values(|p: Package| p@),
                cat == self.catalog.rows(),
                pred == (|p: PackageView| spec_needs_download(cat, p)),
                selected@.map_values(|p: Package| p@) == man.take(i as int).filter(pred),
            decreases n - i,
        {
            let ghost before = selected@.map_values(|p: Package| p@);
            proof {
                assert(man.take(i + 1).drop_last() =~= man.take(i as int));
                assert(man.take(i + 1).last() == man[i as int]);
                reveal(Seq::filter);
            }
            let p = &self.manifest[i];
            proof {
                assert(man[i as int] == p@);
            }
            if !self.catalog.contains(p.name.as_str(), p.last_version.as_str()) {
                assert(spec_needs_download(cat, p@));
                selected.push(p.duplicate());
                proof {
                    assert(selected@.map_values(|q: Package| q@) =~= before.push(p@));
                    assert(man.take(i + 1).filter(pred) =~= before.push(man[i as int]));
                }
            } else {
                proof {
                    assert(!pred(man[i as int]));
                    assert(man.take(i + 1).filter(pred) =~= before);
                }
            }
            i += 1;
        }
        proof {
            assert(man.take(n as int) =~= man);
        }
        let count = selected.len();
        self.pending = selected;
        self.done_count = 0;
        if count == 0 {
            self.state = SyncState::Finalizing;
        } else {
            self.state = SyncState::Downloading;
        }
        count
    }

    /// One download finished, in completion order. A success writes the
    /// catalog row for the package and its content-addressed location; a
    /// failure is recorded by name and costs nothing else. Either way the
    /// progress counter moves forward by one and an event reports it.
    pub fn download_done(&mut self, package: Package, succeeded: bool, created_at: u64) -> (ev:
        ProgressEvent)
        requires
            old(self).wf(),
            old(self).state == SyncState::Downloading,
        ensures
            final(self).wf(),
            final(self).done_count == old(self).done_count + 1,
            final(self).pending == old(self).pending,
            final(self).manifest == old(self).manifest,
            final(self).home_dir == old(self).home_dir,
            final(self).state == if final(self).done_count == final(self).pending_view().len() {
                SyncState::Finalizing
            } else {
                SyncState::Downloading
            },
            succeeded ==> {
                &&& final(self).catalog.rows() == spec_upsert(
                    old(self).catalog.rows(),
                    spec_entry_of(package@, old(self).home_dir@, created_at),
                )
                &&& final(self).failed == old(self).failed
            },
            !succeeded ==> {
                &&& final(self).catalog == old(self).catalog
                &&& final(self).failed@ == old(self).failed@.push(package.name)
            },
            final(self).events@ == old(self).events@.push(ev),
            ev@.progress == spec_progress_value(old(self).done_count + 1),
            ev@.message == if succeeded {
                fetched_message(package@.name)
            } else {
                failed_message(package@.name)
            },
    {
        let total = self.pending.len();
        proof {
            assert(self.pending_view().len() == self.pending@.len());
            assert(self.done_count < total);
        }
        let d = self.done_count + 1;
        let progress: u32 = if d >= 80 {
            100
        } else {
            20 + (d as u32)
        };
        let ev = if succeeded {
            let file_location = file_location(self.home_dir.as_str(), package.name.as_str(),
                package.last_version.as_str());
            let entry = CatalogEntry {
                name: package.name.clone(),
                version: package.last_version.clone(),
                public_url: package.public_url.clone(),
                description: package.description.clone(),
                file_location,
                created_at,
            };
            proof {
                assert(entry@ == spec_entry_of(package@, self.home_dir@, created_at));
            }
            self.catalog.upsert(entry);
            let msg = String::from_str("Fetched package ").concat(package.name.as_str());
            self.emit(progress, msg)
        } else {
            self.failed.push(package.name.clone());
            let msg = String::from_str("Failed package ").concat(package.name.as_str());
            self.emit(progress, msg)
        };
        self.done_count = d;
        if d == total {
            self.state = SyncState::Finalizing;
        } else {
            self.state = SyncState::Downloading;
        }
        ev
    }

    /// All downloads are accounted for: close the run with the final
    /// full-progress event.
    pub fn finish(&mut self) -> (ev: ProgressEvent)
        requires
            old(self).wf(),
            old(self).state == SyncState::Finalizing,
        ensures
            final(self).wf(),
            final(self).state == SyncState::Done,
            final(self).catalog == old(self).catalog,
            final(self).home_dir == old(self).home_dir,
            final(self).failed == old(self).failed,
            final(self).done_count == old(self).done_count,
            final(self).pending == old(self).pending,
            final(self).events@ == old(self).events@.push(ev),
            ev@.progress == 100 && ev@.message == "Done"@,
    {
        let ev = self.emit(100, String::from_str("Done"));
        self.state = SyncState::Done;
        ev
    }
}

/// Build the content-addressed location of a package's payload.
pub fn file_location(home: &str, name: &str, version: &str) -> (r: String)
    ensures
        r@ == spec_file_location(home@, name@, version@),
{
    let mut out = String::from_str(home);
    out.append("/proc_blocks/");
    out.append(name);
    out.append("/");
    out.append(version);
    out.append("/pb.wasm");
    out
}

/// The catalog after every selected download was processed in order:
/// a success stores its row, a failure changes nothing.
pub open spec fn spec_apply_downloads(
    cat: Seq<EntryView>,
    selected: Seq<PackageView>,
    ok: Seq<bool>,
    home: Seq<char>,
    now: u64,
) -> Seq<EntryView>
    decreases selected.len(),
{
    if selected.len() == 0 {
        cat
    } else {
        let cat1 = if ok[0] {
            spec_upsert(cat, spec_entry_of(selected[0], home, now))
        } else {
            cat
        };
        spec_apply_downloads(cat1, selected.drop_first(), ok.drop_first(), home, now)
    }
}

/// The names of the selected packages whose download failed, in order.
pub open spec fn spec_failed_names(selected: Seq<PackageView>, ok: Seq<bool>) -> Seq<Seq<char>>
    decreases selected.len(),
{
    if selected.len() == 0 {
        Seq::empty()
    } else {
        (if ok[0] {
            Seq::empty()
        } else {
            seq![selected[0].name]
        }) + spec_failed_names(selected.drop_first(), ok.drop_first())
    }
}

/// A (name, version) pair already present in the catalog is selected for
/// zero downloads: no package the diff selects carries that pair.
pub proof fn lemma_present_pair_not_selected(
    man: Seq<PackageView>,
    cat: Seq<EntryView>,
    name: Seq<char>,
    version: Seq<char>,
)
    requires
        spec_has(cat, name, version),
    ensures
        forall|i: int|
            0 <= i < spec_diff(man, cat).len() ==> !((#[trigger] spec_diff(man, cat)[i]).name
                == name && spec_diff(man, cat)[i].last_version == version),
{
    let pred = |p: PackageView| spec_needs_download(cat, p);
    assert forall|i: int|
        0 <= i < spec_diff(man, cat).len() implies !((#[trigger] spec_diff(man, cat)[i]).name
        == name && spec_diff(man, cat)[i].last_version == version) by {
        assert(pred(man.filter(pred)[i]));
    }
}

/// A filter whose test holds everywhere keeps the whole sequence.
proof fn lemma_filter_all(s: Seq<PackageView>, pred: spec_fn(PackageView) -> bool)
    requires
        forall|i: int| 0 <= i < s.len() ==> pred(#[trigger] s[i]),
    ensures
        s.filter(pred) == s,
    decreases s.len(),
{
    reveal(Seq::filter);
    if s.len() == 0 {
        assert(s.filter(pred) =~= s);
    } else {
        assert(forall|i: int| 0 <= i < s.drop_last().len() ==> s.drop_last()[i] == s[i]);
        lemma_filter_all(s.drop_last(), pred);
        assert(pred(s.last()));
        assert(s.filter(pred) =~= s.drop_last().push(s.last()));
        assert(s.drop_last().push(s.last()) =~= s);
    }
}

/// Processing fresh, pairwise-distinct packages with every download
/// succeeding adds exactly one catalog row per package: every pair
/// becomes present, the catalog grows by exactly the package count, and
/// every pair it already held stays present.
pub proof fn lemma_apply_all_fresh(
    cat: Seq<EntryView>,
    sel: Seq<PackageView>,
    ok: Seq<bool>,
    home: Seq<char>,
    now: u64,
)
    requires
        unique_rows(cat),
        ok.len() == sel.len(),
        forall|i: int| 0 <= i < ok.len() ==> ok[i],
        forall|i: int|
            0 <= i < sel.len() ==> !spec_has(
                cat,
                (#[trigger] sel[i]).name,
                sel[i].last_version,
            ),
        forall|i: int, j: int|
            0 <= i < j < sel.len() ==> !(sel[i].name == sel[j].name && sel[i].last_version
                == sel[j].last_version),
    ensures
        unique_rows(spec_apply_downloads(cat, sel, ok, home, now)),
        spec_apply_downloads(cat, sel, ok, home, now).len() == cat.len() + sel.len(),
        forall|i: int|
            0 <= i < sel.len() ==> spec_has(
                spec_apply_downloads(cat, sel, ok, home, now),
                (#[trigger] sel[i]).name,
                sel[i].last_version,
            ),
        forall|n: Seq<char>, v: Seq<char>|
            spec_has(cat, n, v) ==> #[trigger] spec_has(
                spec_apply_downloads(cat, sel, ok, home, now),
                n,
                v,
            ),
    decreases sel.len(),
{
    if sel.len() > 0 {
        let e0 = spec_entry_of(sel[0], home, now);
        let cat1 = spec_upsert(cat, e0);
        let result = spec_apply_downloads(cat, sel, ok, home, now);
        lemma_upsert(cat, e0);
        assert(e0.name == sel[0].name && e0.version == sel[0].last_version);
        assert(!spec_has(cat, e0.name, e0.version));
        assert(cat1.len() == cat.len() + 1);
        assert(forall|i: int|
            0 <= i < sel.drop_first().len() ==> #[trigger] sel.drop_first()[i] == sel[i + 1]);
        assert(forall|i: int|
            0 <= i < ok.drop_first().len() ==> #[trigger] ok.drop_first()[i] == ok[i + 1]);
        assert forall|i: int|
            0 <= i < sel.drop_first().len() implies !spec_has(
            cat1,
            (#[trigger] sel.drop_first()[i]).name,
            sel.drop_first()[i].last_version,
        ) by {
            let k = sel.drop_first()[i];
            assert(k == sel[i + 1]);
            assert(!(k.name == sel[0].name && k.last_version == sel[0].last_version));
            assert(!spec_has(cat, k.name, k.last_version));
            assert(spec_has(cat1, k.name, k.last_version) == spec_has(cat, k.name, k.last_version));
        }
        lemma_apply_all_fresh(cat1, sel.drop_first(), ok.drop_first(), home, now);
        assert(result == spec_apply_downloads(cat1, sel.drop_first(), ok.drop_first(), home, now));
        // presence of the head's pair survives the remaining downloads
        assert(spec_has(cat1, e0.name, e0.version));
        assert(spec_has(result, sel[0].name, sel[0].last_version));
        assert forall|i: int|
            0 <= i < sel.len() implies spec_has(
            result,
            (#[trigger] sel[i]).name,
            sel[i].last_version,
        ) by {
            if i > 0 {
                assert(sel.drop_first()[i - 1] == sel[i]);
            }
        }
        // pairs the catalog already held survive the whole run
        assert forall|n: Seq<char>, v: Seq<char>| spec_has(cat, n, v) implies #[trigger] spec_has(
            result,
            n,
            v,
        ) by {
            if n == e0.name && v == e0.version {
                assert(spec_has(cat1, n, v));
            } else {
                assert(spec_has(cat1, n, v) == spec_has(cat, n, v));
            }
        }
    }
}

/// A manifest of packages none of which the catalog holds is selected in
/// full: the diff keeps every package, in order.
pub proof fn lemma_fresh_manifest_selected_in_full(man: Seq<PackageView>, cat: Seq<EntryView>)
    requires
        forall|i: int|
            0 <= i < man.len() ==> !spec_has(cat, (#[trigger] man[i]).name, man[i].last_version),
    ensures
        spec_diff(man, cat) == man,
{
    let pred = |p: PackageView| spec_needs_download(cat, p);
    assert forall|i: int| 0 <= i < man.len() implies pred(#[trigger] man[i]) by {
        assert(!spec_has(cat, man[i].name, man[i].last_version));
    }
    lemma_filter_all(man, pred);
}

/// A manifest of pairwise-distinct packages, none of which the catalog
/// holds, is synchronized in full: every package is selected for
/// download, and when every download succeeds the catalog gains exactly
/// one row per package, each pair becoming present. Together with
/// [`run_sync`]'s own contract, whose event list always ends at
/// progress 100, this pins the outcome of a fresh full synchronization.
pub proof fn lemma_fresh_manifest_full_sync(
    cat: Seq<EntryView>,
    man: Seq<PackageView>,
    ok: Seq<bool>,
    home: Seq<char>,
    now: u64,
)
    requires
        unique_rows(cat),
        ok.len() == man.len(),
        forall|i: int| 0 <= i < ok.len() ==> ok[i],
        forall|i: int|
            0 <= i < man.len() ==> !spec_has(cat, (#[trigger] man[i]).name, man[i].last_version),
        forall|i: int, j: int|
            0 <= i < j < man.len() ==> !(man[i].name == man[j].name && man[i].last_version
                == man[j].last_version),
    ensures
        spec_diff(man, cat) == man,
        spec_apply_downloads(cat, spec_diff(man, cat), ok, home, now).len() == cat.len()
            + man.len(),
        forall|i: int|
            0 <= i < man.len() ==> spec_has(
                spec_apply_downloads(cat, spec_diff(man, cat), ok, home, now),
                (#[trigger] man[i]).name,
                man[i].last_version,
            ),
{
    lemma_fresh_manifest_selected_in_full(man, cat);
    lemma_apply_all_fresh(cat, man, ok, home, now);
}

/// The record one full synchronization run leaves behind.
#[derive(Debug)]
pub struct SyncReport {
    pub state: SyncState,
    pub catalog: Catalog,
    pub events: Vec<ProgressEvent>,
    pub attempted: usize,
    pub failed: Vec<String>,
}

/// Drive one entire synchronization run: the manifest answer and the
/// outcome of each selected download are handed in, the transfers
/// themselves having been performed by the caller. A failed manifest
/// fetch skips the run; otherwise the catalog is brought up to date row
/// by row, failures are recorded without disturbing their siblings, and
/// the progress report never decreases and ends at exactly 100.
pub fn run_sync(
    catalog: Catalog,
    home_dir: String,
    manifest: Result<Vec<Package>, SerializableError>,
    outcomes: &Vec<bool>,
    created_at: u64,
) -> (r: SyncReport)
    requires
        catalog.wf(),
        manifest matches Ok(man) ==> outcomes@.len() >= spec_diff(
            man@.map_values(|p: Package| p@),
            catalog.rows(),
        ).len(),
    ensures
        r.catalog.wf(),
        bounded(r.events@.map_values(|e: ProgressEvent| e@)),
        monotone(r.events@.map_values(|e: ProgressEvent| e@)),
        r.events@.len() > 0,
        r.events@.map_values(|e: ProgressEvent| e@).last().progress == 100,
        manifest matches Err(_) ==> {
            &&& r.state == SyncState::ManifestFetchFailed
            &&& r.catalog == catalog
            &&& r.attempted == 0
            &&& r.failed@.len() == 0
        },
        manifest matches Ok(man) ==> ({
            let sel = spec_diff(man@.map_values(|p: Package| p@), catalog.rows());
            let ok = outcomes@.take(sel.len() as int);
            &&& r.state == SyncState::Done
            &&& r.attempted == sel.len()
            &&& r.catalog.rows() == spec_apply_downloads(
                catalog.rows(),
                sel,
                ok,
                home_dir@,
                created_at,
            )
            &&& r.failed@.map_values(|s: String| s@) == spec_failed_names(sel, ok)
        }),
{
    let ghost cat0 = catalog.rows();
    let ghost home0 = home_dir@;
    let mut pipeline = SyncPipeline::new(catalog, home_dir);
    let _started = pipeline.start();
    match manifest {
        Err(_) => {
            let _done = pipeline.manifest_failed();
            SyncReport {
                state: pipeline.state,
                catalog: pipeline.catalog,
                events: pipeline.events,
                attempted: 0,
                failed: pipeline.failed,
            }
        },
        Ok(man) => {
            let ghost man_view = man@.map_values(|p: Package| p@);
            let _checking = pipeline.manifest_fetched(man);
            let count = pipeline.select_downloads();
            let ghost sel = pipeline.pending_view();
            let ghost ok = outcomes@.take(count as int);
            proof {
                assert(sel == spec_diff(man_view, cat0));
                assert(sel.skip(0) =~= sel);
                assert(ok.skip(0) =~= ok);
                assert(pipeline.failed@.map_values(|s: String| s@) =~= Seq::<Seq<char>>::empty());
                assert(pipeline.failed@.map_values(|s: String| s@) + spec_failed_names(sel, ok)
                    =~= spec_failed_names(sel, ok));
            }
            let mut i: usize = 0;
            while i < count
                invariant
                    0 <= i <= count,
                    pipeline.wf(),
                    count == pipeline.pending@.len(),
                    count <= outcomes@.len(),
                    pipeline.done_count == i,
                    pipeline.state == if i == count {
                        SyncState::Finalizing
                    } else {
                        SyncState::Downloading
                    },
                    sel == pipeline.pending_view(),
                    ok == outcomes@.take(count as int),
                    ok.len() == count,
                    pipeline.home_dir@ == home0,
                    spec_apply_downloads(cat0, sel, ok, home0, created_at)
                        == spec_apply_downloads(
                        pipeline.catalog.rows(),
                        sel.skip(i as int),
                        ok.skip(i as int),
                        home0,
                        created_at,
                    ),
                    spec_failed_names(sel, ok) == pipeline.failed@.map_values(|s: String| s@)
                        + spec_failed_names(sel.skip(i as int), ok.skip(i as int)),
                decreases count - i,
            {
                let ghost failed_before = pipeline.failed@.map_values(|s: String| s@);
                let ghost rows_before = pipeline.catalog.rows();
                proof {
                    assert(sel.skip(i as int)[0] == sel[i as int]);
                    assert(ok.skip(i as int)[0] == ok[i as int]);
                    assert(ok[i as int] == outcomes@[i as int]);
                    assert(sel.skip(i as int).drop_first() =~= sel.skip(i + 1));
                    assert(ok.skip(i as int).drop_first() =~= ok.skip(i + 1));
                    assert(sel[i as int] == pipeline.pending@[i as int]@);
                }
                let p = pipeline.pending[i].duplicate();
                let succeeded = outcomes[i];
                let _progress = pipeline.download_done(p, succeeded, created_at);
                proof {
                    if succeeded {
                        assert(pipeline.catalog.rows() == spec_upsert(
                            rows_before,
                            spec_entry_of(sel[i as int], home0, created_at),
                        ));
                        assert(pipeline.failed@.map_values(|s: String| s@) =~= failed_before);
                        assert(Seq::<Seq<char>>::empty() + spec_failed_names(
                            sel.skip(i + 1),
                            ok.skip(i + 1),
                        ) =~= spec_failed_names(sel.skip(i + 1), ok.skip(i + 1)));
                    } else {
                        assert(pipeline.failed@.map_values(|s: String| s@) =~= failed_before.push(
                            sel[i as int].name,
                        ));
                        assert(seq![sel[i as int].name] + spec_failed_names(
                            sel.skip(i + 1),
                            ok.skip(i + 1),
                        ) =~= spec_failed_names(sel.skip(i + 1), ok.skip(i + 1)).insert(
                            0,
                            sel[i as int].name,
                        ));
                        assert(failed_before.push(sel[i as int].name) + spec_failed_names(
                            sel.skip(i + 1),
                            ok.skip(i + 1),
                        ) =~= failed_before + (seq![sel[i as int].name] + spec_failed_names(
                            sel.skip(i + 1),
                            ok.skip(i + 1),
                        )));
                    }
                }
                i += 1;
            }
            proof {
                assert(sel.skip(count as int) =~= Seq::<PackageView>::empty());
                assert(ok.skip(count as int) =~= Seq::<bool>::empty());
                assert(spec_failed_names(sel, ok) =~= pipeline.failed@.map_values(
                    |s: String| s@,
                ));
            }
            let _done = pipeline.finish();
            SyncReport {
                state: pipeline.state,
                catalog: pipeline.catalog,
                events: pipeline.events,
                attempted: count,
                failed: pipeline.failed,
            }
        },
    }
}

} // verus!
