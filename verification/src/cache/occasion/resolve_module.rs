//! The occasion that caches resolutions.
//!
//! A resolution is expensive, and its answer holds as long as the file it
//! names is unchanged. The occasion files each answer with a snapshot of
//! that file and hands it out again while the snapshot holds.
//!
//! Reading files and running the resolver are the caller's part. One use of
//! the cache is therefore a short exchange: the occasion says what it needs
//! next, the caller does it and hands the result back.
//!
//! 1. `begin` looks the request up. It asks for the files of a stored
//!    snapshot to be read again (`Begun::Validate`), or for the resolver to
//!    run (`Begun::Generate`).
//! 2. `validated` takes those readings. The stored answer is handed out
//!    (`Validated::Hit`), or the resolver is to run (`Validated::Generate`).
//! 3. `generated` takes what the resolver returned. The use is over
//!    (`Generated::Done`), or the files that the answer depends on are to be
//!    read (`Generated::Snapshot`).
//! 4. `snapshotted` takes those readings, files the answer and ends the use.

use crate::cache::fingerprint::{
    reading_at, reading_views, Fingerprint, Reading, ReadingView, Strategy,
};
use crate::cache::snapshot::{
    fresh_snapshot_is_valid, plan, probes_of, snapshot_of, snapshot_valid, Probe, ProbeView,
    Snapshot, SnapshotEntryView, SnapshotManager, SnapshotOptions,
};
use crate::cache::storage::{filed, Storage};
use crate::resolve::{
    cache_key, dependency_paths, key_text, resolved_view, snapshot_error, ModuleIdentifier,
    ResolveArgs, ResolveArgsView, ResolveError, ResolveErrorView, ResolveResult,
    ResolveResultView, Resolved, ResolvedView,
};
use std::sync::Arc;
use vstd::prelude::*;

verus! {

/// An answer and the snapshot that vouches for it.
#[derive(Debug, PartialEq, Eq)]
pub struct CacheEntry {
    pub snapshot: Snapshot,
    pub data: ResolveResult,
}

/// A cache entry as plain values.
pub struct CacheEntryView {
    pub snapshot: Seq<SnapshotEntryView>,
    pub data: ResolveResultView,
}

impl View for CacheEntry {
    type V = CacheEntryView;

    open spec fn view(&self) -> CacheEntryView {
        CacheEntryView { snapshot: self.snapshot@, data: self.data@ }
    }
}

impl Clone for CacheEntry {
    fn clone(&self) -> (copy: Self)
        ensures
            copy@ == self@,
    {
        CacheEntry { snapshot: self.snapshot.clone(), data: self.data.clone() }
    }
}

/// The entries of a store as plain values.
pub open spec fn entry_views(entries: Map<Seq<char>, CacheEntry>) -> Map<Seq<char>, CacheEntryView> {
    entries.map_values(|entry: CacheEntry| entry@)
}

/// How one use of the cache ends: the answer or the resolver's failure, and
/// whether the answer came from the store; or the failure that ends the use
/// with no answer.
pub type Outcome = Result<(Resolved, bool), ResolveError>;

/// An outcome as plain values.
pub type OutcomeView = Result<(ResolvedView, bool), ResolveErrorView>;

/// An outcome as plain values.
pub open spec fn outcome_view(outcome: Outcome) -> OutcomeView {
    match outcome {
        Ok((resolved, hit)) => Ok((resolved_view(resolved), hit)),
        Err(error) => Err(error@),
    }
}

/// A stored answer waits for its snapshot to be checked.
pub struct Validation {
    key: ModuleIdentifier,
    entry: CacheEntry,
}

/// A pending validation as plain values.
pub struct ValidationView {
    pub key: Seq<char>,
    pub entry: CacheEntryView,
}

impl View for Validation {
    type V = ValidationView;

    closed spec fn view(&self) -> ValidationView {
        ValidationView { key: self.key@, entry: self.entry@ }
    }
}

/// The resolver is to run. `key` is where its answer will be filed; there is
/// none where the occasion has no store.
pub struct Generation {
    key: Option<ModuleIdentifier>,
}

/// A pending generation as plain values.
pub struct GenerationView {
    pub key: Option<Seq<char>>,
}

impl View for Generation {
    type V = GenerationView;

    closed spec fn view(&self) -> GenerationView {
        GenerationView {
            key: match self.key {
                Some(key) => Some(key@),
                None => None,
            },
        }
    }
}

/// A fresh answer waits for its snapshot to be taken.
pub struct Writing {
    key: ModuleIdentifier,
    data: ResolveResult,
    probes: Vec<Probe>,
}

/// A pending write as plain values.
pub struct WritingView {
    pub key: Seq<char>,
    pub data: ResolveResultView,
    pub probes: Seq<ProbeView>,
}

impl View for Writing {
    type V = WritingView;

    closed spec fn view(&self) -> WritingView {
        WritingView { key: self.key@, data: self.data@, probes: self.probes.deep_view() }
    }
}

/// What `begin` asks for.
pub enum Begun {
    Validate(Validation),
    Generate(Generation),
}

/// What `begin` asks for, as plain values.
pub enum BegunView {
    Validate(ValidationView),
    Generate(GenerationView),
}

impl View for Begun {
    type V = BegunView;

    open spec fn view(&self) -> BegunView {
        match self {
            Begun::Validate(validation) => BegunView::Validate(validation@),
            Begun::Generate(generation) => BegunView::Generate(generation@),
        }
    }
}

/// What `validated` decides.
pub enum Validated {
    Hit(Outcome),
    Generate(Generation),
}

/// What `validated` decides, as plain values.
pub enum ValidatedView {
    Hit(OutcomeView),
    Generate(GenerationView),
}

impl View for Validated {
    type V = ValidatedView;

    open spec fn view(&self) -> ValidatedView {
        match self {
            Validated::Hit(outcome) => ValidatedView::Hit(outcome_view(*outcome)),
            Validated::Generate(generation) => ValidatedView::Generate(generation@),
        }
    }
}

/// What `generated` decides.
pub enum Generated {
    Done(Outcome),
    Snapshot(Writing),
}

/// What `generated` decides, as plain values.
pub enum GeneratedView {
    Done(OutcomeView),
    Snapshot(WritingView),
}

impl View for Generated {
    type V = GeneratedView;

    open spec fn view(&self) -> GeneratedView {
        match self {
            Generated::Done(outcome) => GeneratedView::Done(outcome_view(*outcome)),
            Generated::Snapshot(writing) => GeneratedView::Snapshot(writing@),
        }
    }
}

/// The entries of an occasion's store as plain values; `None` where the
/// occasion has no store.
pub type Stored = Option<Map<Seq<char>, CacheEntryView>>;

/// With no store the resolver runs and nothing will be filed. With one, the
/// entry under the request's key is to be validated; where there is none,
/// the resolver runs and its answer will be filed under that key.
pub open spec fn begin_spec(stored: Stored, args: ResolveArgsView) -> BegunView {
    match stored {
        None => BegunView::Generate(GenerationView { key: None }),
        Some(entries) => {
            let key = key_text(args);
            if entries.contains_key(key) {
                BegunView::Validate(ValidationView { key, entry: entries[key] })
            } else {
                BegunView::Generate(GenerationView { key: Some(key) })
            }
        },
    }
}

/// While its snapshot holds, the stored answer is the outcome, marked as a
/// hit. Else the resolver runs, and its answer will replace the entry.
pub open spec fn validated_spec(validation: ValidationView, readings: Seq<ReadingView>) -> ValidatedView {
    if snapshot_valid(validation.entry.snapshot, readings) {
        ValidatedView::Hit(Ok((Ok(validation.entry.data), true)))
    } else {
        ValidatedView::Generate(GenerationView { key: Some(validation.key) })
    }
}

/// With no store, what the resolver returned is the outcome, failure or not,
/// and no hit. With one, its failure ends the use, and its answer waits to be
/// filed with a snapshot of the paths it depends on, each read under
/// `strategy`.
pub open spec fn generated_spec(
    generation: GenerationView,
    output: ResolvedView,
    strategy: Strategy,
) -> GeneratedView {
    match generation.key {
        None => GeneratedView::Done(Ok((output, false))),
        Some(key) => match output {
            Err(error) => GeneratedView::Done(Err(error)),
            Ok(data) => GeneratedView::Snapshot(
                WritingView { key, data, probes: plan(dependency_paths(data), strategy) },
            ),
        },
    }
}

/// An entry and the key it is filed under, as plain values.
pub type Filing = (Seq<char>, CacheEntryView);

/// Where a path could not be read, the use fails with that failure and
/// nothing is filed. Else the answer is filed under its key with the
/// snapshot made of the readings, and is the outcome, no hit.
pub open spec fn snapshotted_spec(writing: WritingView, readings: Seq<ReadingView>) -> (
    OutcomeView,
    Option<Filing>,
) {
    match snapshot_of(writing.probes, readings) {
        Err(reason) => (Err(snapshot_error(reason)), None),
        Ok(snapshot) => (
            Ok((Ok(writing.data), false)),
            Some((writing.key, CacheEntryView { snapshot, data: writing.data })),
        ),
    }
}

/// `after` is what the store may hold after a use that started with
/// `before` and filed `written`: with nothing filed the store is as it was,
/// and an occasion without a store stays without one.
pub open spec fn store_follows(before: Stored, after: Stored, written: Option<Filing>) -> bool {
    match before {
        None => after is None,
        Some(entries) => match written {
            None => after == before,
            Some((key, entry)) => after is Some && filed(entries, after->0, key, entry),
        },
    }
}

impl Validation {
    /// The paths to read before `validated` is called, and how.
    pub fn probes(&self) -> (probes: Vec<Probe>)
        ensures
            probes.deep_view() == probes_of(self@.entry.snapshot),
    {
        self.entry.snapshot.probes()
    }
}

impl Writing {
    /// The paths to read before `snapshotted` is called, and how.
    pub fn probes(&self) -> (probes: &Vec<Probe>)
        ensures
            probes.deep_view() == self@.probes,
    {
        &self.probes
    }
}

/// The entries of `storage` as plain values; `None` where there is no store.
pub open spec fn stored_in(storage: Option<Box<dyn Storage<CacheEntry>>>) -> Stored {
    match storage {
        Some(storage) => Some(entry_views(storage.entries())),
        None => None,
    }
}

/// The cache of resolutions: a store of answers, if caching is on, and the
/// snapshot manager that it shares with the other occasions.
pub struct ResolveModuleOccasion {
    storage: Option<Box<dyn Storage<CacheEntry>>>,
    snapshot_manager: Arc<SnapshotManager>,
}

impl ResolveModuleOccasion {
    /// What the store holds; `None` where there is no store.
    pub closed spec fn stored(&self) -> Stored {
        stored_in(self.storage)
    }

    /// The strategy under which the files of answers are fingerprinted.
    pub closed spec fn strategy(&self) -> Strategy {
        self.snapshot_manager.options.resolve
    }

    /// The occasion that files its answers in `storage`, or that caches
    /// nothing where there is none, and fingerprints files as
    /// `snapshot_manager` is set up to for resolutions.
    pub fn new(
        storage: Option<Box<dyn Storage<CacheEntry>>>,
        snapshot_manager: Arc<SnapshotManager>,
    ) -> (occasion: Self)
        ensures
            occasion.stored() == stored_in(storage),
            occasion.strategy() == snapshot_manager.options.resolve,
    {
        Self { storage, snapshot_manager }
    }

    /// The store, if the occasion has one.
    pub fn storage(&self) -> (storage: &Option<Box<dyn Storage<CacheEntry>>>)
        ensures
            self.stored() == stored_in(*storage),
    {
        &self.storage
    }

    /// Opens one use of the cache for `args`.
    pub fn begin(&self, args: &ResolveArgs) -> (begun: Begun)
        ensures
            begun@ == begin_spec(self.stored(), args@),
    {
        match &self.storage {
            None => Begun::Generate(Generation { key: None }),
            Some(storage) => {
                let key = cache_key(args);
                match storage.get(&key) {
                    Some(entry) => Begun::Validate(Validation { key, entry }),
                    None => Begun::Generate(Generation { key: Some(key) }),
                }
            },
        }
    }

    /// Takes the readings of `validation.probes()`.
    pub fn validated(&self, validation: Validation, readings: &Vec<Reading>) -> (next: Validated)
        ensures
            next@ == validated_spec(validation@, reading_views(readings@)),
    {
        if self.snapshot_manager.check_snapshot_valid(&validation.entry.snapshot, readings) {
            Validated::Hit(Ok((Ok(validation.entry.data), true)))
        } else {
            Validated::Generate(Generation { key: Some(validation.key) })
        }
    }

    /// Takes what the resolver returned.
    pub fn generated(&self, generation: Generation, output: Resolved) -> (next: Generated)
        ensures
            next@ == generated_spec(generation@, resolved_view(output), self.strategy()),
    {
        match generation.key {
            None => Generated::Done(Ok((output, false))),
            Some(key) => match output {
                Err(error) => Generated::Done(Err(error)),
                Ok(data) => {
                    let paths = data.dependency_paths();
                    let selector = |options: &SnapshotOptions, path: &String| -> (strategy: Strategy)
                        ensures
                            strategy == options.resolve,
                        { options.resolve };
                    let probes = self.snapshot_manager.plan(&paths, selector);
                    assert(probes.deep_view() =~= plan(dependency_paths(data@), self.strategy()));
                    Generated::Snapshot(Writing { key, data, probes })
                },
            },
        }
    }

    /// Takes the readings of `writing.probes()` and files the answer.
    pub fn snapshotted(&mut self, writing: Writing, readings: &Vec<Reading>) -> (outcome: Outcome)
        ensures
            outcome_view(outcome) == snapshotted_spec(writing@, reading_views(readings@)).0,
            store_follows(
                old(self).stored(),
                final(self).stored(),
                snapshotted_spec(writing@, reading_views(readings@)).1,
            ),
            final(self).strategy() == old(self).strategy(),
    {
        match self.snapshot_manager.create_snapshot(&writing.probes, readings) {
            Err(failure) => Err(ResolveError::from_snapshot(failure)),
            Ok(snapshot) => {
                match &mut self.storage {
                    Some(storage) => {
                        let entry = CacheEntry { snapshot, data: writing.data.clone() };
                        storage.set(writing.key, entry);
                    },
                    None => {},
                }
                Ok((Ok(writing.data), false))
            },
        }
    }
}

/// The readings that a caller gets who reads `probes` while the files
/// answer as `files` says.
pub open spec fn observe(files: spec_fn(ProbeView) -> ReadingView, probes: Seq<ProbeView>) -> Seq<
    ReadingView,
> {
    probes.map_values(files)
}

/// One whole use of the cache.
pub struct RunView {
    /// How the use ended.
    pub outcome: OutcomeView,
    /// What was filed in the store, if anything was.
    pub written: Option<Filing>,
    /// Whether the resolver ran.
    pub generated: bool,
}

/// The use from the point where the resolver runs and returns `output`.
pub open spec fn regenerate(
    strategy: Strategy,
    generation: GenerationView,
    files: spec_fn(ProbeView) -> ReadingView,
    output: ResolvedView,
) -> RunView {
    match generated_spec(generation, output, strategy) {
        GeneratedView::Done(outcome) => RunView { outcome, written: None, generated: true },
        GeneratedView::Snapshot(writing) => {
            let (outcome, written) = snapshotted_spec(writing, observe(files, writing.probes));
            RunView { outcome, written, generated: true }
        },
    }
}

/// One use of the cache for `args`, by a caller who follows the exchange,
/// while the store holds `stored`, the files answer as `files` says and the
/// resolver, if it runs, returns `output`.
pub open spec fn run(
    stored: Stored,
    strategy: Strategy,
    args: ResolveArgsView,
    files: spec_fn(ProbeView) -> ReadingView,
    output: ResolvedView,
) -> RunView {
    match begin_spec(stored, args) {
        BegunView::Validate(validation) => match validated_spec(
            validation,
            observe(files, probes_of(validation.entry.snapshot)),
        ) {
            ValidatedView::Hit(outcome) => RunView { outcome, written: None, generated: false },
            ValidatedView::Generate(generation) => regenerate(strategy, generation, files, output),
        },
        BegunView::Generate(generation) => regenerate(strategy, generation, files, output),
    }
}

/// Without a store, a use of the cache is a run of the resolver: what it
/// returns is the outcome, never a hit.
pub proof fn bypass_is_transparent(
    strategy: Strategy,
    args: ResolveArgsView,
    files: spec_fn(ProbeView) -> ReadingView,
    output: ResolvedView,
)
    ensures
        run(None, strategy, args, files, output) == (RunView {
            outcome: Ok((output, false)),
            written: None,
            generated: true,
        }),
{
}

/// A first use ran the resolver, got `data` and filed it, and the store
/// holds `after` since. A second use for the same request then hands out
/// `data` as a hit as long as the files that `data` depends on answer as
/// before. The resolver does not run, whatever it would have returned, and
/// nothing is filed.
pub proof fn unchanged_files_hit(
    entries: Map<Seq<char>, CacheEntryView>,
    strategy: Strategy,
    args: ResolveArgsView,
    files: spec_fn(ProbeView) -> ReadingView,
    data: ResolveResultView,
    after: Stored,
    files_after: spec_fn(ProbeView) -> ReadingView,
    output_after: ResolvedView,
)
    requires
        run(Some(entries), strategy, args, files, Ok(data)).generated,
        run(Some(entries), strategy, args, files, Ok(data)).outcome is Ok,
        store_follows(Some(entries), after, run(Some(entries), strategy, args, files, Ok(data)).written),
        forall|i: int|
            #![trigger plan(dependency_paths(data), strategy)[i]]
            0 <= i < plan(dependency_paths(data), strategy).len() ==> files_after(
                plan(dependency_paths(data), strategy)[i],
            ) == files(plan(dependency_paths(data), strategy)[i]),
    ensures
        run(after, strategy, args, files_after, output_after) == (RunView {
            outcome: Ok((Ok(data), true)),
            written: None,
            generated: false,
        }),
{
    let probes = plan(dependency_paths(data), strategy);
    let readings = observe(files, probes);
    fresh_snapshot_is_valid(probes, readings);
    assert(observe(files_after, probes) =~= readings);
}

/// A first use ran the resolver, got `data` and filed it, and the store
/// holds `after` since. Once one of the files that `data` depends on answers
/// otherwise, a second use for the same request runs the resolver again and
/// goes on as after a miss. Its outcome is no hit; it is the fresh answer
/// where the resolver gives one whose files can be fingerprinted.
pub proof fn changed_file_regenerates(
    entries: Map<Seq<char>, CacheEntryView>,
    strategy: Strategy,
    args: ResolveArgsView,
    files: spec_fn(ProbeView) -> ReadingView,
    data: ResolveResultView,
    after: Stored,
    files_after: spec_fn(ProbeView) -> ReadingView,
    output_after: ResolvedView,
    changed: int,
)
    requires
        run(Some(entries), strategy, args, files, Ok(data)).generated,
        run(Some(entries), strategy, args, files, Ok(data)).outcome is Ok,
        store_follows(Some(entries), after, run(Some(entries), strategy, args, files, Ok(data)).written),
        0 <= changed < plan(dependency_paths(data), strategy).len(),
        files_after(plan(dependency_paths(data), strategy)[changed]) != files(
            plan(dependency_paths(data), strategy)[changed],
        ),
    ensures
        run(after, strategy, args, files_after, output_after) == regenerate(
            strategy,
            GenerationView { key: Some(key_text(args)) },
            files_after,
            output_after,
        ),
        run(after, strategy, args, files_after, output_after).generated,
        run(after, strategy, args, files_after, output_after).outcome matches Ok((_, hit)) ==> !hit,
        output_after is Ok && snapshot_of(
            plan(dependency_paths(output_after->Ok_0), strategy),
            observe(files_after, plan(dependency_paths(output_after->Ok_0), strategy)),
        ) is Ok ==> run(after, strategy, args, files_after, output_after).outcome == Ok::<
            (ResolvedView, bool),
            ResolveErrorView,
        >((output_after, false)),
{
    let probes = plan(dependency_paths(data), strategy);
    let readings = observe(files, probes);
    let snapshot = snapshot_of(probes, readings)->Ok_0;
    fresh_snapshot_is_valid(probes, readings);
    let readings_after = observe(files_after, probes);
    assert(reading_at(readings, changed) == Ok::<Fingerprint, Seq<char>>(snapshot[changed].fingerprint));
    assert(reading_at(readings_after, changed) != reading_at(readings, changed));
    assert(!snapshot_valid(snapshot, readings_after));
}

/// A use in which the resolver fails files nothing: the store is afterwards
/// as it was, and where it had no entry for the request it has none.
pub proof fn failure_writes_nothing(
    stored: Stored,
    strategy: Strategy,
    args: ResolveArgsView,
    files: spec_fn(ProbeView) -> ReadingView,
    error: ResolveErrorView,
    after: Stored,
)
    requires
        store_follows(stored, after, run(stored, strategy, args, files, Err(error)).written),
    ensures
        run(stored, strategy, args, files, Err(error)).written is None,
        after == stored,
        stored matches Some(entries) && !entries.contains_key(key_text(args))
            ==> !after->0.contains_key(key_text(args)),
{
}

/// An answer is filed under the key of its request, with a snapshot of the
/// paths it depends on. For an answer that names a file the snapshot has one
/// line, for the file's path, under the occasion's strategy.
pub proof fn filed_answer_is_watched(
    entries: Map<Seq<char>, CacheEntryView>,
    strategy: Strategy,
    args: ResolveArgsView,
    files: spec_fn(ProbeView) -> ReadingView,
    data: ResolveResultView,
)
    requires
        run(Some(entries), strategy, args, files, Ok(data)).generated,
        run(Some(entries), strategy, args, files, Ok(data)).outcome is Ok,
    ensures
        ({
            let written = run(Some(entries), strategy, args, files, Ok(data)).written;
            &&& written matches Some((key, entry))
            &&& key == key_text(args)
            &&& entry.data == data
            &&& probes_of(entry.snapshot) == plan(dependency_paths(data), strategy)
            &&& data matches ResolveResultView::Resource(resource) ==> {
                &&& entry.snapshot.len() == 1
                &&& entry.snapshot[0].path == resource.path
                &&& entry.snapshot[0].strategy == strategy
            }
        }),
{
    let probes = plan(dependency_paths(data), strategy);
    fresh_snapshot_is_valid(probes, observe(files, probes));
}

} // verus!
