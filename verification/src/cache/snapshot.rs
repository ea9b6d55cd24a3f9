//! Snapshots: the fingerprints that a set of paths had at one time.
//!
//! The library never touches a file. It says which paths are to be read and
//! how (`Probe`), is handed what was found (`Reading`), and decides.

use crate::cache::fingerprint::{
    reading_at, reading_views, Fingerprint, IoFailure, Reading, ReadingView, Strategy,
};
use vstd::prelude::*;

verus! {

/// A path to fingerprint, and how.
#[derive(Debug, PartialEq, Eq)]
pub struct Probe {
    pub path: String,
    pub strategy: Strategy,
}

/// A probe as plain values.
pub struct ProbeView {
    pub path: Seq<char>,
    pub strategy: Strategy,
}

impl View for Probe {
    type V = ProbeView;

    open spec fn view(&self) -> ProbeView {
        ProbeView { path: self.path@, strategy: self.strategy }
    }
}

impl DeepView for Probe {
    type V = ProbeView;

    open spec fn deep_view(&self) -> ProbeView {
        self@
    }
}

impl Clone for Probe {
    fn clone(&self) -> (copy: Self)
        ensures
            copy@ == self@,
    {
        Probe { path: self.path.clone(), strategy: self.strategy }
    }
}

/// One line of a snapshot: the fingerprint that `path` had under `strategy`.
#[derive(Debug, PartialEq, Eq)]
pub struct SnapshotEntry {
    pub path: String,
    pub strategy: Strategy,
    pub fingerprint: Fingerprint,
}

/// A line of a snapshot as plain values.
pub struct SnapshotEntryView {
    pub path: Seq<char>,
    pub strategy: Strategy,
    pub fingerprint: Fingerprint,
}

impl View for SnapshotEntry {
    type V = SnapshotEntryView;

    open spec fn view(&self) -> SnapshotEntryView {
        SnapshotEntryView { path: self.path@, strategy: self.strategy, fingerprint: self.fingerprint }
    }
}

impl DeepView for SnapshotEntry {
    type V = SnapshotEntryView;

    open spec fn deep_view(&self) -> SnapshotEntryView {
        self@
    }
}

impl Clone for SnapshotEntry {
    fn clone(&self) -> (copy: Self)
        ensures
            copy@ == self@,
    {
        SnapshotEntry { path: self.path.clone(), strategy: self.strategy, fingerprint: self.fingerprint }
    }
}

/// The fingerprints that a set of paths had when an answer was filed. It is
/// made once and never changed.
#[derive(Debug, PartialEq, Eq)]
pub struct Snapshot {
    entries: Vec<SnapshotEntry>,
}

impl View for Snapshot {
    type V = Seq<SnapshotEntryView>;

    closed spec fn view(&self) -> Seq<SnapshotEntryView> {
        self.entries.deep_view()
    }
}

/// The probes for `paths`, each under `strategy`.
pub open spec fn plan(paths: Seq<Seq<char>>, strategy: Strategy) -> Seq<ProbeView> {
    Seq::new(paths.len(), |i: int| ProbeView { path: paths[i], strategy })
}

/// The probes that read again what `snapshot` recorded.
pub open spec fn probes_of(snapshot: Seq<SnapshotEntryView>) -> Seq<ProbeView> {
    Seq::new(
        snapshot.len(),
        |i: int| ProbeView { path: snapshot[i].path, strategy: snapshot[i].strategy },
    )
}

/// The failure at the first of the positions below `n` whose reading is one.
pub open spec fn first_failure(readings: Seq<ReadingView>, n: int) -> Option<Seq<char>>
    decreases n,
{
    if n <= 0 {
        None
    } else {
        match first_failure(readings, n - 1) {
            Some(reason) => Some(reason),
            None => match reading_at(readings, n - 1) {
                Err(reason) => Some(reason),
                Ok(_) => None,
            },
        }
    }
}

/// The line that the probe at position `i` and its reading make.
pub open spec fn line_of(probes: Seq<ProbeView>, readings: Seq<ReadingView>, i: int) -> SnapshotEntryView {
    SnapshotEntryView {
        path: probes[i].path,
        strategy: probes[i].strategy,
        fingerprint: match reading_at(readings, i) {
            Ok(fingerprint) => fingerprint,
            Err(_) => Fingerprint::Absent,
        },
    }
}

/// The snapshot that `probes` and their readings make: one line for each
/// probe, in order; where a probe could not be read, the first such failure.
pub open spec fn snapshot_of(probes: Seq<ProbeView>, readings: Seq<ReadingView>) -> Result<
    Seq<SnapshotEntryView>,
    Seq<char>,
> {
    match first_failure(readings, probes.len() as int) {
        Some(reason) => Err(reason),
        None => Ok(Seq::new(probes.len(), |i: int| line_of(probes, readings, i))),
    }
}

/// Every line of `snapshot` still has its fingerprint: the reading for it
/// is that fingerprint. A failed or missing reading makes it invalid.
pub open spec fn snapshot_valid(snapshot: Seq<SnapshotEntryView>, readings: Seq<ReadingView>) -> bool {
    forall|i: int|
        0 <= i < snapshot.len() ==> reading_at(readings, i) == Ok::<Fingerprint, Seq<char>>(
            (#[trigger] snapshot[i]).fingerprint,
        )
}

impl Snapshot {
    /// The lines of the snapshot.
    pub fn entries(&self) -> (entries: &Vec<SnapshotEntry>)
        ensures
            entries.deep_view() == self@,
    {
        &self.entries
    }

    /// The probes that read again what this snapshot recorded, line by
    /// line.
    pub fn probes(&self) -> (probes: Vec<Probe>)
        ensures
            probes.deep_view() == probes_of(self@),
    {
        let mut probes: Vec<Probe> = Vec::new();
        let mut i: usize = 0;
        while i < self.entries.len()
            invariant
                i <= self.entries.len(),
                probes.len() == i,
                probes.deep_view() == probes_of(self@).take(i as int),
            decreases self.entries.len() - i,
        {
            let entry = &self.entries[i];
            probes.push(Probe { path: entry.path.clone(), strategy: entry.strategy });
            i += 1;
            assert(probes.deep_view() =~= probes_of(self@).take(i as int));
        }
        assert(probes_of(self@).take(i as int) =~= probes_of(self@));
        probes
    }
}

impl Clone for Snapshot {
    fn clone(&self) -> (copy: Self)
        ensures
            copy@ == self@,
    {
        let mut entries: Vec<SnapshotEntry> = Vec::new();
        let mut i: usize = 0;
        while i < self.entries.len()
            invariant
                i <= self.entries.len(),
                entries.len() == i,
                entries.deep_view() == self@.take(i as int),
            decreases self.entries.len() - i,
        {
            entries.push(self.entries[i].clone());
            i += 1;
            assert(entries.deep_view() =~= self@.take(i as int));
        }
        assert(self@.take(i as int) =~= self@);
        Snapshot { entries }
    }
}

/// Which strategy each kind of work fingerprints its paths with.
#[derive(Clone, Copy, Debug, PartialEq, Eq, Structural)]
pub struct SnapshotOptions {
    /// For the files that a resolution ended at.
    pub resolve: Strategy,
    /// For the files that a module was built from.
    pub module: Strategy,
}

/// Makes snapshots and says whether one still holds.
#[derive(Debug)]
pub struct SnapshotManager {
    pub options: SnapshotOptions,
}

impl SnapshotManager {
    /// The manager that works under `options`.
    pub fn new(options: SnapshotOptions) -> (manager: SnapshotManager)
        ensures
            manager.options == options,
    {
        SnapshotManager { options }
    }

    /// What is to be read to snapshot `paths`: each path, in order, under
    /// the strategy that `selector` picks for it from the manager's options.
    pub fn plan<F>(&self, paths: &Vec<String>, selector: F) -> (probes: Vec<Probe>) where
        F: Fn(&SnapshotOptions, &String) -> Strategy,

        requires
            forall|i: int|
                0 <= i < paths.len() ==> call_requires(selector, (&self.options, &#[trigger] paths[i])),
        ensures
            probes.len() == paths.len(),
            forall|i: int|
                0 <= i < paths.len() ==> (#[trigger] probes[i]).path@ == paths[i]@ && call_ensures(
                    selector,
                    (&self.options, &paths[i]),
                    probes[i].strategy,
                ),
    {
        let mut probes: Vec<Probe> = Vec::new();
        let mut i: usize = 0;
        while i < paths.len()
            invariant
                i <= paths.len(),
                probes.len() == i,
                forall|j: int|
                    0 <= j < paths.len() ==> call_requires(
                        selector,
                        (&self.options, &#[trigger] paths[j]),
                    ),
                forall|j: int|
                    0 <= j < i ==> (#[trigger] probes[j]).path@ == paths[j]@ && call_ensures(
                        selector,
                        (&self.options, &paths[j]),
                        probes[j].strategy,
                    ),
            decreases paths.len() - i,
        {
            let strategy = selector(&self.options, &paths[i]);
            probes.push(Probe { path: paths[i].clone(), strategy });
            i += 1;
        }
        probes
    }

    /// Records the readings of `probes`: one line for each probe, in order,
    /// with the fingerprint that was read at its position. Fails with the
    /// first failure among those readings, a missing reading being one.
    pub fn create_snapshot(&self, probes: &Vec<Probe>, readings: &Vec<Reading>) -> (made: Result<
        Snapshot,
        IoFailure,
    >)
        ensures
            match made {
                Ok(snapshot) => snapshot_of(probes.deep_view(), reading_views(readings@)) == Ok::<
                    Seq<SnapshotEntryView>,
                    Seq<char>,
                >(snapshot@),
                Err(failure) => snapshot_of(probes.deep_view(), reading_views(readings@)) == Err::<
                    Seq<SnapshotEntryView>,
                    Seq<char>,
                >(failure@),
            },
    {
        let ghost wanted = probes.deep_view();
        let ghost read = reading_views(readings@);
        let mut entries: Vec<SnapshotEntry> = Vec::new();
        let mut i: usize = 0;
        while i < probes.len()
            invariant
                i <= probes.len(),
                entries.len() == i,
                wanted == probes.deep_view(),
                read == reading_views(readings@),
                first_failure(read, i as int) is None,
                forall|j: int| 0 <= j < i ==> (#[trigger] entries[j])@ == line_of(wanted, read, j),
            decreases probes.len() - i,
        {
            if i < readings.len() {
                match &readings[i] {
                    Ok(fingerprint) => {
                        entries.push(
                            SnapshotEntry {
                                path: probes[i].path.clone(),
                                strategy: probes[i].strategy,
                                fingerprint: *fingerprint,
                            },
                        );
                    },
                    Err(failure) => {
                        proof {
                            lemma_failure_stays(read, i as int + 1, probes.len() as int);
                        }
                        return Err(failure.clone());
                    },
                }
            } else {
                proof {
                    lemma_failure_stays(read, i as int + 1, probes.len() as int);
                }
                return Err(IoFailure { reason: "no fingerprint was read".to_owned() });
            }
            i += 1;
        }
        let snapshot = Snapshot { entries };
        assert(snapshot@ =~= Seq::new(wanted.len(), |i: int| line_of(wanted, read, i)));
        Ok(snapshot)
    }

    /// Whether `snapshot` still holds, given the readings of
    /// `snapshot.probes()`: it does when the reading at each position is the
    /// fingerprint recorded there. A reading that failed or is missing makes
    /// the snapshot invalid; it is no error.
    pub fn check_snapshot_valid(&self, snapshot: &Snapshot, readings: &Vec<Reading>) -> (valid:
        bool)
        ensures
            valid == snapshot_valid(snapshot@, reading_views(readings@)),
    {
        let ghost read = reading_views(readings@);
        let mut i: usize = 0;
        while i < snapshot.entries.len()
            invariant
                i <= snapshot.entries.len(),
                read == reading_views(readings@),
                forall|j: int|
                    0 <= j < i ==> reading_at(read, j) == Ok::<Fingerprint, Seq<char>>(
                        (#[trigger] snapshot@[j]).fingerprint,
                    ),
            decreases snapshot.entries.len() - i,
        {
            let still = if i < readings.len() {
                match &readings[i] {
                    Ok(fingerprint) => *fingerprint == snapshot.entries[i].fingerprint,
                    Err(_) => false,
                }
            } else {
                false
            };
            if !still {
                assert(reading_at(read, i as int) != Ok::<Fingerprint, Seq<char>>(
                    snapshot@[i as int].fingerprint,
                ));
                return false;
            }
            i += 1;
        }
        true
    }
}

/// A failure among the first `n` readings is the first failure among the
/// first `m` too, for every `m` from `n` on.
proof fn lemma_failure_stays(readings: Seq<ReadingView>, n: int, m: int)
    requires
        0 <= n <= m,
        first_failure(readings, n) is Some,
    ensures
        first_failure(readings, m) == first_failure(readings, n),
    decreases m - n,
{
    if n < m {
        lemma_failure_stays(readings, n, m - 1);
    }
}

/// A snapshot that was just made holds against the readings it was made of,
/// and asks for the same probes again.
pub proof fn fresh_snapshot_is_valid(probes: Seq<ProbeView>, readings: Seq<ReadingView>)
    requires
        snapshot_of(probes, readings) is Ok,
    ensures
        snapshot_valid(snapshot_of(probes, readings)->Ok_0, readings),
        probes_of(snapshot_of(probes, readings)->Ok_0) == probes,
{
    let snapshot = snapshot_of(probes, readings)->Ok_0;
    assert forall|i: int| 0 <= i < snapshot.len() implies reading_at(readings, i) == Ok::<
        Fingerprint,
        Seq<char>,
    >((#[trigger] snapshot[i]).fingerprint) by {
        lemma_no_failure(readings, probes.len() as int, i);
    }
    assert(probes_of(snapshot) =~= probes);
}

/// Where the first `n` readings hold no failure, each of them is a
/// fingerprint.
proof fn lemma_no_failure(readings: Seq<ReadingView>, n: int, i: int)
    requires
        0 <= i < n,
        first_failure(readings, n) is None,
    ensures
        reading_at(readings, i) is Ok,
    decreases n,
{
    if i < n - 1 {
        lemma_no_failure(readings, n - 1, i);
    }
}

} // verus!
