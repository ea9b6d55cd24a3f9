//! Fingerprints: what sums up the state of a path.

use std::collections::hash_map::DefaultHasher;
use std::hash::Hasher;
use vstd::prelude::*;
use vstd::std_specs::hash::DefaultHasherAdditionalSpecFns;

verus! {

/// How the state of a path is summed up.
#[derive(Clone, Copy, Debug, PartialEq, Eq, Structural)]
pub enum Strategy {
    /// By a hash of the file's content.
    ContentHash,
    /// By the file's modification time and size.
    Metadata,
}

/// The state of a path under one strategy. That nothing is there is a state
/// like any other.
#[derive(Clone, Copy, Debug, PartialEq, Eq, Structural)]
pub enum Fingerprint {
    Absent,
    ContentHash(u64),
    Metadata { modified: u64, size: u64 },
}

/// A path could not be fingerprinted; `reason` says why.
#[derive(Debug, PartialEq, Eq)]
pub struct IoFailure {
    pub reason: String,
}

impl View for IoFailure {
    type V = Seq<char>;

    open spec fn view(&self) -> Seq<char> {
        self.reason@
    }
}

impl Clone for IoFailure {
    fn clone(&self) -> (copy: Self)
        ensures
            copy@ == self@,
    {
        IoFailure { reason: self.reason.clone() }
    }
}

/// What came of fingerprinting one path.
pub type Reading = Result<Fingerprint, IoFailure>;

/// A reading as plain values.
pub type ReadingView = Result<Fingerprint, Seq<char>>;

/// A reading as plain values.
pub open spec fn reading_view(reading: Reading) -> ReadingView {
    match reading {
        Ok(fingerprint) => Ok(fingerprint),
        Err(failure) => Err(failure@),
    }
}

/// A list of readings as plain values.
pub open spec fn reading_views(readings: Seq<Reading>) -> Seq<ReadingView> {
    readings.map_values(|reading: Reading| reading_view(reading))
}

/// The reason that stands for a reading that was not handed in.
pub open spec fn unread() -> Seq<char> {
    "no fingerprint was read"@
}

/// The reading for position `i`: the one handed in for it, a failure where
/// none was.
pub open spec fn reading_at(readings: Seq<ReadingView>, i: int) -> ReadingView {
    if 0 <= i < readings.len() {
        readings[i]
    } else {
        Err(unread())
    }
}

/// What was found at a path.
#[derive(Debug, PartialEq, Eq)]
pub enum Observed {
    /// Nothing is there.
    Absent,
    /// A file with this content.
    Content(Vec<u8>),
    /// A file that was last modified at `modified`, in nanoseconds since the
    /// Unix epoch, and is `size` bytes long.
    Metadata { modified: u64, size: u64 },
    /// The path could not be read; the text says why.
    Failed(String),
}

/// What was found at a path, as plain values.
pub enum ObservedView {
    Absent,
    Content(Seq<u8>),
    Metadata { modified: u64, size: u64 },
    Failed(Seq<char>),
}

impl View for Observed {
    type V = ObservedView;

    open spec fn view(&self) -> ObservedView {
        match self {
            Observed::Absent => ObservedView::Absent,
            Observed::Content(content) => ObservedView::Content(content@),
            Observed::Metadata { modified, size } => ObservedView::Metadata {
                modified: *modified,
                size: *size,
            },
            Observed::Failed(reason) => ObservedView::Failed(reason@),
        }
    }
}

/// The hash of a content: what std's default hasher makes of it, written in
/// one piece.
pub open spec fn content_hash(content: Seq<u8>) -> u64 {
    DefaultHasher::spec_finish(seq![content])
}

/// The reading that an observation amounts to. That nothing is there is a
/// fingerprint; only a path that could not be read is a failure.
pub open spec fn reading_of(observed: ObservedView) -> ReadingView {
    match observed {
        ObservedView::Absent => Ok(Fingerprint::Absent),
        ObservedView::Content(content) => Ok(Fingerprint::ContentHash(content_hash(content))),
        ObservedView::Metadata { modified, size } => Ok(Fingerprint::Metadata { modified, size }),
        ObservedView::Failed(reason) => Err(reason),
    }
}

/// Sums up what was found at a path.
pub fn fingerprint(observed: Observed) -> (reading: Reading)
    ensures
        reading_view(reading) == reading_of(observed@),
{
    match observed {
        Observed::Absent => Ok(Fingerprint::Absent),
        Observed::Content(content) => {
            let mut hasher = DefaultHasher::new();
            hasher.write(content.as_slice());
            assert(hasher@ =~= seq![content@]);
            Ok(Fingerprint::ContentHash(hasher.finish()))
        },
        Observed::Metadata { modified, size } => Ok(Fingerprint::Metadata { modified, size }),
        Observed::Failed(reason) => Err(IoFailure { reason }),
    }
}

} // verus!
