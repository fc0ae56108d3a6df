use vstd::prelude::*;

use crate::normalize::{lemma_failure_isolated, normalize_spec, prepared};
use crate::resolve::SyncError;
use crate::store::{
    BuildRow,
    key_index,
    last_record,
    lemma_last_record_of_member,
    lemma_upsert_all_shape,
    unique_keys,
    upsert_all,
};

verus! {

/// Where the sync of one source stands.
#[derive(Clone, Copy, Debug, PartialEq, Eq, Structural)]
pub enum Phase {
    Idle,
    VersionResolving,
    Fetching,
    Normalizing,
    Upserting,
    Done,
    SkippedOnError(SyncError),
}

/// What the outside work of the last action came to.
#[derive(Clone, Copy, Debug, PartialEq, Eq, Structural)]
pub enum Event {
    Start,
    VersionResolved,
    VersionFailed,
    Fetched,
    DownloadFailed,
    FetchFailed,
    Normalized,
    Stored,
    StoreFailed,
}

/// The work to do next for a source.
#[derive(Clone, Copy, Debug, PartialEq, Eq, Structural)]
pub enum Action {
    ResolveVersion,
    Fetch,
    Normalize,
    Upsert,
    Report,
    Wait,
}

impl Phase {
    pub open spec fn spec_is_terminal(self) -> bool {
        self == Phase::Done || self is SkippedOnError
    }

    /// The source's sync is over, whether it stored its builds or was skipped.
    pub fn is_terminal(&self) -> (r: bool)
        ensures
            r == self.spec_is_terminal(),
    {
        match self {
            Phase::Done => true,
            Phase::SkippedOnError(_) => true,
            _ => false,
        }
    }
}

/// The transition table of a source's sync.
pub open spec fn step_spec(phase: Phase, event: Event) -> (Phase, Action) {
    match (phase, event) {
        (Phase::Idle, Event::Start) => (Phase::VersionResolving, Action::ResolveVersion),
        (Phase::VersionResolving, Event::VersionResolved) => (Phase::Fetching, Action::Fetch),
        (Phase::VersionResolving, Event::VersionFailed) => (
            Phase::SkippedOnError(SyncError::VersionResolution),
            Action::Report,
        ),
        (Phase::Fetching, Event::Fetched) => (Phase::Normalizing, Action::Normalize),
        (Phase::Fetching, Event::FetchFailed) => (
            Phase::SkippedOnError(SyncError::Filesystem),
            Action::Report,
        ),
        (Phase::Fetching, Event::DownloadFailed) => (
            Phase::SkippedOnError(SyncError::Network),
            Action::Report,
        ),
        (Phase::Normalizing, Event::Normalized) => (Phase::Upserting, Action::Upsert),
        (Phase::Upserting, Event::Stored) => (Phase::Done, Action::Report),
        (Phase::Upserting, Event::StoreFailed) => (
            Phase::SkippedOnError(SyncError::Storage),
            Action::Report,
        ),
        _ => (phase, Action::Wait),
    }
}

/// The next phase of a source and the work it calls for, given what the
/// last action came to. An event that does not fit the phase changes nothing.
pub fn step(phase: Phase, event: Event) -> (r: (Phase, Action))
    ensures
        r == step_spec(phase, event),
{
    match (phase, event) {
        (Phase::Idle, Event::Start) => (Phase::VersionResolving, Action::ResolveVersion),
        (Phase::VersionResolving, Event::VersionResolved) => (Phase::Fetching, Action::Fetch),
        (Phase::VersionResolving, Event::VersionFailed) => (
            Phase::SkippedOnError(SyncError::VersionResolution),
            Action::Report,
        ),
        (Phase::Fetching, Event::Fetched) => (Phase::Normalizing, Action::Normalize),
        (Phase::Fetching, Event::FetchFailed) => (
            Phase::SkippedOnError(SyncError::Filesystem),
            Action::Report,
        ),
        (Phase::Fetching, Event::DownloadFailed) => (
            Phase::SkippedOnError(SyncError::Network),
            Action::Report,
        ),
        (Phase::Normalizing, Event::Normalized) => (Phase::Upserting, Action::Upsert),
        (Phase::Upserting, Event::Stored) => (Phase::Done, Action::Report),
        (Phase::Upserting, Event::StoreFailed) => (
            Phase::SkippedOnError(SyncError::Storage),
            Action::Report,
        ),
        _ => (phase, Action::Wait),
    }
}

/// A source whose sync is over stays as it is and asks for no more work.
pub proof fn lemma_terminal_is_final(phase: Phase, event: Event)
    requires
        phase.spec_is_terminal(),
    ensures
        step_spec(phase, event) == (phase, Action::Wait),
{
}

/// Retrieval is asked for only right after a version was resolved: a source
/// whose resolution failed is never fetched.
pub proof fn lemma_fetch_needs_version(phase: Phase, event: Event)
    requires
        step_spec(phase, event).1 == Action::Fetch,
    ensures
        phase == Phase::VersionResolving,
        event == Event::VersionResolved,
{
}

/// In a batch where the retrieval at `a` failed and the one at `b` gave a
/// valid payload, upserting the prepared records leaves a row with `b`'s key,
/// and the stored result is the one the batch without `a` gives.
pub proof fn lemma_failure_isolated_persisted(
    source: Seq<char>,
    version: Seq<char>,
    retrieved: Seq<Option<Seq<char>>>,
    a: int,
    b: int,
    rows: Seq<BuildRow>,
    next: nat,
)
    requires
        0 <= a < retrieved.len(),
        0 <= b < retrieved.len(),
        retrieved[a] is None,
        retrieved[b] is Some,
        normalize_spec(source, version, retrieved[b]->0) is Some,
        unique_keys(rows),
    ensures
        key_index(
            upsert_all(rows, next, prepared(source, version, retrieved)).0,
            normalize_spec(source, version, retrieved[b]->0)->0.key(),
        ) >= 0,
        upsert_all(rows, next, prepared(source, version, retrieved)) == upsert_all(
            rows,
            next,
            prepared(source, version, retrieved.remove(a)),
        ),
{
    let list = prepared(source, version, retrieved);
    let rec = normalize_spec(source, version, retrieved[b]->0)->0;
    lemma_failure_isolated(source, version, retrieved, a, b);
    let j = choose|j: int| 0 <= j < list.len() && list[j] == rec;
    lemma_last_record_of_member(list, j);
    assert(last_record(list, rec.key()) is Some);
    lemma_upsert_all_shape(rows, next, list);
}

/// How the sync of one source ended.
#[derive(Debug)]
pub struct SourceOutcome {
    pub source: String,
    /// The number of builds stored, or why the source was skipped.
    pub result: Result<usize, SyncError>,
}

/// The outcomes of a run, one per source, in the order they were synced.
pub struct RunReport {
    outcomes: Vec<SourceOutcome>,
}

/// The number of skipped sources among `outcomes`.
pub open spec fn failures_in(outcomes: Seq<SourceOutcome>) -> nat
    decreases outcomes.len(),
{
    if outcomes.len() == 0 {
        0
    } else {
        failures_in(outcomes.drop_last()) + if outcomes.last().result is Err {
            1nat
        } else {
            0nat
        }
    }
}

impl View for RunReport {
    type V = Seq<SourceOutcome>;

    closed spec fn view(&self) -> Seq<SourceOutcome> {
        self.outcomes@
    }
}

impl RunReport {
    /// A report with no outcome yet.
    pub fn new() -> (r: Self)
        ensures
            r@ == Seq::<SourceOutcome>::empty(),
    {
        RunReport { outcomes: Vec::new() }
    }

    /// Records that `source` stored `count` builds.
    pub fn record_done(&mut self, source: String, count: usize)
        ensures
            final(self)@ == old(self)@.push(SourceOutcome { source, result: Ok(count) }),
    {
        self.outcomes.push(SourceOutcome { source, result: Ok(count) });
    }

    /// Records that `source` was skipped for `error`.
    pub fn record_skipped(&mut self, source: String, error: SyncError)
        ensures
            final(self)@ == old(self)@.push(SourceOutcome { source, result: Err(error) }),
    {
        self.outcomes.push(SourceOutcome { source, result: Err(error) });
    }

    /// The outcomes recorded so far.
    pub fn outcomes(&self) -> (r: &Vec<SourceOutcome>)
        ensures
            r@ == self@,
    {
        &self.outcomes
    }

    /// The number of sources that were skipped.
    pub fn failure_count(&self) -> (r: usize)
        ensures
            r == failures_in(self@),
    {
        let mut n: usize = 0;
        let mut i: usize = 0;
        while i < self.outcomes.len()
            invariant
                i <= self.outcomes@.len(),
                n == failures_in(self.outcomes@.take(i as int)),
                n <= i,
            decreases self.outcomes@.len() - i,
        {
            assert(self.outcomes@.take(i + 1).drop_last() =~= self.outcomes@.take(i as int));
            if self.outcomes[i].result.is_err() {
                n = n + 1;
            }
            i = i + 1;
        }
        assert(self.outcomes@.take(i as int) =~= self.outcomes@);
        n
    }

    /// Every source of a non-empty run was skipped.
    pub fn all_failed(&self) -> (r: bool)
        ensures
            r == (self@.len() > 0 && failures_in(self@) == self@.len()),
    {
        let n = self.failure_count();
        self.outcomes.len() > 0 && n == self.outcomes.len()
    }
}

} // verus!
