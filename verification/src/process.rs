//! The Decision Orchestrator as a state machine: every piece of outside work
//! (reading the flag file, fetching pages, downloading, writing the flag
//! file) happens between states, and every decision about what comes next is
//! made here. The driver performs the work a state asks for and hands the
//! answer back as an event.

use crate::jobs::GitlabJob;
use vstd::prelude::*;

verus! {

/// The exit code for a fatal processing error.
pub const EXIT_PROCESS_ERROR: i32 = 2;

/// The exit code for a fatal configuration error.
pub const EXIT_CONFIG_ERROR: i32 = 6;

/// The decision one invocation reaches.
#[derive(Debug, PartialEq)]
pub enum ProcessResult {
    /// The Skip-State Store already held a verdict; nothing else ran.
    SkipCiFileExists(bool),
    /// A matching job was found, with the resolved ancestor link.
    JobFound(GitlabJob, String),
    /// No job in the searched history matched.
    JobNotFound,
    /// The operator bypassed the whole mechanism; nothing was persisted.
    Skip,
}

impl Clone for ProcessResult {
    fn clone(&self) -> (r: Self)
        ensures
            r == *self,
    {
        match self {
            ProcessResult::SkipCiFileExists(b) => ProcessResult::SkipCiFileExists(*b),
            ProcessResult::JobFound(job, link) => ProcessResult::JobFound(
                job.clone(),
                link.clone(),
            ),
            ProcessResult::JobNotFound => ProcessResult::JobNotFound,
            ProcessResult::Skip => ProcessResult::Skip,
        }
    }
}

/// Where the decision stands; each state names the outside work the driver
/// must do next.
#[derive(Debug, PartialEq)]
pub enum ProcessState {
    /// Read the Skip-State Store.
    CheckStore,
    /// Run the job-matching search.
    RunSearch,
    /// Recover the matched job's artifact (best effort, non-fatal).
    RecoverArtifact(GitlabJob),
    /// Resolve the ancestor link from the matched job's log.
    ResolveAncestor(GitlabJob),
    /// Persist the verdict for re-entrancy.
    Persist(ProcessResult),
    /// The decision is reached.
    Done(ProcessResult),
}

/// What the outside work answered.
#[derive(Debug, PartialEq)]
pub enum ProcessEvent {
    /// The store's content, or nothing when the file is absent or unreadable.
    StoreRead(Option<bool>),
    /// The search's outcome.
    SearchDone(Option<GitlabJob>),
    /// Whether an artifact was present to download.
    ArtifactDone(bool),
    /// The ancestor link from the matched job's log, when one was found.
    AncestorResolved(Option<String>),
    /// The verdict is durably recorded.
    Persisted,
}

/// The orchestration: a stored verdict short-circuits everything; an operator
/// bypass (`bypass`) ends the decision before any search and persists
/// nothing; a found job goes through artifact recovery and ancestor
/// resolution, falling back to the job's own URL when the log yields no link;
/// a reached verdict is persisted before the decision is final. An event that
/// does not belong to the state changes nothing.
pub open spec fn process_step_spec(
    state: ProcessState,
    event: ProcessEvent,
    bypass: bool,
) -> ProcessState {
    match (state, event) {
        (ProcessState::CheckStore, ProcessEvent::StoreRead(Some(b))) => ProcessState::Done(
            ProcessResult::SkipCiFileExists(b),
        ),
        (ProcessState::CheckStore, ProcessEvent::StoreRead(None)) => {
            if bypass {
                ProcessState::Done(ProcessResult::Skip)
            } else {
                ProcessState::RunSearch
            }
        },
        (ProcessState::RunSearch, ProcessEvent::SearchDone(Some(job))) => {
            ProcessState::RecoverArtifact(job)
        },
        (ProcessState::RunSearch, ProcessEvent::SearchDone(None)) => ProcessState::Persist(
            ProcessResult::JobNotFound,
        ),
        (ProcessState::RecoverArtifact(job), ProcessEvent::ArtifactDone(_)) => {
            ProcessState::ResolveAncestor(job)
        },
        (ProcessState::ResolveAncestor(job), ProcessEvent::AncestorResolved(ancestor)) => {
            let link = match ancestor {
                Some(url) => url,
                None => job.web_url,
            };
            ProcessState::Persist(ProcessResult::JobFound(job, link))
        },
        (ProcessState::Persist(result), ProcessEvent::Persisted) => ProcessState::Done(result),
        (s, _) => s,
    }
}

/// Advances the decision by one event (see [`process_step_spec`]).
pub fn process_step(state: ProcessState, event: ProcessEvent, bypass: bool) -> (r: ProcessState)
    ensures
        r == process_step_spec(state, event, bypass),
{
    match (state, event) {
        (ProcessState::CheckStore, ProcessEvent::StoreRead(Some(b))) => ProcessState::Done(
            ProcessResult::SkipCiFileExists(b),
        ),
        (ProcessState::CheckStore, ProcessEvent::StoreRead(None)) => {
            if bypass {
                ProcessState::Done(ProcessResult::Skip)
            } else {
                ProcessState::RunSearch
            }
        },
        (ProcessState::RunSearch, ProcessEvent::SearchDone(Some(job))) => {
            ProcessState::RecoverArtifact(job)
        },
        (ProcessState::RunSearch, ProcessEvent::SearchDone(None)) => ProcessState::Persist(
            ProcessResult::JobNotFound,
        ),
        (ProcessState::RecoverArtifact(job), ProcessEvent::ArtifactDone(_)) => {
            ProcessState::ResolveAncestor(job)
        },
        (ProcessState::ResolveAncestor(job), ProcessEvent::AncestorResolved(ancestor)) => {
            let link = match ancestor {
                Some(url) => url,
                None => job.web_url.clone(),
            };
            ProcessState::Persist(ProcessResult::JobFound(job, link))
        },
        (ProcessState::Persist(result), ProcessEvent::Persisted) => ProcessState::Done(result),
        (s, _) => s,
    }
}

/// What the store records for a verdict that is persisted: `true` exactly
/// when a matching job was found.
pub fn store_value_for(result: &ProcessResult) -> (b: bool)
    ensures
        b == (result is JobFound),
{
    match result {
        ProcessResult::JobFound(..) => true,
        _ => false,
    }
}

/// The exit code a reached decision maps to: skip is owed exactly for a
/// match or a stored `true`; a stored `false` and an operator bypass replay
/// as the distinct code for "do not skip, not freshly decided".
pub open spec fn exit_code_spec(result: &ProcessResult) -> int {
    match result {
        ProcessResult::JobFound(..) => 0,
        ProcessResult::JobNotFound => 1,
        ProcessResult::SkipCiFileExists(b) => if *b {
            0
        } else {
            3
        },
        ProcessResult::Skip => 3,
    }
}

/// Maps a reached decision to its exit code (see [`exit_code_spec`]).
pub fn exit_code_of(result: &ProcessResult) -> (c: i32)
    ensures
        c == exit_code_spec(result),
{
    match result {
        ProcessResult::JobFound(..) => 0,
        ProcessResult::JobNotFound => 1,
        ProcessResult::SkipCiFileExists(b) => {
            if *b {
                0
            } else {
                3
            }
        },
        ProcessResult::Skip => 3,
    }
}

/// Law: a verdict already in the store short-circuits the whole decision.
/// One store read reaches the final state directly — no search, recovery,
/// ancestor or persist state is ever entered — and the stored verdict maps
/// to exit code zero exactly when it says "skip".
pub proof fn lemma_store_short_circuit(stored: bool, bypass: bool)
    ensures
        process_step_spec(
            ProcessState::CheckStore,
            ProcessEvent::StoreRead(Some(stored)),
            bypass,
        ) == ProcessState::Done(ProcessResult::SkipCiFileExists(stored)),
        exit_code_spec(&ProcessResult::SkipCiFileExists(stored)) == if stored {
            0int
        } else {
            3int
        },
{
}

/// Law: an operator bypass ends the decision before any search and reaches a
/// verdict that is distinguishable from a verified match — it never persists
/// and never exits with the success code.
pub proof fn lemma_bypass_short_circuit()
    ensures
        process_step_spec(ProcessState::CheckStore, ProcessEvent::StoreRead(None), true)
            == ProcessState::Done(ProcessResult::Skip),
        exit_code_spec(&ProcessResult::Skip) == 3int,
{
}

} // verus!
