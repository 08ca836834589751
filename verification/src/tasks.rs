//! Data carried through the pipeline and the contracts of the two task kinds.
//!
//! Extraction tasks and object-processor tasks run on an external
//! task-execution substrate; the orchestrator only sees their terminal
//! statuses. The types here are the plain values that cross that boundary.

use vstd::prelude::*;

verus! {

/// One indexed file-path row that has no content object linked yet: the
/// minimal projection the pipeline needs of it.
#[derive(Clone, Copy, Debug, PartialEq, Eq, Structural)]
pub struct OrphanRecord {
    /// Row identifier; the cursor pages in ascending order of it.
    pub id: i32,
    /// Identifier of the location the row belongs to.
    pub location_id: i32,
}

/// An orphan record together with the content metadata an extraction task
/// computed for it.
#[derive(Clone, Copy, Debug, PartialEq, Eq, Structural)]
pub struct IdentifiedFile {
    pub record: OrphanRecord,
    /// Content fingerprint used to deduplicate byte-identical files.
    pub fingerprint: u64,
    pub size: u64,
    pub kind: u32,
    pub modified_at: i64,
}

/// A recoverable failure tied to one file or one task. Accumulated for the
/// whole run and returned to the caller; never aborts the run.
#[derive(Clone, Debug, PartialEq, Eq)]
pub struct NonCriticalError {
    pub file_path_id: i32,
    pub message: String,
}

/// The error a task reports when the whole task failed; fatal for the run.
#[derive(Clone, Debug, PartialEq, Eq)]
pub struct TaskError {
    pub message: String,
}

/// Failure of the sub-path lookup that bounds the scan.
#[derive(Clone, Debug, PartialEq, Eq)]
pub struct SubPathError {
    pub message: String,
}

/// A fatal error: the run aborts and this is its result.
#[derive(Debug, PartialEq, Eq)]
pub enum Error {
    /// The location's root path is unset, so no scope can be resolved.
    MissingLocationPath,
    /// The sub-path lookup itself failed.
    SubPath(SubPathError),
    /// An in-flight task reported a task-level failure.
    Task(TaskError),
}

/// What a successful extraction task hands back: the files it identified and
/// the per-file failures that did not stop it.
#[derive(Debug)]
pub struct ExtractionOutput {
    pub identified_files: Vec<IdentifiedFile>,
    pub errors: Vec<NonCriticalError>,
}

/// What a successful object-processor task hands back: the rows that received
/// a newly created content object (rather than a link to an existing one).
#[derive(Debug)]
pub struct ObjectProcessorOutput {
    pub file_path_ids_with_new_object: Vec<i32>,
}

/// The payload of a task that completed successfully, a closed enumeration
/// the orchestrator routes by.
#[derive(Debug)]
pub enum TaskOutput {
    Extraction(ExtractionOutput),
    ObjectProcessor(ObjectProcessorOutput),
    /// A task that finished without producing a payload; an anomaly the run
    /// tolerates.
    Empty,
}

/// The one terminal status every dispatched task eventually yields.
#[derive(Debug)]
pub enum TaskStatus {
    Done(TaskOutput),
    Shutdown,
    Error(TaskError),
    Canceled,
    ForcedAbortion,
}

/// Description of one extraction task to dispatch: one page of orphans of one
/// location, with shallow (single-directory) traversal semantics.
#[derive(Debug)]
pub struct ExtractionTaskSpec {
    pub location_id: i32,
    pub orphans: Vec<OrphanRecord>,
    pub shallow: bool,
}

/// Description of one object-processor task to dispatch: the batch of files
/// one extraction task identified.
#[derive(Debug)]
pub struct ObjectProcessorTaskSpec {
    pub files: Vec<IdentifiedFile>,
    pub shallow: bool,
}

} // verus!
