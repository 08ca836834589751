//! The pipeline orchestrator: fan-out of extraction tasks over the cursor's
//! pages, then a consume-and-refill loop over the dynamic set of in-flight
//! tasks, with the task-status state machine that decides what is surfaced,
//! what fans out further work, and what ends the run.
//!
//! The asynchronous parts — querying the index, dispatching to the
//! task-execution substrate, awaiting the next completion — happen outside
//! this crate. Here the two suspension points are inputs: the sequence of
//! pages the index returned, and the sequence of task statuses in the order
//! completions were observed (completion order, not dispatch order). The
//! orchestrator's decisions on those inputs are all verified; the driver
//! functions [`shallow`] and [`process_tasks`] replay a whole run and return,
//! besides the run's result, the trace of everything that was dispatched or
//! reported, pinned exactly by their contracts.

use vstd::prelude::*;
use crate::cursor::{
    scan_of, scan_from, scan_init, lemma_scan_from_concat, lemma_scan_from_frozen,
    lemma_scan_from_snoc, pages_ok_from, OrphanCursor, CHUNK_SIZE,
};
use crate::scope::{resolve_scope, Location, ScopePrefix};
use crate::tasks::{
    Error, ExtractionTaskSpec, IdentifiedFile, NonCriticalError, ObjectProcessorTaskSpec,
    OrphanRecord, SubPathError, TaskError, TaskOutput, TaskStatus,
};

verus! {

/// Why the consume loop stopped before the in-flight set drained.
#[derive(Debug, PartialEq, Eq)]
pub enum HaltKind {
    /// `Shutdown`, `Canceled` or `ForcedAbortion`: a clean early stop. The
    /// run returns an empty error list, discarding what was accumulated.
    Stopped,
    /// A task reported a task-level failure; the run aborts with it.
    Failed(TaskError),
}

/// Ghost state of the consume-and-refill loop.
pub struct RunState {
    /// Tasks dispatched whose completion has not been observed yet.
    pub in_flight: nat,
    /// Non-critical errors accumulated so far, in completion order.
    pub errors: Seq<NonCriticalError>,
    pub halted: Option<HaltKind>,
    /// Batches handed to object-processor tasks, in dispatch order.
    pub batches: Seq<Seq<IdentifiedFile>>,
    /// New-object notifications emitted, in completion order.
    pub reports: Seq<Seq<i32>>,
}

pub open spec fn run_init(in_flight: nat) -> RunState {
    RunState {
        in_flight,
        errors: Seq::empty(),
        halted: None,
        batches: Seq::empty(),
        reports: Seq::empty(),
    }
}

/// The loop keeps consuming while nothing halted it and tasks are in flight.
pub open spec fn run_active(s: RunState) -> bool {
    s.halted is None && s.in_flight > 0
}

/// One observed completion. Every completion takes its task out of the
/// in-flight set; an extraction output with at least one identified file
/// puts exactly one object-processor task back in.
pub open spec fn run_step(s: RunState, status: TaskStatus) -> RunState {
    if !run_active(s) {
        s
    } else {
        match status {
            TaskStatus::Done(TaskOutput::Extraction(out)) => {
                if out.identified_files@.len() > 0 {
                    RunState {
                        in_flight: s.in_flight,
                        errors: s.errors + out.errors@,
                        halted: None,
                        batches: s.batches.push(out.identified_files@),
                        reports: s.reports,
                    }
                } else {
                    RunState {
                        in_flight: (s.in_flight - 1) as nat,
                        errors: s.errors + out.errors@,
                        halted: None,
                        batches: s.batches,
                        reports: s.reports,
                    }
                }
            },
            TaskStatus::Done(TaskOutput::ObjectProcessor(out)) => RunState {
                in_flight: (s.in_flight - 1) as nat,
                errors: s.errors,
                halted: None,
                batches: s.batches,
                reports: s.reports.push(out.file_path_ids_with_new_object@),
            },
            TaskStatus::Done(TaskOutput::Empty) => RunState {
                in_flight: (s.in_flight - 1) as nat,
                errors: s.errors,
                halted: None,
                batches: s.batches,
                reports: s.reports,
            },
            TaskStatus::Error(e) => RunState {
                in_flight: (s.in_flight - 1) as nat,
                errors: s.errors,
                halted: Some(HaltKind::Failed(e)),
                batches: s.batches,
                reports: s.reports,
            },
            TaskStatus::Shutdown | TaskStatus::Canceled | TaskStatus::ForcedAbortion => RunState {
                in_flight: (s.in_flight - 1) as nat,
                errors: s.errors,
                halted: Some(HaltKind::Stopped),
                batches: s.batches,
                reports: s.reports,
            },
        }
    }
}

/// The loop state after observing a sequence of completions.
pub open spec fn run_from(s: RunState, completions: Seq<TaskStatus>) -> RunState
    decreases completions.len(),
{
    if completions.len() == 0 {
        s
    } else {
        run_from(run_step(s, completions[0]), completions.drop_first())
    }
}

/// Observing one more completion is one more step.
pub proof fn lemma_run_from_snoc(s: RunState, completions: Seq<TaskStatus>, status: TaskStatus)
    ensures
        run_from(s, completions.push(status)) == run_step(run_from(s, completions), status),
    decreases completions.len(),
{
    if completions.len() == 0 {
        assert(completions.push(status)[0] == status);
        assert(completions.push(status).drop_first() =~= completions);
        assert(run_from(s, completions.push(status)) == run_from(
            run_step(s, status),
            completions.push(status).drop_first(),
        ));
        assert(run_from(run_step(s, status), completions) == run_step(s, status));
    } else {
        assert(completions.push(status)[0] == completions[0]);
        assert(completions.push(status).drop_first() =~= completions.drop_first().push(status));
        lemma_run_from_snoc(run_step(s, completions[0]), completions.drop_first(), status);
    }
}

/// Once the loop is no longer active — halted, or the in-flight set empty —
/// the rest of the script changes nothing: those statuses are never awaited.
pub proof fn lemma_run_from_frozen(s: RunState, completions: Seq<TaskStatus>)
    requires
        !run_active(s),
    ensures
        run_from(s, completions) == s,
    decreases completions.len(),
{
    if completions.len() > 0 {
        lemma_run_from_frozen(s, completions.drop_first());
    }
}

/// Splitting the script splits the run.
pub proof fn lemma_run_from_concat(s: RunState, first: Seq<TaskStatus>, rest: Seq<TaskStatus>)
    ensures
        run_from(s, first + rest) == run_from(run_from(s, first), rest),
    decreases first.len(),
{
    if first.len() == 0 {
        assert(first + rest =~= rest);
    } else {
        assert((first + rest)[0] == first[0]);
        assert((first + rest).drop_first() =~= first.drop_first() + rest);
        lemma_run_from_concat(run_step(s, first[0]), first.drop_first(), rest);
    }
}

/// The orchestrator's live record of the consume-and-refill loop.
pub struct Orchestrator {
    pub in_flight: u64,
    pub errors: Vec<NonCriticalError>,
    pub halted: Option<HaltKind>,
}

/// What the loop around the orchestrator must do after one completion.
#[derive(Debug)]
pub enum CompletionAction {
    /// Dispatch this object-processor task and add its handle to the
    /// in-flight set.
    DispatchObjectProcessor(ObjectProcessorTaskSpec),
    /// Report these rows as having received newly created objects to the
    /// external event sink (best effort, not awaited).
    ReportNewObjects(Vec<i32>),
    /// Nothing to do; keep consuming.
    Proceed,
    /// Stop consuming and drop every remaining in-flight handle, which
    /// requests cancellation of the tasks behind them.
    Halt,
}

impl Orchestrator {
    pub fn new(in_flight: u64) -> (o: Self)
        ensures
            o.in_flight == in_flight,
            o.errors@ == Seq::<NonCriticalError>::empty(),
            o.halted is None,
    {
        Orchestrator { in_flight, errors: Vec::new(), halted: None }
    }

    /// Classifies one observed completion and advances the state machine:
    /// a `Done` extraction output has its non-critical errors accumulated and,
    /// with at least one identified file, fans out exactly one
    /// object-processor task; a `Done` object-processor output becomes a
    /// notification; an empty `Done` output is tolerated; `Error` is fatal;
    /// `Shutdown`, `Canceled` and `ForcedAbortion` stop the run cleanly.
    pub fn on_completion(&mut self, status: TaskStatus) -> (action: CompletionAction)
        requires
            old(self).halted is None,
            old(self).in_flight > 0,
        ensures
            match status {
                TaskStatus::Done(TaskOutput::Extraction(out)) => {
                    &&& final(self).errors@ == old(self).errors@ + out.errors@
                    &&& final(self).halted is None
                    &&& if out.identified_files@.len() > 0 {
                        &&& final(self).in_flight == old(self).in_flight
                        &&& action matches CompletionAction::DispatchObjectProcessor(t)
                            && t.files == out.identified_files && t.shallow == true
                    } else {
                        &&& final(self).in_flight == old(self).in_flight - 1
                        &&& action is Proceed
                    }
                },
                TaskStatus::Done(TaskOutput::ObjectProcessor(out)) => {
                    &&& final(self).errors@ == old(self).errors@
                    &&& final(self).halted is None
                    &&& final(self).in_flight == old(self).in_flight - 1
                    &&& action matches CompletionAction::ReportNewObjects(ids) && ids
                        == out.file_path_ids_with_new_object
                },
                TaskStatus::Done(TaskOutput::Empty) => {
                    &&& final(self).errors@ == old(self).errors@
                    &&& final(self).halted is None
                    &&& final(self).in_flight == old(self).in_flight - 1
                    &&& action is Proceed
                },
                TaskStatus::Error(e) => {
                    &&& final(self).errors@ == old(self).errors@
                    &&& final(self).halted == Some(HaltKind::Failed(e))
                    &&& final(self).in_flight == old(self).in_flight - 1
                    &&& action is Halt
                },
                TaskStatus::Shutdown | TaskStatus::Canceled | TaskStatus::ForcedAbortion => {
                    &&& final(self).errors@ == old(self).errors@
                    &&& final(self).halted == Some(HaltKind::Stopped)
                    &&& final(self).in_flight == old(self).in_flight - 1
                    &&& action is Halt
                },
            },
    {
        self.in_flight = self.in_flight - 1;
        match status {
            TaskStatus::Done(output) => match output {
                TaskOutput::Extraction(out) => {
                    let crate::tasks::ExtractionOutput { identified_files, errors: mut more_errors } =
                        out;
                    self.errors.append(&mut more_errors);
                    if identified_files.len() > 0 {
                        self.in_flight = self.in_flight + 1;
                        CompletionAction::DispatchObjectProcessor(
                            ObjectProcessorTaskSpec { files: identified_files, shallow: true },
                        )
                    } else {
                        CompletionAction::Proceed
                    }
                },
                TaskOutput::ObjectProcessor(out) => CompletionAction::ReportNewObjects(
                    out.file_path_ids_with_new_object,
                ),
                TaskOutput::Empty => CompletionAction::Proceed,
            },
            TaskStatus::Error(e) => {
                self.halted = Some(HaltKind::Failed(e));
                CompletionAction::Halt
            },
            TaskStatus::Shutdown | TaskStatus::Canceled | TaskStatus::ForcedAbortion => {
                self.halted = Some(HaltKind::Stopped);
                CompletionAction::Halt
            },
        }
    }
}

/// The result of replaying a consume-and-refill loop: the run's result plus
/// the trace of what the loop dispatched and reported.
pub struct ProcessReport {
    /// The accumulated non-critical errors, an empty list after a clean early
    /// stop, or the fatal task error.
    pub result: Result<Vec<NonCriticalError>, Error>,
    pub object_tasks: Vec<ObjectProcessorTaskSpec>,
    pub new_object_reports: Vec<Vec<i32>>,
}

/// Drives the consume-and-refill loop over the statuses of `in_flight`
/// already-dispatched tasks, observed in completion order. The loop ends when
/// the in-flight set drains, when a terminal status halts it, or when the
/// script runs out.
pub fn process_tasks(completions: Vec<TaskStatus>, in_flight: u64) -> (r: ProcessReport)
    ensures
        ({
            let fin = run_from(run_init(in_flight as nat), completions@);
            &&& match fin.halted {
                None => r.result matches Ok(v) && v@ == fin.errors,
                Some(HaltKind::Stopped) => r.result matches Ok(v) && v@.len() == 0,
                Some(HaltKind::Failed(e)) => r.result == Err::<Vec<NonCriticalError>, Error>(
                    Error::Task(e),
                ),
            }
            &&& r.object_tasks@.len() == fin.batches.len()
            &&& forall|i: int|
                0 <= i < fin.batches.len() ==> (#[trigger] r.object_tasks@[i]).files@
                    == fin.batches[i] && r.object_tasks@[i].shallow == true
            &&& r.new_object_reports@.len() == fin.reports.len()
            &&& forall|i: int|
                0 <= i < fin.reports.len() ==> (#[trigger] r.new_object_reports@[i])@
                    == fin.reports[i]
        }),
{
    let ghost cs = completions@;
    let mut completions = completions;
    let mut orch = Orchestrator::new(in_flight);
    let mut object_tasks: Vec<ObjectProcessorTaskSpec> = Vec::new();
    let mut new_object_reports: Vec<Vec<i32>> = Vec::new();
    let ghost mut i: int = 0;

    while completions.len() > 0 && orch.in_flight > 0 && orch.halted.is_none()
        invariant
            0 <= i <= cs.len(),
            completions@ == cs.skip(i),
            ({
                let s = run_from(run_init(in_flight as nat), cs.take(i));
                &&& orch.in_flight as nat == s.in_flight
                &&& orch.errors@ == s.errors
                &&& orch.halted == s.halted
                &&& object_tasks@.len() == s.batches.len()
                &&& forall|k: int|
                    0 <= k < s.batches.len() ==> (#[trigger] object_tasks@[k]).files@
                        == s.batches[k] && object_tasks@[k].shallow == true
                &&& new_object_reports@.len() == s.reports.len()
                &&& forall|k: int|
                    0 <= k < s.reports.len() ==> (#[trigger] new_object_reports@[k])@
                        == s.reports[k]
            }),
        decreases completions@.len(),
    {
        let status = completions.remove(0);
        proof {
            assert(status == cs[i]);
            assert(cs.take(i + 1) =~= cs.take(i).push(cs[i]));
            lemma_run_from_snoc(run_init(in_flight as nat), cs.take(i), cs[i]);
        }
        let action = orch.on_completion(status);
        match action {
            CompletionAction::DispatchObjectProcessor(t) => object_tasks.push(t),
            CompletionAction::ReportNewObjects(ids) => new_object_reports.push(ids),
            CompletionAction::Proceed => {},
            CompletionAction::Halt => {},
        }
        proof {
            i = i + 1;
            assert(completions@ == cs.skip(i));
        }
    }

    proof {
        let s = run_from(run_init(in_flight as nat), cs.take(i));
        assert(cs.take(i) + cs.skip(i) =~= cs);
        lemma_run_from_concat(run_init(in_flight as nat), cs.take(i), cs.skip(i));
        if i < cs.len() {
            lemma_run_from_frozen(s, cs.skip(i));
        } else {
            assert(cs.skip(i) =~= Seq::<TaskStatus>::empty());
        }
    }

    let result = match orch.halted {
        None => Ok(orch.errors),
        Some(HaltKind::Stopped) => Ok(Vec::new()),
        Some(HaltKind::Failed(e)) => Err(Error::Task(e)),
    };
    ProcessReport { result, object_tasks, new_object_reports }
}

/// The outcome and the full dispatch trace of one pipeline run.
pub struct RunReport {
    /// What the caller receives: the accumulated non-critical errors of a
    /// successful run, or the fatal error that aborted it.
    pub result: Result<Vec<NonCriticalError>, Error>,
    /// How many page queries the cursor issued.
    pub queries: u64,
    /// The extraction tasks dispatched, in dispatch (ascending-id) order.
    pub extraction_tasks: Vec<ExtractionTaskSpec>,
    /// The object-processor tasks fanned out, in dispatch order.
    pub object_tasks: Vec<ObjectProcessorTaskSpec>,
    /// The new-object notifications emitted, in completion order.
    pub new_object_reports: Vec<Vec<i32>>,
}

/// One whole shallow run over a location, replayed on plain values.
///
/// `pages` holds the successive answers of the index to the cursor's queries;
/// `completions` holds the statuses of the in-flight tasks in the order their
/// completions were observed. Scope resolution failures abort before anything
/// is dispatched; a scan that finds no orphan returns an empty error list at
/// once; otherwise one extraction task is dispatched per non-empty page and
/// the consume-and-refill loop decides the rest.
///
/// `pages` must be what the index promises of successive cursor queries
/// ([`pages_ok_from`]), and short enough that the orphan counter fits its
/// machine word.
pub fn shallow(
    location: &Location,
    sub_path_entry: Result<Option<ScopePrefix>, SubPathError>,
    pages: Vec<Vec<OrphanRecord>>,
    completions: Vec<TaskStatus>,
) -> (r: RunReport)
    requires
        pages_ok_from(None, location.id, pages@.map_values(|p: Vec<OrphanRecord>| p@)),
        pages@.len() * CHUNK_SIZE as int <= u64::MAX as int,
    ensures
        location.path is None ==> {
            &&& r.result == Err::<Vec<NonCriticalError>, Error>(Error::MissingLocationPath)
            &&& r.queries == 0
            &&& r.extraction_tasks@.len() == 0
            &&& r.object_tasks@.len() == 0
            &&& r.new_object_reports@.len() == 0
        },
        match sub_path_entry {
            Err(se) => location.path is Some ==> {
                &&& r.result == Err::<Vec<NonCriticalError>, Error>(Error::SubPath(se))
                &&& r.queries == 0
                &&& r.extraction_tasks@.len() == 0
                &&& r.object_tasks@.len() == 0
                &&& r.new_object_reports@.len() == 0
            },
            Ok(_) => true,
        },
        location.path is Some && sub_path_entry is Ok ==> ({
            let scan = scan_of(pages@.map_values(|p: Vec<OrphanRecord>| p@));
            &&& r.queries == scan.queries
            &&& r.extraction_tasks@.len() == scan.dispatched.len()
            &&& forall|k: int|
                0 <= k < scan.dispatched.len() ==> {
                    &&& (#[trigger] r.extraction_tasks@[k]).orphans@ == scan.dispatched[k]
                    &&& r.extraction_tasks@[k].location_id == location.id
                    &&& r.extraction_tasks@[k].shallow == true
                }
            &&& scan.count == 0 ==> {
                &&& r.result matches Ok(v) && v@.len() == 0
                &&& r.object_tasks@.len() == 0
                &&& r.new_object_reports@.len() == 0
            }
            &&& scan.count > 0 ==> ({
                let fin = run_from(run_init(scan.dispatched.len()), completions@);
                &&& match fin.halted {
                    None => r.result matches Ok(v) && v@ == fin.errors,
                    Some(HaltKind::Stopped) => r.result matches Ok(v) && v@.len() == 0,
                    Some(HaltKind::Failed(e)) => r.result == Err::<Vec<NonCriticalError>, Error>(
                        Error::Task(e),
                    ),
                }
                &&& r.object_tasks@.len() == fin.batches.len()
                &&& forall|k: int|
                    0 <= k < fin.batches.len() ==> (#[trigger] r.object_tasks@[k]).files@
                        == fin.batches[k] && r.object_tasks@[k].shallow == true
                &&& r.new_object_reports@.len() == fin.reports.len()
                &&& forall|k: int|
                    0 <= k < fin.reports.len() ==> (#[trigger] r.new_object_reports@[k])@
                        == fin.reports[k]
            })
        }),
{
    // The resolved scope bounds the queries whose answers `pages` holds; the
    // run needs it here only for its failure modes.
    let _scope = match resolve_scope(location, sub_path_entry) {
        Ok(scope) => scope,
        Err(e) => {
            return RunReport {
                result: Err(e),
                queries: 0,
                extraction_tasks: Vec::new(),
                object_tasks: Vec::new(),
                new_object_reports: Vec::new(),
            };
        },
    };

    let ghost ps = pages@.map_values(|p: Vec<OrphanRecord>| p@);
    let mut pages = pages;
    let mut cursor = OrphanCursor::new();
    let mut extraction_tasks: Vec<ExtractionTaskSpec> = Vec::new();
    let mut queries: u64 = 0;
    let mut exhausted = false;
    let ghost mut i: int = 0;

    proof {
        assert(ps.skip(0) =~= ps);
    }
    while pages.len() > 0 && !exhausted
        invariant
            0 <= i <= ps.len(),
            ps.len() * CHUNK_SIZE as int <= u64::MAX as int,
            pages@.map_values(|p: Vec<OrphanRecord>| p@) == ps.skip(i),
            pages_ok_from(cursor.last_id, location.id, ps.skip(i)),
            ({
                let s = scan_from(scan_init(), ps.take(i));
                &&& exhausted == s.exhausted
                &&& cursor.last_id == s.last_id
                &&& cursor.orphans_count as nat == s.count
                &&& queries as nat == s.queries
                &&& s.queries <= i
                &&& s.count <= i * CHUNK_SIZE as int
                &&& s.dispatched.len() <= s.count
                &&& extraction_tasks@.len() == s.dispatched.len()
                &&& forall|k: int|
                    0 <= k < s.dispatched.len() ==> {
                        &&& (#[trigger] extraction_tasks@[k]).orphans@ == s.dispatched[k]
                        &&& extraction_tasks@[k].location_id == location.id
                        &&& extraction_tasks@[k].shallow == true
                    }
            }),
        decreases pages@.len(),
    {
        let page = pages.remove(0);
        proof {
            assert(ps.skip(i)[0] == ps[i]);
            assert(page@ == ps[i]);
            assert(ps.take(i + 1) =~= ps.take(i).push(ps[i]));
            lemma_scan_from_snoc(scan_init(), ps.take(i), ps[i]);
            assert(ps.skip(i).drop_first() =~= ps.skip(i + 1));
        }
        queries = queries + 1;
        exhausted = cursor.note_page(&page);
        proof {
            i = i + 1;
        }
        if !exhausted {
            extraction_tasks.push(
                ExtractionTaskSpec { location_id: location.id, orphans: page, shallow: true },
            );
        }
    }

    proof {
        if i < ps.len() {
            lemma_scan_from_frozen(scan_from(scan_init(), ps.take(i)), ps.skip(i));
            assert(ps.take(i) + ps.skip(i) =~= ps);
            lemma_scan_from_concat(scan_init(), ps.take(i), ps.skip(i));
        } else {
            assert(ps.take(i) =~= ps);
        }
        assert(scan_of(ps) == scan_from(scan_init(), ps.take(i)));
    }

    if cursor.orphans_count == 0 {
        return RunReport {
            result: Ok(Vec::new()),
            queries,
            extraction_tasks,
            object_tasks: Vec::new(),
            new_object_reports: Vec::new(),
        };
    }

    let in_flight = extraction_tasks.len() as u64;
    let processed = process_tasks(completions, in_flight);
    RunReport {
        result: processed.result,
        queries,
        extraction_tasks,
        object_tasks: processed.object_tasks,
        new_object_reports: processed.new_object_reports,
    }
}

} // verus!
