use file_identifier::cursor::OrphanCursor;
use file_identifier::orchestrator::{shallow, process_tasks, CompletionAction, Orchestrator};
use file_identifier::scope::{resolve_scope, Location, ScopePrefix};
use file_identifier::tasks::{
    Error, ExtractionOutput, IdentifiedFile, NonCriticalError, ObjectProcessorOutput,
    OrphanRecord, SubPathError, TaskError, TaskOutput, TaskStatus,
};

fn location() -> Location {
    Location { id: 7, path: Some("/data/library".to_string()) }
}

fn record(id: i32) -> OrphanRecord {
    OrphanRecord { id, location_id: 7 }
}

fn page(ids: std::ops::Range<i32>) -> Vec<OrphanRecord> {
    ids.map(record).collect()
}

fn identified(id: i32, fingerprint: u64) -> IdentifiedFile {
    IdentifiedFile { record: record(id), fingerprint, size: 42, kind: 1, modified_at: 1_700_000_000 }
}

fn non_critical(id: i32, message: &str) -> NonCriticalError {
    NonCriticalError { file_path_id: id, message: message.to_string() }
}

fn extraction_done(files: Vec<IdentifiedFile>, errors: Vec<NonCriticalError>) -> TaskStatus {
    TaskStatus::Done(TaskOutput::Extraction(ExtractionOutput { identified_files: files, errors }))
}

fn object_processor_done(ids: Vec<i32>) -> TaskStatus {
    TaskStatus::Done(TaskOutput::ObjectProcessor(ObjectProcessorOutput {
        file_path_ids_with_new_object: ids,
    }))
}

#[test]
fn empty_first_page_returns_empty_and_dispatches_nothing() {
    let report = shallow(&location(), Ok(None), vec![vec![]], vec![]);
    assert_eq!(report.result, Ok(vec![]));
    assert_eq!(report.queries, 1);
    assert!(report.extraction_tasks.is_empty());
    assert!(report.object_tasks.is_empty());
    assert!(report.new_object_reports.is_empty());
}

#[test]
fn one_hundred_fifty_orphans_give_two_tasks_and_three_queries() {
    let pages = vec![page(1..101), page(101..151), vec![]];
    let completions = vec![extraction_done(vec![], vec![]), extraction_done(vec![], vec![])];
    let report = shallow(&location(), Ok(None), pages, completions);
    assert_eq!(report.queries, 3);
    assert_eq!(report.extraction_tasks.len(), 2);
    assert_eq!(report.extraction_tasks[0].orphans.len(), 100);
    assert_eq!(report.extraction_tasks[1].orphans.len(), 50);
    assert_eq!(report.extraction_tasks[0].orphans[0].id, 1);
    assert_eq!(report.extraction_tasks[1].orphans[49].id, 150);
    assert!(report.extraction_tasks.iter().all(|t| t.shallow && t.location_id == 7));
    assert_eq!(report.result, Ok(vec![]));
}

#[test]
fn single_task_with_three_files_and_one_error() {
    let pages = vec![page(1..4), vec![]];
    let files = vec![identified(1, 10), identified(2, 11), identified(3, 10)];
    let completions = vec![
        extraction_done(files.clone(), vec![non_critical(2, "metadata unreadable")]),
        object_processor_done(vec![1, 2]),
    ];
    let report = shallow(&location(), Ok(None), pages, completions);
    assert_eq!(report.result, Ok(vec![non_critical(2, "metadata unreadable")]));
    assert_eq!(report.object_tasks.len(), 1);
    assert_eq!(report.object_tasks[0].files, files);
    assert!(report.object_tasks[0].shallow);
    assert_eq!(report.new_object_reports, vec![vec![1, 2]]);
}

#[test]
fn extraction_without_identified_files_fans_out_nothing() {
    let pages = vec![page(1..3), vec![]];
    let completions = vec![extraction_done(vec![], vec![non_critical(1, "unreadable")])];
    let report = shallow(&location(), Ok(None), pages, completions);
    assert_eq!(report.result, Ok(vec![non_critical(1, "unreadable")]));
    assert!(report.object_tasks.is_empty());
    assert!(report.new_object_reports.is_empty());
}

#[test]
fn errors_from_every_task_are_kept_whatever_the_completion_order() {
    let pages = vec![page(1..101), page(101..151), vec![]];
    let first = extraction_done(vec![], vec![non_critical(3, "one")]);
    let second = extraction_done(vec![], vec![non_critical(120, "two")]);
    let report_a = shallow(
        &location(),
        Ok(None),
        pages.clone(),
        vec![first, second],
    );
    let report_b = shallow(
        &location(),
        Ok(None),
        pages,
        vec![
            extraction_done(vec![], vec![non_critical(120, "two")]),
            extraction_done(vec![], vec![non_critical(3, "one")]),
        ],
    );
    let mut errors_a = report_a.result.unwrap();
    let mut errors_b = report_b.result.unwrap();
    errors_a.sort_by_key(|e| e.file_path_id);
    errors_b.sort_by_key(|e| e.file_path_id);
    assert_eq!(errors_a, errors_b);
    assert_eq!(errors_a.len(), 2);
    assert!(errors_a.contains(&non_critical(3, "one")));
    assert!(errors_a.contains(&non_critical(120, "two")));
}

#[test]
fn task_error_aborts_the_run_and_dispatches_nothing_more() {
    let pages = vec![page(1..3), page(3..5), vec![]];
    let completions = vec![
        TaskStatus::Error(TaskError { message: "page unprocessable".to_string() }),
        extraction_done(vec![identified(3, 5)], vec![]),
    ];
    let report = shallow(&location(), Ok(None), pages, completions);
    assert_eq!(
        report.result,
        Err(Error::Task(TaskError { message: "page unprocessable".to_string() }))
    );
    assert!(report.object_tasks.is_empty());
    assert!(report.new_object_reports.is_empty());
}

#[test]
fn shutdown_discards_accumulated_errors() {
    let pages = vec![page(1..3), page(3..5), vec![]];
    let completions = vec![
        extraction_done(vec![], vec![non_critical(1, "kept so far")]),
        TaskStatus::Shutdown,
    ];
    let report = shallow(&location(), Ok(None), pages, completions);
    assert_eq!(report.result, Ok(vec![]));
}

#[test]
fn cancellation_and_forced_abortion_stop_cleanly() {
    for status in [TaskStatus::Canceled, TaskStatus::ForcedAbortion] {
        let pages = vec![page(1..3), page(3..5), vec![]];
        let completions = vec![extraction_done(vec![], vec![non_critical(1, "x")]), status];
        let report = shallow(&location(), Ok(None), pages, completions);
        assert_eq!(report.result, Ok(vec![]));
        assert!(report.object_tasks.is_empty());
    }
}

#[test]
fn empty_task_output_is_tolerated() {
    let pages = vec![page(1..2), vec![]];
    let completions = vec![TaskStatus::Done(TaskOutput::Empty)];
    let report = shallow(&location(), Ok(None), pages, completions);
    assert_eq!(report.result, Ok(vec![]));
}

#[test]
fn missing_location_path_is_a_configuration_error() {
    let broken = Location { id: 7, path: None };
    let report = shallow(&broken, Ok(None), vec![vec![]], vec![]);
    assert_eq!(report.result, Err(Error::MissingLocationPath));
    assert_eq!(report.queries, 0);
    assert!(report.extraction_tasks.is_empty());
}

#[test]
fn failed_sub_path_lookup_is_fatal() {
    let failure = SubPathError { message: "sub path not under location".to_string() };
    let report = shallow(&location(), Err(failure.clone()), vec![vec![]], vec![]);
    assert_eq!(report.result, Err(Error::SubPath(failure)));
    assert_eq!(report.queries, 0);
}

#[test]
fn resolve_scope_uses_the_found_entry() {
    let entry = ScopePrefix { location_id: 7, path: "/data/library/photos".to_string(), is_dir: true };
    let resolved = resolve_scope(&location(), Ok(Some(entry.clone())));
    assert_eq!(resolved, Ok(entry));
}

#[test]
fn resolve_scope_falls_back_to_the_root() {
    let resolved = resolve_scope(&location(), Ok(None)).unwrap();
    assert_eq!(resolved.location_id, 7);
    assert_eq!(resolved.path, "/data/library".to_string());
    assert!(resolved.is_dir);
}

#[test]
fn cursor_advances_past_the_last_record_of_each_page() {
    let mut cursor = OrphanCursor::new();
    assert!(!cursor.note_page(&page(1..101)));
    assert_eq!(cursor.last_id, Some(100));
    assert_eq!(cursor.orphans_count, 100);
    assert!(!cursor.note_page(&page(101..151)));
    assert_eq!(cursor.last_id, Some(150));
    assert_eq!(cursor.orphans_count, 150);
    assert!(cursor.note_page(&vec![]));
    assert_eq!(cursor.last_id, Some(150));
    assert_eq!(cursor.orphans_count, 150);
}

#[test]
fn orchestrator_refills_the_in_flight_set_on_fan_out() {
    let mut orch = Orchestrator::new(2);
    let action = orch.on_completion(extraction_done(vec![identified(1, 9)], vec![]));
    assert_eq!(orch.in_flight, 2);
    match action {
        CompletionAction::DispatchObjectProcessor(task) => {
            assert_eq!(task.files, vec![identified(1, 9)]);
        },
        _ => panic!("expected an object-processor dispatch"),
    }
    let action = orch.on_completion(object_processor_done(vec![1]));
    assert_eq!(orch.in_flight, 1);
    match action {
        CompletionAction::ReportNewObjects(ids) => assert_eq!(ids, vec![1]),
        _ => panic!("expected a notification"),
    }
}

#[test]
fn process_tasks_drains_the_set_and_returns_the_errors() {
    let completions = vec![
        extraction_done(vec![identified(1, 1)], vec![non_critical(2, "bad date")]),
        object_processor_done(vec![1]),
        extraction_done(vec![], vec![]),
    ];
    let report = process_tasks(completions, 2);
    assert_eq!(report.result, Ok(vec![non_critical(2, "bad date")]));
    assert_eq!(report.object_tasks.len(), 1);
    assert_eq!(report.new_object_reports, vec![vec![1]]);
}

#[test]
fn statuses_after_the_set_drains_are_never_observed() {
    let completions = vec![
        extraction_done(vec![], vec![]),
        TaskStatus::Error(TaskError { message: "never awaited".to_string() }),
    ];
    let report = process_tasks(completions, 1);
    assert_eq!(report.result, Ok(vec![]));
}
