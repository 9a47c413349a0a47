use import_queue::records::{job_record_from_row, stored_new_job, ImportJobRow, NewImportJob};
use import_queue::status::ImportJobStatus;

fn row(status: &str) -> ImportJobRow {
    ImportJobRow {
        id: 7,
        batch_id: 2,
        source_path: "/tmp/source/a.md".to_string(),
        source_name: "a.md".to_string(),
        dest_path: "/tmp/project/raw/sources/a.md".to_string(),
        status: status.to_string(),
        attempt_count: 1,
    }
}

#[test]
fn row_with_known_status_becomes_record() {
    let record = job_record_from_row(row("ingesting")).unwrap();
    assert_eq!(record.id, 7);
    assert_eq!(record.batch_id, 2);
    assert_eq!(record.source_path, "/tmp/source/a.md");
    assert_eq!(record.source_name, "a.md");
    assert_eq!(record.dest_path, "/tmp/project/raw/sources/a.md");
    assert_eq!(record.status, ImportJobStatus::Ingesting);
    assert_eq!(record.attempt_count, 1);
}

#[test]
fn row_with_queued_status() {
    let record = job_record_from_row(row("queued")).unwrap();
    assert_eq!(record.status, ImportJobStatus::Queued);
}

#[test]
fn row_with_unknown_status_is_refused() {
    let err = job_record_from_row(row("paused")).unwrap_err();
    assert_eq!(err, "Unknown import job status: paused");
}

#[test]
fn new_job_is_stored_queued_without_attempts() {
    let stored = stored_new_job(NewImportJob {
        batch_id: 4,
        source_path: "/tmp/source/a.md".into(),
        source_name: "a.md".into(),
        dest_path: "/tmp/project/raw/sources/a.md".into(),
        max_attempts: 3,
    });
    assert_eq!(stored.status, ImportJobStatus::Queued);
    assert_eq!(stored.attempt_count, 0);
    assert_eq!(stored.batch_id, 4);
    assert_eq!(stored.source_path, "/tmp/source/a.md");
    assert_eq!(stored.source_name, "a.md");
    assert_eq!(stored.dest_path, "/tmp/project/raw/sources/a.md");
    assert_eq!(stored.max_attempts, 3);
}
