//! The records of the queue: jobs as stored, jobs to be inserted, and the
//! summary of all batches.

use vstd::prelude::*;

use crate::status::{status_named, unknown_status_message, ImportJobStatus};

verus! {

/// A job as the queue reports it.
#[derive(Debug, Clone)]
pub struct ImportJobRecord {
    pub id: i64,
    pub batch_id: i64,
    pub source_path: String,
    pub source_name: String,
    pub dest_path: String,
    pub status: ImportJobStatus,
    pub attempt_count: i64,
}

/// A job to be added to a batch.
#[derive(Debug, Clone)]
pub struct NewImportJob {
    pub batch_id: i64,
    pub source_path: String,
    pub source_name: String,
    pub dest_path: String,
    pub max_attempts: i64,
}

/// A new job as the store first records it.
#[derive(Debug, Clone)]
pub struct StoredNewJob {
    pub batch_id: i64,
    pub source_path: String,
    pub source_name: String,
    pub dest_path: String,
    pub status: ImportJobStatus,
    pub attempt_count: i64,
    pub max_attempts: i64,
}

/// The values a new job is stored with: its own fields, queued, with no
/// attempts made yet.
pub fn stored_new_job(job: NewImportJob) -> (r: StoredNewJob)
    ensures
        r.status == ImportJobStatus::Queued,
        r.attempt_count == 0,
        r.batch_id == job.batch_id,
        r.source_path == job.source_path,
        r.source_name == job.source_name,
        r.dest_path == job.dest_path,
        r.max_attempts == job.max_attempts,
{
    StoredNewJob {
        batch_id: job.batch_id,
        source_path: job.source_path,
        source_name: job.source_name,
        dest_path: job.dest_path,
        status: ImportJobStatus::Queued,
        attempt_count: 0,
        max_attempts: job.max_attempts,
    }
}

/// Counts over all batches, as shown to the user.
#[derive(Debug, Clone)]
pub struct ImportBatchSummary {
    pub active_batches: i64,
    pub total_jobs: i64,
    pub queued_jobs: i64,
    pub running_jobs: i64,
    pub retrying_jobs: i64,
    pub completed_jobs: i64,
    pub failed_jobs: i64,
    pub is_idle: bool,
    pub headline: String,
    pub max_concurrency: usize,
}

/// A job row as read from the store, its status still a name.
#[derive(Debug, Clone)]
pub struct ImportJobRow {
    pub id: i64,
    pub batch_id: i64,
    pub source_path: String,
    pub source_name: String,
    pub dest_path: String,
    pub status: String,
    pub attempt_count: i64,
}

/// Turns a stored row into a job record; a row whose status name is unknown
/// is refused with the message of `ImportJobStatus::from_wire`.
pub fn job_record_from_row(row: ImportJobRow) -> (r: Result<ImportJobRecord, String>)
    ensures
        match r {
            Ok(record) => {
                &&& status_named(row.status@) == Some(record.status)
                &&& record.id == row.id
                &&& record.batch_id == row.batch_id
                &&& record.source_path == row.source_path
                &&& record.source_name == row.source_name
                &&& record.dest_path == row.dest_path
                &&& record.attempt_count == row.attempt_count
            },
            Err(message) => {
                &&& status_named(row.status@) is None
                &&& message@ == unknown_status_message(row.status@)
            },
        },
{
    match ImportJobStatus::from_wire(row.status.as_str()) {
        Ok(status) => Ok(
            ImportJobRecord {
                id: row.id,
                batch_id: row.batch_id,
                source_path: row.source_path,
                source_name: row.source_name,
                dest_path: row.dest_path,
                status,
                attempt_count: row.attempt_count,
            },
        ),
        Err(message) => Err(message),
    }
}

} // verus!
