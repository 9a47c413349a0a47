# import_queue

The rules of a desktop application's persistent import queue, verified with Verus.

- `src/status.rs`: job statuses, their stored names (`status_to_wire`,
  `ImportJobStatus::from_wire`) and the requeueing of in-flight jobs on reopening.
- `src/records.rs`: job records, new jobs, the batch summary, and the decoding of
  a stored job row.
- `src/text.rs`: trimming and unsigned decimal parsing with the standard
  library's meaning.
- `src/config.rs`: the `IMPORT_MAX_CONCURRENCY` setting from a `.env` text and
  the environment.
- `src/retry.rs`: whether and when a failed job is retried, from a given current time.
- `app/`: the SQLite store (rusqlite), file and environment reads, the command
  that moves a job between stages, and serde copies of the records.

Left out: the commands `enqueue_import_batch`, `get_import_queue_summary`,
`claim_import_jobs`, `complete_import_job` and `fail_import_job` call store
methods (`enqueue_import_batch_atomic`, `global_summary`, `claim_next_jobs`,
`mark_job_completed`, `mark_job_retry`, `mark_job_failed`) that the store does
not define, so there is nothing for them to run; the decision of
`fail_import_job` is `plan_job_failure`, which `app/commands.rs` calls with the
clock's time. The Tauri entry point `run` is left out because Tauri is not a
dependency here.
