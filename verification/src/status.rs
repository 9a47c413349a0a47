//! Job statuses, the names they carry in the database and over the wire, and
//! what recovery after a restart does to them.

use vstd::prelude::*;

verus! {

/// Where an import job stands.
#[derive(Debug, Clone, Copy, PartialEq, Eq, Structural)]
pub enum ImportJobStatus {
    Queued,
    Copying,
    Preprocessing,
    Ingesting,
    RetryWait,
    Completed,
    Failed,
}

/// The working stages a job passes through.
#[derive(Debug, Clone, Copy, PartialEq, Eq, Structural)]
pub enum JobStage {
    Copying,
    Preprocessing,
    Ingesting,
}

/// The snake_case name of a status, as stored and sent.
pub open spec fn wire_name(status: ImportJobStatus) -> Seq<char> {
    match status {
        ImportJobStatus::Queued => seq!['q', 'u', 'e', 'u', 'e', 'd'],
        ImportJobStatus::Copying => seq!['c', 'o', 'p', 'y', 'i', 'n', 'g'],
        ImportJobStatus::Preprocessing => seq![
            'p', 'r', 'e', 'p', 'r', 'o', 'c', 'e', 's', 's', 'i', 'n', 'g',
        ],
        ImportJobStatus::Ingesting => seq!['i', 'n', 'g', 'e', 's', 't', 'i', 'n', 'g'],
        ImportJobStatus::RetryWait => seq!['r', 'e', 't', 'r', 'y', '_', 'w', 'a', 'i', 't'],
        ImportJobStatus::Completed => seq!['c', 'o', 'm', 'p', 'l', 'e', 't', 'e', 'd'],
        ImportJobStatus::Failed => seq!['f', 'a', 'i', 'l', 'e', 'd'],
    }
}

/// The status that a wire name denotes, if it denotes one.
pub open spec fn status_named(name: Seq<char>) -> Option<ImportJobStatus> {
    if name == wire_name(ImportJobStatus::Queued) {
        Some(ImportJobStatus::Queued)
    } else if name == wire_name(ImportJobStatus::Copying) {
        Some(ImportJobStatus::Copying)
    } else if name == wire_name(ImportJobStatus::Preprocessing) {
        Some(ImportJobStatus::Preprocessing)
    } else if name == wire_name(ImportJobStatus::Ingesting) {
        Some(ImportJobStatus::Ingesting)
    } else if name == wire_name(ImportJobStatus::RetryWait) {
        Some(ImportJobStatus::RetryWait)
    } else if name == wire_name(ImportJobStatus::Completed) {
        Some(ImportJobStatus::Completed)
    } else if name == wire_name(ImportJobStatus::Failed) {
        Some(ImportJobStatus::Failed)
    } else {
        None
    }
}

/// The message with which an unknown status name is refused.
pub open spec fn unknown_status_message(name: Seq<char>) -> Seq<char> {
    "Unknown import job status: "@ + name
}

/// A job in one of these statuses was being worked on; after a restart
/// nobody is working on it any more.
pub open spec fn is_in_flight(status: ImportJobStatus) -> bool {
    ||| status == ImportJobStatus::Copying
    ||| status == ImportJobStatus::Preprocessing
    ||| status == ImportJobStatus::Ingesting
}

/// The status a job has after the queue recovers stale jobs on reopening.
pub open spec fn recovered(status: ImportJobStatus) -> ImportJobStatus {
    if is_in_flight(status) {
        ImportJobStatus::Queued
    } else {
        status
    }
}

/// The name under which a status is stored.
pub fn status_to_wire(status: ImportJobStatus) -> (name: &'static str)
    ensures
        name@ == wire_name(status),
{
    match status {
        ImportJobStatus::Queued => {
            proof {
                reveal_strlit("queued");
            }
            "queued"
        },
        ImportJobStatus::Copying => {
            proof {
                reveal_strlit("copying");
            }
            "copying"
        },
        ImportJobStatus::Preprocessing => {
            proof {
                reveal_strlit("preprocessing");
            }
            "preprocessing"
        },
        ImportJobStatus::Ingesting => {
            proof {
                reveal_strlit("ingesting");
            }
            "ingesting"
        },
        ImportJobStatus::RetryWait => {
            proof {
                reveal_strlit("retry_wait");
            }
            "retry_wait"
        },
        ImportJobStatus::Completed => {
            proof {
                reveal_strlit("completed");
            }
            "completed"
        },
        ImportJobStatus::Failed => {
            proof {
                reveal_strlit("failed");
            }
            "failed"
        },
    }
}

/// Whether `text` is the wire name of `status`.
fn is_wire_name_of(text: &String, status: ImportJobStatus) -> (r: bool)
    ensures
        r == (text@ == wire_name(status)),
{
    *text == status_to_wire(status).to_owned()
}

impl ImportJobStatus {
    /// Reads a status from its wire name.
    pub fn from_wire(value: &str) -> (r: Result<Self, String>)
        ensures
            match r {
                Ok(status) => status_named(value@) == Some(status),
                Err(message) => status_named(value@) is None && message@
                    == unknown_status_message(value@),
            },
    {
        let text = value.to_owned();
        if is_wire_name_of(&text, ImportJobStatus::Queued) {
            Ok(ImportJobStatus::Queued)
        } else if is_wire_name_of(&text, ImportJobStatus::Copying) {
            Ok(ImportJobStatus::Copying)
        } else if is_wire_name_of(&text, ImportJobStatus::Preprocessing) {
            Ok(ImportJobStatus::Preprocessing)
        } else if is_wire_name_of(&text, ImportJobStatus::Ingesting) {
            Ok(ImportJobStatus::Ingesting)
        } else if is_wire_name_of(&text, ImportJobStatus::RetryWait) {
            Ok(ImportJobStatus::RetryWait)
        } else if is_wire_name_of(&text, ImportJobStatus::Completed) {
            Ok(ImportJobStatus::Completed)
        } else if is_wire_name_of(&text, ImportJobStatus::Failed) {
            Ok(ImportJobStatus::Failed)
        } else {
            let mut message = "Unknown import job status: ".to_owned();
            message.append(value);
            Err(message)
        }
    }

    /// Whether a job in this status was being worked on.
    pub fn is_in_flight(&self) -> (r: bool)
        ensures
            r == is_in_flight(*self),
    {
        match self {
            ImportJobStatus::Copying | ImportJobStatus::Preprocessing
            | ImportJobStatus::Ingesting => true,
            _ => false,
        }
    }
}

/// The status that recovery of stale jobs gives a job in `status`.
pub fn recovered_status(status: ImportJobStatus) -> (r: ImportJobStatus)
    ensures
        r == recovered(status),
{
    if status.is_in_flight() {
        ImportJobStatus::Queued
    } else {
        status
    }
}

/// The statuses that recovery requeues, in the order the queue lists them.
pub fn stale_job_statuses() -> (r: Vec<ImportJobStatus>)
    ensures
        r@ == seq![
            ImportJobStatus::Copying,
            ImportJobStatus::Preprocessing,
            ImportJobStatus::Ingesting,
        ],
        forall|s: ImportJobStatus| r@.contains(s) <==> is_in_flight(s),
{
    let r = vec![ImportJobStatus::Copying, ImportJobStatus::Preprocessing, ImportJobStatus::Ingesting];
    assert forall|s: ImportJobStatus| r@.contains(s) <==> is_in_flight(s) by {
        if is_in_flight(s) {
            if s == ImportJobStatus::Copying {
                assert(r@[0] == s);
            } else if s == ImportJobStatus::Preprocessing {
                assert(r@[1] == s);
            } else {
                assert(r@[2] == s);
            }
        }
    }
    r
}

/// Reading back the wire name of a status gives that status, and only the
/// wire name of a status is read as that status.
pub proof fn lemma_wire_round_trip(name: Seq<char>, status: ImportJobStatus)
    ensures
        status_named(wire_name(status)) == Some(status),
        status_named(name) == Some(status) <==> name == wire_name(status),
{
}

/// Distinct statuses have distinct wire names.
pub proof fn lemma_wire_names_distinct(a: ImportJobStatus, b: ImportJobStatus)
    ensures
        wire_name(a) == wire_name(b) ==> a == b,
{
    lemma_wire_round_trip(wire_name(a), a);
    lemma_wire_round_trip(wire_name(b), b);
}

/// Recovery leaves no job in flight, requeues exactly the jobs that were in
/// flight, leaves every other job as it was, and a second recovery changes
/// nothing.
pub proof fn lemma_recovery(status: ImportJobStatus)
    ensures
        !is_in_flight(recovered(status)),
        is_in_flight(status) ==> recovered(status) == ImportJobStatus::Queued,
        !is_in_flight(status) ==> recovered(status) == status,
        recovered(recovered(status)) == recovered(status),
{
}

/// How many jobs of a table have `status`.
pub open spec fn count_status(jobs: Seq<ImportJobStatus>, status: ImportJobStatus) -> nat
    decreases jobs.len(),
{
    if jobs.len() == 0 {
        0
    } else {
        count_status(jobs.drop_last(), status) + if jobs.last() == status {
            1nat
        } else {
            0nat
        }
    }
}

/// The statuses of a table of jobs after recovery of stale jobs.
pub open spec fn recovered_table(jobs: Seq<ImportJobStatus>) -> Seq<ImportJobStatus> {
    jobs.map_values(|status: ImportJobStatus| recovered(status))
}

/// Recovery over a whole table: every job keeps its place and gets its
/// recovered status, no job is left in flight, the queued jobs afterwards
/// are exactly those that were queued or in flight before, and the counts of
/// the other statuses do not change.
pub proof fn lemma_recovery_over_table(jobs: Seq<ImportJobStatus>)
    ensures
        recovered_table(jobs).len() == jobs.len(),
        forall|i: int|
            0 <= i < jobs.len() ==> #[trigger] recovered_table(jobs)[i] == recovered(jobs[i]),
        forall|i: int| 0 <= i < jobs.len() ==> !is_in_flight(#[trigger] recovered_table(jobs)[i]),
        count_status(recovered_table(jobs), ImportJobStatus::Queued) == count_status(
            jobs,
            ImportJobStatus::Queued,
        ) + count_status(jobs, ImportJobStatus::Copying) + count_status(
            jobs,
            ImportJobStatus::Preprocessing,
        ) + count_status(jobs, ImportJobStatus::Ingesting),
        count_status(recovered_table(jobs), ImportJobStatus::Copying) == 0,
        count_status(recovered_table(jobs), ImportJobStatus::Preprocessing) == 0,
        count_status(recovered_table(jobs), ImportJobStatus::Ingesting) == 0,
        count_status(recovered_table(jobs), ImportJobStatus::RetryWait) == count_status(
            jobs,
            ImportJobStatus::RetryWait,
        ),
        count_status(recovered_table(jobs), ImportJobStatus::Completed) == count_status(
            jobs,
            ImportJobStatus::Completed,
        ),
        count_status(recovered_table(jobs), ImportJobStatus::Failed) == count_status(
            jobs,
            ImportJobStatus::Failed,
        ),
    decreases jobs.len(),
{
    if jobs.len() > 0 {
        let rest = jobs.drop_last();
        lemma_recovery_over_table(rest);
        assert(recovered_table(jobs).drop_last() =~= recovered_table(rest));
        assert(recovered_table(jobs).last() == recovered(jobs.last()));
    }
}

} // verus!
