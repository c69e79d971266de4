//! Job lifecycle tracking: a registry of sync jobs with the state machine
//! Pending -> Running -> {Completed, Failed}, monotone progress counters,
//! and a completion notification owed exactly once per job.

use vstd::prelude::*;
use vstd::string::StringExecFns;
use std::collections::HashMap;
use crate::host::{fresh_id, now_ts};
use crate::text::dec_str;
use crate::text::u64_to_string;

verus! {

broadcast use vstd::std_specs::hash::group_hash_axioms;

/// The lifecycle state of a sync job.
#[derive(Debug, Clone, Copy, PartialEq, Eq, Structural)]
pub enum JobState {
    Pending,
    Running,
    Completed,
    Failed,
}

/// A terminal state admits no further transition.
pub open spec fn is_terminal(state: JobState) -> bool {
    state == JobState::Completed || state == JobState::Failed
}

/// Progress counters of a job; they only ever grow.
#[derive(Debug, Clone)]
pub struct JobProgress {
    pub current_page: u32,
    pub total_stars_processed: u32,
    pub estimated_total_stars: Option<u32>,
    pub message: String,
}

/// A snapshot of one job.
#[derive(Debug, Clone)]
pub struct JobStatus {
    pub id: u64,
    pub status: JobState,
    pub progress: JobProgress,
    pub created_at: i64,
    pub updated_at: i64,
    pub error: Option<String>,
}

/// What a notification endpoint is told about a terminal job.
#[derive(Debug, Clone)]
pub struct NotificationPayload {
    pub job_id: u64,
    pub final_state: JobState,
    pub pages_processed: u32,
    pub events_processed: u32,
    pub error: Option<String>,
}

/// The page counter after a report: it never decreases, and a report of a
/// later page raises it to that page.
pub open spec fn bumped_page(old_page: u32, page_number: u32) -> u32 {
    if page_number > old_page {
        page_number
    } else {
        old_page
    }
}

/// The event counter after a report: the sum, saturating at the counter's
/// limit so that it still never decreases.
pub open spec fn accumulated_events(total: u32, events: u32) -> u32 {
    if total + events > u32::MAX {
        u32::MAX
    } else {
        (total + events) as u32
    }
}

/// The progress message recorded after a report.
pub open spec fn progress_message(page: u32, total: u32) -> Seq<char> {
    "Processed page "@ + dec_str(page as int) + ", "@ + dec_str(total as int) + " stars total"@
}

/// Law: progress counters are monotonic. A report never lowers the page
/// counter, a report of a later page strictly raises it, and the event
/// counter never decreases.
pub proof fn lemma_progress_monotonic(old_page: u32, page_number: u32, total: u32, events: u32)
    ensures
        bumped_page(old_page, page_number) >= old_page,
        page_number > old_page ==> bumped_page(old_page, page_number) > old_page,
        accumulated_events(total, events) >= total,
{
}

/// The registry of sync jobs, keyed by job identifier. It is the one
/// shared structure of the tracker; a process wraps it in its own
/// mutual-exclusion mechanism.
pub struct JobRegistry {
    jobs: HashMap<u64, JobStatus>,
}

impl JobRegistry {
    /// The jobs currently tracked, as a map from identifier to snapshot.
    pub closed spec fn jobs(&self) -> Map<u64, JobStatus> {
        self.jobs@
    }

    /// An empty registry.
    pub fn new() -> (r: Self)
        ensures
            r.jobs() == Map::<u64, JobStatus>::empty(),
    {
        JobRegistry { jobs: HashMap::new() }
    }

    /// Allocates a job record in `Pending` under a freshly generated
    /// identifier and returns the identifier at once; the sync itself
    /// runs separately.
    pub fn create_job(&mut self) -> (id: u64)
        ensures
            final(self).jobs() == old(self).jobs().insert(id, final(self).jobs()[id]),
            final(self).jobs().contains_key(id),
            ({
                let job = final(self).jobs()[id];
                &&& job.id == id
                &&& job.status == JobState::Pending
                &&& job.progress.current_page == 0
                &&& job.progress.total_stars_processed == 0
                &&& job.progress.estimated_total_stars is None
                &&& job.progress.message@ == "Job queued"@
                &&& job.created_at == job.updated_at
                &&& job.error is None
            }),
    {
        let id = fresh_id();
        let now = now_ts();
        let status = JobStatus {
            id,
            status: JobState::Pending,
            progress: JobProgress {
                current_page: 0,
                total_stars_processed: 0,
                estimated_total_stars: None,
                message: String::from_str("Job queued"),
            },
            created_at: now,
            updated_at: now,
            error: None,
        };
        self.jobs.insert(id, status);
        id
    }

    /// A read-only snapshot of one job, for status polling.
    pub fn get(&self, job_id: u64) -> (r: Option<&JobStatus>)
        ensures
            match r {
                Some(job) => self.jobs().contains_key(job_id) && *job == self.jobs()[job_id],
                None => !self.jobs().contains_key(job_id),
            },
    {
        self.jobs.get(&job_id)
    }

    /// Marks a job `Running` as its sync run begins; changes nothing on
    /// an unknown or already-terminal job.
    pub fn start(&mut self, job_id: u64)
        ensures
            !old(self).jobs().contains_key(job_id) ==> final(self).jobs() == old(self).jobs(),
            old(self).jobs().contains_key(job_id) && is_terminal(old(self).jobs()[job_id].status)
                ==> final(self).jobs() == old(self).jobs(),
            old(self).jobs().contains_key(job_id) && !is_terminal(old(self).jobs()[job_id].status)
                ==> {
                let pre = old(self).jobs()[job_id];
                let post = final(self).jobs()[job_id];
                &&& final(self).jobs() == old(self).jobs().insert(job_id, post)
                &&& post.id == pre.id
                &&& post.status == JobState::Running
                &&& post.progress.current_page == pre.progress.current_page
                &&& post.progress.total_stars_processed == pre.progress.total_stars_processed
                &&& post.progress.estimated_total_stars == pre.progress.estimated_total_stars
                &&& post.progress.message@ == "Starting to fetch repository data"@
                &&& post.created_at == pre.created_at
                &&& post.error == pre.error
            },
    {
        let current = self.jobs.remove(&job_id);
        match current {
            None => {
                proof {
                    assert(old(self).jobs().remove(job_id) =~= old(self).jobs());
                }
            },
            Some(job) => {
                if matches!(job.status, JobState::Completed) || matches!(
                    job.status,
                    JobState::Failed,
                ) {
                    self.jobs.insert(job_id, job);
                    proof {
                        assert(final(self).jobs() =~= old(self).jobs());
                    }
                } else {
                    let updated = JobStatus {
                        id: job.id,
                        status: JobState::Running,
                        progress: JobProgress {
                            current_page: job.progress.current_page,
                            total_stars_processed: job.progress.total_stars_processed,
                            estimated_total_stars: job.progress.estimated_total_stars,
                            message: String::from_str("Starting to fetch repository data"),
                        },
                        created_at: job.created_at,
                        updated_at: now_ts(),
                        error: job.error,
                    };
                    self.jobs.insert(job_id, updated);
                    proof {
                        assert(final(self).jobs() =~= old(self).jobs().insert(
                            job_id,
                            final(self).jobs()[job_id],
                        ));
                    }
                }
            },
        }
    }

    /// Accumulates progress out of one processed page: transitions a
    /// `Pending` job to `Running`, never lowers a counter, and changes
    /// nothing on an unknown or already-terminal job.
    pub fn report_progress(&mut self, job_id: u64, page_number: u32, events_in_page: u32)
        ensures
            !old(self).jobs().contains_key(job_id) ==> final(self).jobs() == old(self).jobs(),
            old(self).jobs().contains_key(job_id) && is_terminal(old(self).jobs()[job_id].status)
                ==> final(self).jobs() == old(self).jobs(),
            old(self).jobs().contains_key(job_id) && !is_terminal(old(self).jobs()[job_id].status)
                ==> {
                let pre = old(self).jobs()[job_id];
                let post = final(self).jobs()[job_id];
                &&& final(self).jobs() == old(self).jobs().insert(job_id, post)
                &&& post.id == pre.id
                &&& post.status == JobState::Running
                &&& post.progress.current_page == bumped_page(
                    pre.progress.current_page,
                    page_number,
                )
                &&& post.progress.total_stars_processed == accumulated_events(
                    pre.progress.total_stars_processed,
                    events_in_page,
                )
                &&& post.progress.estimated_total_stars == pre.progress.estimated_total_stars
                &&& post.progress.message@ == progress_message(
                    page_number,
                    post.progress.total_stars_processed,
                )
                &&& post.created_at == pre.created_at
                &&& post.error == pre.error
            },
    {
        let current = self.jobs.remove(&job_id);
        match current {
            None => {
                proof {
                    assert(old(self).jobs().remove(job_id) =~= old(self).jobs());
                }
            },
            Some(job) => {
                if matches!(job.status, JobState::Completed) || matches!(
                    job.status,
                    JobState::Failed,
                ) {
                    let ghost pre = job;
                    self.jobs.insert(job_id, job);
                    proof {
                        assert(final(self).jobs() =~= old(self).jobs());
                    }
                } else {
                    let current_page = if page_number > job.progress.current_page {
                        page_number
                    } else {
                        job.progress.current_page
                    };
                    let total = if job.progress.total_stars_processed > u32::MAX - events_in_page {
                        u32::MAX
                    } else {
                        job.progress.total_stars_processed + events_in_page
                    };
                    let mut message = String::from_str("Processed page ");
                    message.append(u64_to_string(page_number as u64).as_str());
                    message.append(", ");
                    message.append(u64_to_string(total as u64).as_str());
                    message.append(" stars total");
                    proof {
                        assert(message@ =~= progress_message(page_number, total));
                    }
                    let updated = JobStatus {
                        id: job.id,
                        status: JobState::Running,
                        progress: JobProgress {
                            current_page,
                            total_stars_processed: total,
                            estimated_total_stars: job.progress.estimated_total_stars,
                            message,
                        },
                        created_at: job.created_at,
                        updated_at: now_ts(),
                        error: job.error,
                    };
                    self.jobs.insert(job_id, updated);
                    proof {
                        assert(final(self).jobs() =~= old(self).jobs().insert(
                            job_id,
                            final(self).jobs()[job_id],
                        ));
                    }
                }
            },
        }
    }

    /// Marks a job `Completed`. The transition happens, and notification
    /// is owed, exactly when the job exists and is not yet terminal:
    /// completing an already-terminal job changes nothing and owes no
    /// second notification.
    pub fn complete(&mut self, job_id: u64) -> (notify: bool)
        ensures
            notify == (old(self).jobs().contains_key(job_id) && !is_terminal(
                old(self).jobs()[job_id].status,
            )),
            !notify ==> final(self).jobs() == old(self).jobs(),
            notify ==> {
                let pre = old(self).jobs()[job_id];
                let post = final(self).jobs()[job_id];
                &&& final(self).jobs() == old(self).jobs().insert(job_id, post)
                &&& post.id == pre.id
                &&& post.status == JobState::Completed
                &&& post.progress.current_page == pre.progress.current_page
                &&& post.progress.total_stars_processed == pre.progress.total_stars_processed
                &&& post.progress.estimated_total_stars == pre.progress.estimated_total_stars
                &&& post.progress.message@ == "All stars processed successfully"@
                &&& post.created_at == pre.created_at
                &&& post.error == pre.error
            },
    {
        let current = self.jobs.remove(&job_id);
        match current {
            None => {
                proof {
                    assert(old(self).jobs().remove(job_id) =~= old(self).jobs());
                }
                false
            },
            Some(job) => {
                if matches!(job.status, JobState::Completed) || matches!(
                    job.status,
                    JobState::Failed,
                ) {
                    self.jobs.insert(job_id, job);
                    proof {
                        assert(final(self).jobs() =~= old(self).jobs());
                    }
                    false
                } else {
                    let updated = JobStatus {
                        id: job.id,
                        status: JobState::Completed,
                        progress: JobProgress {
                            current_page: job.progress.current_page,
                            total_stars_processed: job.progress.total_stars_processed,
                            estimated_total_stars: job.progress.estimated_total_stars,
                            message: String::from_str("All stars processed successfully"),
                        },
                        created_at: job.created_at,
                        updated_at: now_ts(),
                        error: job.error,
                    };
                    self.jobs.insert(job_id, updated);
                    proof {
                        assert(final(self).jobs() =~= old(self).jobs().insert(
                            job_id,
                            final(self).jobs()[job_id],
                        ));
                    }
                    true
                }
            },
        }
    }

    /// Marks a job `Failed` and records the error's description. The
    /// transition happens, and notification is owed, exactly when the job
    /// exists and is not yet terminal: failing an already-terminal job
    /// changes nothing and owes no second notification.
    pub fn fail(&mut self, job_id: u64, error: String) -> (notify: bool)
        ensures
            notify == (old(self).jobs().contains_key(job_id) && !is_terminal(
                old(self).jobs()[job_id].status,
            )),
            !notify ==> final(self).jobs() == old(self).jobs(),
            notify ==> {
                let pre = old(self).jobs()[job_id];
                let post = final(self).jobs()[job_id];
                &&& final(self).jobs() == old(self).jobs().insert(job_id, post)
                &&& post.id == pre.id
                &&& post.status == JobState::Failed
                &&& post.progress.current_page == pre.progress.current_page
                &&& post.progress.total_stars_processed == pre.progress.total_stars_processed
                &&& post.progress.estimated_total_stars == pre.progress.estimated_total_stars
                &&& post.progress.message@ == "Processing failed"@
                &&& post.created_at == pre.created_at
                &&& post.error == Some(error)
            },
    {
        let current = self.jobs.remove(&job_id);
        match current {
            None => {
                proof {
                    assert(old(self).jobs().remove(job_id) =~= old(self).jobs());
                }
                false
            },
            Some(job) => {
                if matches!(job.status, JobState::Completed) || matches!(
                    job.status,
                    JobState::Failed,
                ) {
                    self.jobs.insert(job_id, job);
                    proof {
                        assert(final(self).jobs() =~= old(self).jobs());
                    }
                    false
                } else {
                    let updated = JobStatus {
                        id: job.id,
                        status: JobState::Failed,
                        progress: JobProgress {
                            current_page: job.progress.current_page,
                            total_stars_processed: job.progress.total_stars_processed,
                            estimated_total_stars: job.progress.estimated_total_stars,
                            message: String::from_str("Processing failed"),
                        },
                        created_at: job.created_at,
                        updated_at: now_ts(),
                        error: Some(error),
                    };
                    self.jobs.insert(job_id, updated);
                    proof {
                        assert(final(self).jobs() =~= old(self).jobs().insert(
                            job_id,
                            final(self).jobs()[job_id],
                        ));
                    }
                    true
                }
            },
        }
    }
}

/// The notification payload describing a terminal job snapshot.
pub fn notification_payload(job: &JobStatus) -> (r: NotificationPayload)
    ensures
        r.job_id == job.id,
        r.final_state == job.status,
        r.pages_processed == job.progress.current_page,
        r.events_processed == job.progress.total_stars_processed,
        r.error == job.error,
{
    let error = match &job.error {
        Some(e) => Some(e.clone()),
        None => None,
    };
    NotificationPayload {
        job_id: job.id,
        final_state: job.status,
        pages_processed: job.progress.current_page,
        events_processed: job.progress.total_stars_processed,
        error,
    }
}

} // verus!
