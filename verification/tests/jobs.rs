//! The job tracker: the Pending -> Running -> {Completed, Failed} state
//! machine, monotone progress counters, and the one-shot notification.

use star_tracker::jobs::{notification_payload, JobRegistry, JobState};

#[test]
fn created_job_starts_pending_with_zero_progress() {
    let mut jobs = JobRegistry::new();
    let id = jobs.create_job();
    let job = jobs.get(id).unwrap();
    assert_eq!(job.id, id);
    assert!(matches!(job.status, JobState::Pending));
    assert_eq!(job.progress.current_page, 0);
    assert_eq!(job.progress.total_stars_processed, 0);
    assert_eq!(job.progress.estimated_total_stars, None);
    assert_eq!(job.progress.message, "Job queued");
    assert_eq!(job.created_at, job.updated_at);
    assert_eq!(job.error, None);
    assert!(jobs.get(id.wrapping_add(1)).is_none());
}

#[test]
fn progress_reports_transition_to_running_and_accumulate() {
    let mut jobs = JobRegistry::new();
    let id = jobs.create_job();
    jobs.report_progress(id, 1, 100);
    {
        let job = jobs.get(id).unwrap();
        assert!(matches!(job.status, JobState::Running));
        assert_eq!(job.progress.current_page, 1);
        assert_eq!(job.progress.total_stars_processed, 100);
        assert_eq!(job.progress.message, "Processed page 1, 100 stars total");
    }
    jobs.report_progress(id, 2, 5);
    let job = jobs.get(id).unwrap();
    assert_eq!(job.progress.current_page, 2);
    assert_eq!(job.progress.total_stars_processed, 105);
    assert_eq!(job.progress.message, "Processed page 2, 105 stars total");
}

#[test]
fn progress_counters_never_decrease() {
    let mut jobs = JobRegistry::new();
    let id = jobs.create_job();
    let mut seen_pages: Vec<u32> = Vec::new();
    for page in 1..=4u32 {
        jobs.report_progress(id, page, 10);
        seen_pages.push(jobs.get(id).unwrap().progress.current_page);
    }
    // Strictly increasing page counters, one report per page.
    assert_eq!(seen_pages, vec![1, 2, 3, 4]);
    // A stale report with a lower page number lowers nothing.
    jobs.report_progress(id, 2, 1);
    let job = jobs.get(id).unwrap();
    assert_eq!(job.progress.current_page, 4);
    assert_eq!(job.progress.total_stars_processed, 41);
}

#[test]
fn completing_twice_notifies_once_and_changes_nothing() {
    let mut jobs = JobRegistry::new();
    let id = jobs.create_job();
    jobs.report_progress(id, 1, 3);
    assert!(jobs.complete(id));
    let after_first = jobs.get(id).unwrap().clone();
    assert!(matches!(after_first.status, JobState::Completed));
    assert_eq!(after_first.progress.message, "All stars processed successfully");
    // Terminal idempotence: a second complete or a late fail is a no-op
    // and owes no second notification.
    assert!(!jobs.complete(id));
    assert!(!jobs.fail(id, "late".to_string()));
    let after_second = jobs.get(id).unwrap();
    assert!(matches!(after_second.status, JobState::Completed));
    assert_eq!(after_second.progress.current_page, after_first.progress.current_page);
    assert_eq!(after_second.error, None);
}

#[test]
fn failing_records_the_error_once() {
    let mut jobs = JobRegistry::new();
    let id = jobs.create_job();
    assert!(jobs.fail(id, "UpstreamUnavailable: timed out".to_string()));
    let job = jobs.get(id).unwrap().clone();
    assert!(matches!(job.status, JobState::Failed));
    assert_eq!(job.error, Some("UpstreamUnavailable: timed out".to_string()));
    assert_eq!(job.progress.message, "Processing failed");
    assert!(!jobs.fail(id, "again".to_string()));
    assert_eq!(jobs.get(id).unwrap().error, Some("UpstreamUnavailable: timed out".to_string()));
}

#[test]
fn terminal_calls_on_unknown_jobs_do_nothing() {
    let mut jobs = JobRegistry::new();
    assert!(!jobs.complete(12345));
    assert!(!jobs.fail(12345, "nothing".to_string()));
    jobs.report_progress(12345, 1, 1);
    assert!(jobs.get(12345).is_none());
}

#[test]
fn start_marks_a_pending_job_running() {
    let mut jobs = JobRegistry::new();
    let id = jobs.create_job();
    jobs.start(id);
    let job = jobs.get(id).unwrap();
    assert!(matches!(job.status, JobState::Running));
    assert_eq!(job.progress.message, "Starting to fetch repository data");
    assert_eq!(job.progress.current_page, 0);
}

#[test]
fn notification_payload_reflects_the_snapshot() {
    let mut jobs = JobRegistry::new();
    let id = jobs.create_job();
    jobs.report_progress(id, 2, 105);
    jobs.complete(id);
    let job = jobs.get(id).unwrap();
    let payload = notification_payload(job);
    assert_eq!(payload.job_id, id);
    assert!(matches!(payload.final_state, JobState::Completed));
    assert_eq!(payload.pages_processed, 2);
    assert_eq!(payload.events_processed, 105);
    assert_eq!(payload.error, None);
}
