//! The sync engine run against fixed upstream pages: idempotent
//! ingestion, partial-failure behavior, and the end-to-end scenario.

use star_tracker::jobs::{JobRegistry, JobState};
use star_tracker::page::{FetchOutcome, Page, PageInfo, StargazerEdge, StargazerUser};
use star_tracker::store::{InsertRepositoryError, InsertStarError, StarStore, UpsertStarsError};
use star_tracker::sync::{finish_job, run_sync, ProcessRepoStarsError, RepoQuery};

const DAY: i64 = 86400;

fn edge(login: &str, starred_at: i64) -> StargazerEdge {
    StargazerEdge {
        starred_at,
        node: StargazerUser { login: login.to_string(), email: None },
    }
}

fn fetched(stars: Vec<StargazerEdge>, has_next_page: bool, cursor: Option<&str>) -> FetchOutcome {
    FetchOutcome::Fetched(Page {
        stars,
        page_info: PageInfo {
            has_next_page,
            end_cursor: cursor.map(|c| c.to_string()),
        },
    })
}

fn query() -> RepoQuery {
    RepoQuery { owner: "alice".to_string(), name: "one".to_string(), webhook_url: None }
}

/// The two fixed upstream pages of the end-to-end scenario: 100 events
/// across three days, then 5 events one day later.
fn two_pages() -> Vec<FetchOutcome> {
    let mut first: Vec<StargazerEdge> = Vec::new();
    for i in 0..100u32 {
        let day = (i % 3) as i64;
        first.push(edge(&format!("user{}", i), day * DAY + i as i64));
    }
    let mut second: Vec<StargazerEdge> = Vec::new();
    for i in 0..5u32 {
        second.push(edge(&format!("late{}", i), 3 * DAY + i as i64));
    }
    vec![fetched(first, true, Some("cursor-1")), fetched(second, false, None)]
}

#[test]
fn end_to_end_two_pages() {
    let mut store = StarStore::new();
    let mut jobs = JobRegistry::new();
    let job_id = jobs.create_job();
    let outcomes = two_pages();
    let summary = run_sync(&mut store, &mut jobs, job_id, &query(), &outcomes).unwrap();
    assert_eq!(summary.pages_processed, 2);
    assert_eq!(summary.events_processed, 105);
    let counts = store.get_daily_star_count(summary.repository_id);
    // Exactly 4 distinct dates, summing to 105.
    assert_eq!(counts.len(), 4);
    assert_eq!(counts.iter().map(|(_, c)| *c).sum::<i64>(), 105);
    assert_eq!(counts, vec![(0, 34), (1, 33), (2, 33), (3, 5)]);
    assert_eq!(store.get_latest_event_date(summary.repository_id), Some(3));
    // The job ends Completed with the scenario's totals.
    assert!(finish_job(&mut jobs, job_id, &Ok(summary)));
    let job = jobs.get(job_id).unwrap();
    assert!(matches!(job.status, JobState::Completed));
    assert_eq!(job.progress.current_page, 2);
    assert_eq!(job.progress.total_stars_processed, 105);
}

#[test]
fn ingestion_is_idempotent_across_runs() {
    let mut store = StarStore::new();
    let mut jobs = JobRegistry::new();
    let outcomes = two_pages();
    let q = query();

    let first_job = jobs.create_job();
    let first = run_sync(&mut store, &mut jobs, first_job, &q, &outcomes).unwrap();
    let counts_after_first = store.get_daily_star_count(first.repository_id);

    let second_job = jobs.create_job();
    let second = run_sync(&mut store, &mut jobs, second_job, &q, &outcomes).unwrap();
    // The same repository record is reused and the daily counts are
    // exactly those of the first run: no duplicate counting.
    assert_eq!(second.repository_id, first.repository_id);
    let counts_after_second = store.get_daily_star_count(first.repository_id);
    assert_eq!(counts_after_second, counts_after_first);
    assert_eq!(second.events_processed, 105);
}

#[test]
fn missing_repository_fails_the_run_distinctly() {
    let mut store = StarStore::new();
    let mut jobs = JobRegistry::new();
    let job_id = jobs.create_job();
    let outcomes = vec![FetchOutcome::RepositoryMissing];
    let err = run_sync(&mut store, &mut jobs, job_id, &query(), &outcomes).unwrap_err();
    assert_eq!(
        err,
        ProcessRepoStarsError::RepositoryNotFound {
            owner: "alice".to_string(),
            name: "one".to_string(),
        }
    );
    assert!(store.get_repository_by_name("alice", "one").is_none());
    assert!(finish_job(&mut jobs, job_id, &Err(err)));
    let job = jobs.get(job_id).unwrap();
    assert!(matches!(job.status, JobState::Failed));
    assert_eq!(job.error, Some("RepositoryNotFound: alice/one".to_string()));
}

#[test]
fn a_failed_page_keeps_earlier_pages_committed() {
    let mut store = StarStore::new();
    let mut jobs = JobRegistry::new();
    let job_id = jobs.create_job();
    let outcomes = vec![
        fetched(vec![edge("carol", 2 * DAY), edge("dave", 2 * DAY + 5)], true, Some("c1")),
        FetchOutcome::Unavailable { message: "connect timed out".to_string() },
    ];
    let err = run_sync(&mut store, &mut jobs, job_id, &query(), &outcomes).unwrap_err();
    assert_eq!(
        err,
        ProcessRepoStarsError::UpstreamUnavailable { message: "connect timed out".to_string() }
    );
    // Partial ingestion is visible, not rolled back.
    let repo = store.get_repository_by_name("alice", "one").unwrap();
    assert_eq!(store.get_daily_star_count(repo.id), vec![(2, 2)]);
    let job_page = jobs.get(job_id).unwrap().progress.current_page;
    assert_eq!(job_page, 1);
    assert!(finish_job(&mut jobs, job_id, &Err(err)));
    assert_eq!(
        jobs.get(job_id).unwrap().error,
        Some("UpstreamUnavailable: connect timed out".to_string())
    );
}

#[test]
fn rejected_and_malformed_answers_surface_their_diagnostics() {
    let mut store = StarStore::new();
    let mut jobs = JobRegistry::new();

    let job_a = jobs.create_job();
    let rejected = vec![FetchOutcome::Rejected { status: 502, body: "bad gateway".to_string() }];
    let err_a = run_sync(&mut store, &mut jobs, job_a, &query(), &rejected).unwrap_err();
    assert_eq!(
        err_a,
        ProcessRepoStarsError::UpstreamRejected { status: 502, body: "bad gateway".to_string() }
    );
    assert_eq!(err_a.message(), "UpstreamRejected: status 502, bad gateway");

    let job_b = jobs.create_job();
    let malformed = vec![FetchOutcome::Malformed { message: "missing field data".to_string() }];
    let err_b = run_sync(&mut store, &mut jobs, job_b, &query(), &malformed).unwrap_err();
    assert_eq!(
        err_b,
        ProcessRepoStarsError::MalformedResponse { message: "missing field data".to_string() }
    );
    assert_eq!(err_b.message(), "MalformedResponse: missing field data");
}

#[test]
fn persistence_failures_render_their_diagnostics() {
    let repo_err = ProcessRepoStarsError::InsertRepository {
        source: InsertRepositoryError::DuplicateId { id: 7 },
    };
    assert_eq!(repo_err.message(), "InsertRepository: duplicate repository id 7");
    let stars_err = ProcessRepoStarsError::UpsertStars {
        source: UpsertStarsError::InsertStarsBatch {
            source: InsertStarError::ObservedBeforeStarred { stargazer: "carol".to_string() },
        },
    };
    assert_eq!(stars_err.message(), "UpsertStars: observed before starred: carol");
}
