//! The star store: idempotent upserts on the natural keys, the stored
//! invariant on observation times, and the daily aggregation.

use star_tracker::store::{
    InsertRepositoryError, InsertStarError, NewRepository, NewStar, StarStore, UpsertStarsError,
};

const DAY: i64 = 86400;

fn new_star(repo: u64, login: &str, starred_at: i64) -> NewStar {
    NewStar {
        repository_id: repo,
        stargazer: login.to_string(),
        starred_at,
        fetched_at: starred_at + 100,
    }
}

#[test]
fn repository_insert_is_idempotent_on_owner_and_name() {
    let mut store = StarStore::new();
    let first = store
        .insert_repository(
            &NewRepository { id: 7, owner: "alice".to_string(), name: "one".to_string() },
            1000,
        )
        .unwrap();
    assert_eq!(first.id, 7);
    // Re-inserting the same pair under another candidate id returns the
    // existing record and stores nothing new.
    let second = store
        .insert_repository(
            &NewRepository { id: 9, owner: "alice".to_string(), name: "one".to_string() },
            2000,
        )
        .unwrap();
    assert_eq!(second.id, 7);
    assert_eq!(second.created_at, 1000);
    let found = store.get_repository_by_name("alice", "one").unwrap();
    assert_eq!(found.id, 7);
    assert!(store.get_repository_by_name("alice", "other").is_none());
}

#[test]
fn repository_insert_rejects_a_taken_identifier() {
    let mut store = StarStore::new();
    store
        .insert_repository(
            &NewRepository { id: 7, owner: "alice".to_string(), name: "one".to_string() },
            1000,
        )
        .unwrap();
    let err = store
        .insert_repository(
            &NewRepository { id: 7, owner: "bob".to_string(), name: "two".to_string() },
            2000,
        )
        .unwrap_err();
    assert_eq!(err, InsertRepositoryError::DuplicateId { id: 7 });
}

#[test]
fn star_insert_is_idempotent_on_repository_and_stargazer() {
    let mut store = StarStore::new();
    store.insert_star(&new_star(1, "carol", 5 * DAY)).unwrap();
    store.insert_star(&new_star(1, "carol", 6 * DAY)).unwrap();
    store.insert_star(&new_star(2, "carol", 6 * DAY)).unwrap();
    let counts = store.get_daily_star_count(1);
    // The re-observation changed nothing: one star, on the first day.
    assert_eq!(counts, vec![(5, 1)]);
    assert_eq!(store.get_daily_star_count(2), vec![(6, 1)]);
}

#[test]
fn star_observed_before_it_happened_is_rejected() {
    let mut store = StarStore::new();
    let bad = NewStar {
        repository_id: 1,
        stargazer: "carol".to_string(),
        starred_at: 100,
        fetched_at: 99,
    };
    let err = store.insert_star(&bad).unwrap_err();
    assert_eq!(err, InsertStarError::ObservedBeforeStarred { stargazer: "carol".to_string() });
    assert!(store.get_daily_star_count(1).is_empty());
}

#[test]
fn batch_upsert_is_refused_whole_on_one_bad_fact() {
    let mut store = StarStore::new();
    let batch = vec![
        new_star(1, "carol", 5 * DAY),
        NewStar {
            repository_id: 1,
            stargazer: "dave".to_string(),
            starred_at: 200,
            fetched_at: 100,
        },
    ];
    let err = store.insert_stars_batch(&batch).unwrap_err();
    assert_eq!(
        err,
        UpsertStarsError::InsertStarsBatch {
            source: InsertStarError::ObservedBeforeStarred { stargazer: "dave".to_string() },
        }
    );
    // Atomic refusal: not even the good fact went in.
    assert!(store.get_daily_star_count(1).is_empty());
}

#[test]
fn daily_counts_aggregate_and_sort_by_day() {
    let mut store = StarStore::new();
    // Insert out of day order, with several stars on one day.
    store.insert_star(&new_star(1, "a", 9 * DAY)).unwrap();
    store.insert_star(&new_star(1, "b", 7 * DAY + 50)).unwrap();
    store.insert_star(&new_star(1, "c", 7 * DAY + 80000)).unwrap();
    store.insert_star(&new_star(1, "d", 8 * DAY)).unwrap();
    store.insert_star(&new_star(2, "e", 7 * DAY)).unwrap();
    let counts = store.get_daily_star_count(1);
    assert_eq!(counts, vec![(7, 2), (8, 1), (9, 1)]);
}

#[test]
fn latest_event_date_is_the_newest_day() {
    let mut store = StarStore::new();
    assert_eq!(store.get_latest_event_date(1), None);
    store.insert_star(&new_star(1, "a", 9 * DAY)).unwrap();
    store.insert_star(&new_star(1, "b", 4 * DAY)).unwrap();
    assert_eq!(store.get_latest_event_date(1), Some(9));
    assert_eq!(store.get_latest_event_date(2), None);
}
