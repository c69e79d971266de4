//! The sync engine: drives the upstream page by page, persisting each page
//! before the next and reporting progress after each, aborting on the
//! first failure while keeping what earlier pages committed.

use vstd::prelude::*;
use vstd::string::StringExecFns;
use crate::host::{fresh_id, now_ts};
use crate::jobs::{accumulated_events, bumped_page, is_terminal, JobRegistry, JobState};
use crate::page::{FetchOutcome, StargazerEdge};
use crate::store::{
    apply_batch,
    has_star,
    repo_id_taken,
    repo_key_taken,
    InsertRepositoryError,
    NewRepository,
    NewStar,
    Repository,
    Star,
    StarStore,
    UpsertStarsError,
};
use crate::text::{dec_str, u64_to_string};

verus! {

/// A request to sync one repository, with an optional endpoint to notify
/// when the job ends.
#[derive(Debug, Clone)]
pub struct RepoQuery {
    pub owner: String,
    pub name: String,
    pub webhook_url: Option<String>,
}

/// Why a sync run ended early, tagged by the stage that failed.
#[derive(Debug, Clone, PartialEq)]
pub enum ProcessRepoStarsError {
    /// The upstream could not be reached; transient, never auto-retried.
    UpstreamUnavailable { message: String },
    /// The upstream answered with an error status, kept for diagnostics.
    UpstreamRejected { status: u16, body: String },
    /// A page could not be decoded; fatal for the run.
    MalformedResponse { message: String },
    /// The upstream knows no such repository.
    RepositoryNotFound { owner: String, name: String },
    /// The repository record could not be persisted.
    InsertRepository { source: InsertRepositoryError },
    /// A page's events could not be persisted.
    UpsertStars { source: UpsertStarsError },
}

/// The human-readable description of a sync failure.
pub open spec fn spec_sync_error_message(e: ProcessRepoStarsError) -> Seq<char> {
    match e {
        ProcessRepoStarsError::UpstreamUnavailable { message } => "UpstreamUnavailable: "@
            + message@,
        ProcessRepoStarsError::UpstreamRejected { status, body } => "UpstreamRejected: status "@
            + dec_str(status as int) + ", "@ + body@,
        ProcessRepoStarsError::MalformedResponse { message } => "MalformedResponse: "@ + message@,
        ProcessRepoStarsError::RepositoryNotFound { owner, name } => "RepositoryNotFound: "@
            + owner@ + "/"@ + name@,
        ProcessRepoStarsError::InsertRepository { source } => match source {
            InsertRepositoryError::DuplicateId { id } => {
                "InsertRepository: duplicate repository id "@ + dec_str(id as int)
            },
        },
        ProcessRepoStarsError::UpsertStars { source } => match source {
            UpsertStarsError::InsertStarsBatch { source: inner } => {
                "UpsertStars: observed before starred: "@ + inner->ObservedBeforeStarred_stargazer@
            },
        },
    }
}

impl ProcessRepoStarsError {
    /// Renders the failure for the job record and for diagnostics.
    pub fn message(&self) -> (r: String)
        ensures
            r@ == spec_sync_error_message(*self),
    {
        match self {
            ProcessRepoStarsError::UpstreamUnavailable { message } => {
                let mut s = String::from_str("UpstreamUnavailable: ");
                s.append(message.as_str());
                s
            },
            ProcessRepoStarsError::UpstreamRejected { status, body } => {
                let mut s = String::from_str("UpstreamRejected: status ");
                s.append(u64_to_string(*status as u64).as_str());
                s.append(", ");
                s.append(body.as_str());
                proof {
                    assert(s@ =~= spec_sync_error_message(*self));
                }
                s
            },
            ProcessRepoStarsError::MalformedResponse { message } => {
                let mut s = String::from_str("MalformedResponse: ");
                s.append(message.as_str());
                s
            },
            ProcessRepoStarsError::RepositoryNotFound { owner, name } => {
                let mut s = String::from_str("RepositoryNotFound: ");
                s.append(owner.as_str());
                s.append("/");
                s.append(name.as_str());
                proof {
                    assert(s@ =~= spec_sync_error_message(*self));
                }
                s
            },
            ProcessRepoStarsError::InsertRepository { source } => {
                match source {
                    InsertRepositoryError::DuplicateId { id } => {
                        let mut s = String::from_str("InsertRepository: duplicate repository id ");
                        s.append(u64_to_string(*id).as_str());
                        s
                    },
                }
            },
            ProcessRepoStarsError::UpsertStars { source } => {
                match source {
                    UpsertStarsError::InsertStarsBatch { source: inner } => {
                        match inner {
                            crate::store::InsertStarError::ObservedBeforeStarred { stargazer } => {
                                let mut s = String::from_str(
                                    "UpsertStars: observed before starred: ",
                                );
                                s.append(stargazer.as_str());
                                s
                            },
                        }
                    },
                }
            },
        }
    }
}

/// The sync error a failed fetch outcome surfaces; meaningful only for
/// outcomes that carry no page.
pub open spec fn fetch_error_of(o: FetchOutcome, owner: String, name: String) -> ProcessRepoStarsError {
    match o {
        FetchOutcome::Fetched(_) => ProcessRepoStarsError::RepositoryNotFound { owner, name },
        FetchOutcome::RepositoryMissing => ProcessRepoStarsError::RepositoryNotFound {
            owner,
            name,
        },
        FetchOutcome::Unavailable { message } => ProcessRepoStarsError::UpstreamUnavailable {
            message,
        },
        FetchOutcome::Rejected { status, body } => ProcessRepoStarsError::UpstreamRejected {
            status,
            body,
        },
        FetchOutcome::Malformed { message } => ProcessRepoStarsError::MalformedResponse { message },
    }
}

/// The batch of star facts one page contributes for a repository, all
/// observed at `ts`.
pub open spec fn batch_of(repo: u64, edges: Seq<StargazerEdge>, ts: i64) -> Seq<NewStar> {
    Seq::new(
        edges.len(),
        |i: int|
            NewStar {
                repository_id: repo,
                stargazer: edges[i].node.login,
                starred_at: edges[i].starred_at,
                fetched_at: ts,
            },
    )
}

/// What one run's position between pages looks like: the repository
/// record once resolved, and the counters reported so far.
pub struct SyncState {
    pub repo_id: Option<u64>,
    pub pages_processed: u32,
    pub events_processed: u32,
}

impl SyncState {
    /// The state before the first page.
    pub fn new() -> (s: Self)
        ensures
            s.repo_id is None,
            s.pages_processed == 0,
            s.events_processed == 0,
    {
        SyncState { repo_id: None, pages_processed: 0, events_processed: 0 }
    }
}

/// What the engine does after one step: fetch the next page at this
/// cursor, or stop because the last page is in.
#[derive(Debug, Clone)]
pub enum SyncStep {
    Continue { next_cursor: Option<String> },
    Done,
}

/// One step of the sync run: takes the outcome of one page fetch and
/// decides everything that follows from it. A fetched page resolves the
/// repository record (on the first page), persists the page's events as
/// one idempotent batch observed no earlier than they happened, and
/// reports progress; any failed fetch aborts the run with the matching
/// error and changes nothing, and what earlier steps persisted stays.
pub fn sync_step(
    st: &mut SyncState,
    outcome: &FetchOutcome,
    store: &mut StarStore,
    jobs: &mut JobRegistry,
    job_id: u64,
    q: &RepoQuery,
) -> (r: Result<SyncStep, ProcessRepoStarsError>)
    requires
        old(store).wf(),
        old(st).pages_processed < u32::MAX,
        old(jobs).jobs().contains_key(job_id),
        !is_terminal(old(jobs).jobs()[job_id].status),
        outcome matches FetchOutcome::Fetched(p) ==> {
            &&& old(store).stars@.len() + p.stars@.len() <= i64::MAX
            &&& p.stars@.len() <= u32::MAX
        },
    ensures
        final(store).wf(),
        !(outcome matches FetchOutcome::Fetched(_)) ==> {
            &&& r == Err::<SyncStep, ProcessRepoStarsError>(
                fetch_error_of(*outcome, q.owner, q.name),
            )
            &&& *final(st) == *old(st)
            &&& *final(store) == *old(store)
            &&& final(jobs).jobs() == old(jobs).jobs()
        },
        (outcome matches FetchOutcome::Fetched(_)) && r is Err ==> {
            &&& (r matches Err(e) ==> (e matches ProcessRepoStarsError::InsertRepository {
                source: InsertRepositoryError::DuplicateId { id },
            } && repo_id_taken(old(store).repositories@, id)))
            &&& old(st).repo_id is None
            &&& !repo_key_taken(old(store).repositories@, q.owner@, q.name@)
            &&& *final(st) == *old(st)
            &&& final(store).repositories@ == old(store).repositories@
            &&& final(store).stars@ == old(store).stars@
            &&& final(jobs).jobs() == old(jobs).jobs()
        },
        (outcome matches FetchOutcome::Fetched(_)) && (old(st).repo_id is Some || repo_key_taken(
            old(store).repositories@,
            q.owner@,
            q.name@,
        )) ==> r is Ok,
        r is Ok ==> (outcome matches FetchOutcome::Fetched(page) && {
            &&& final(st).repo_id matches Some(rid)
            &&& (old(st).repo_id matches Some(prev_rid) ==> rid == prev_rid
                && final(store).repositories@ == old(store).repositories@)
            &&& (old(st).repo_id is None ==> {
                &&& exists|i: int|
                    0 <= i < final(store).repositories@.len() && (
                    #[trigger] final(store).repositories@[i]).id == rid
                        && final(store).repositories@[i].owner@ == q.owner@
                        && final(store).repositories@[i].name@ == q.name@
                &&& (repo_key_taken(old(store).repositories@, q.owner@, q.name@) ==> (final(
                    store
                ).repositories@ == old(store).repositories@ && repo_id_taken(
                    old(store).repositories@,
                    rid,
                )))
                &&& (!repo_key_taken(old(store).repositories@, q.owner@, q.name@) ==> (
                !repo_id_taken(old(store).repositories@, rid) && exists|t: i64|
                    final(store).repositories@ == old(store).repositories@.push(
                        (Repository { id: rid, owner: q.owner, name: q.name, created_at: t }),
                    )))
            })
            &&& exists|ts: i64|
                {
                    &&& final(store).stars@ == apply_batch(
                        old(store).stars@,
                        batch_of(rid, page.stars@, ts),
                    )
                    &&& forall|i: int|
                        0 <= i < page.stars@.len() ==> (#[trigger] page.stars@[i]).starred_at <= ts
                }
            &&& final(st).pages_processed == old(st).pages_processed + 1
            &&& final(st).events_processed == accumulated_events(
                old(st).events_processed,
                page.stars@.len() as u32,
            )
            &&& ({
                let pre = old(jobs).jobs()[job_id];
                let post = final(jobs).jobs()[job_id];
                &&& final(jobs).jobs() == old(jobs).jobs().insert(job_id, post)
                &&& post.id == pre.id
                &&& post.status == JobState::Running
                &&& post.progress.current_page == bumped_page(
                    pre.progress.current_page,
                    final(st).pages_processed,
                )
                &&& post.progress.total_stars_processed == accumulated_events(
                    pre.progress.total_stars_processed,
                    page.stars@.len() as u32,
                )
                &&& post.progress.estimated_total_stars == pre.progress.estimated_total_stars
                &&& post.created_at == pre.created_at
                &&& post.error == pre.error
            })
            &&& (page.page_info.has_next_page ==> (r matches Ok(SyncStep::Continue { next_cursor })
                && next_cursor == page.page_info.end_cursor))
            &&& (!page.page_info.has_next_page ==> r == Ok::<SyncStep, ProcessRepoStarsError>(
                SyncStep::Done,
            ))
        }),
{
    let page = match outcome {
        FetchOutcome::Fetched(page) => page,
        FetchOutcome::RepositoryMissing => {
            return Err(
                ProcessRepoStarsError::RepositoryNotFound {
                    owner: q.owner.clone(),
                    name: q.name.clone(),
                },
            );
        },
        FetchOutcome::Unavailable { message } => {
            return Err(ProcessRepoStarsError::UpstreamUnavailable { message: message.clone() });
        },
        FetchOutcome::Rejected { status, body } => {
            return Err(
                ProcessRepoStarsError::UpstreamRejected { status: *status, body: body.clone() },
            );
        },
        FetchOutcome::Malformed { message } => {
            return Err(ProcessRepoStarsError::MalformedResponse { message: message.clone() });
        },
    };
    // The first successful page is the proof the repository exists:
    // resolve or create its record before persisting anything.
    let rid: u64 = match st.repo_id {
        Some(id) => id,
        None => {
            let new_repo = NewRepository {
                id: fresh_id(),
                owner: q.owner.clone(),
                name: q.name.clone(),
            };
            let created_at = now_ts();
            match store.insert_repository(&new_repo, created_at) {
                Ok(repo) => {
                    proof {
                        if repo_key_taken(old(store).repositories@, q.owner@, q.name@) {
                            let i = choose|i: int|
                                0 <= i < old(store).repositories@.len() && (
                                #[trigger] old(store).repositories@[i]).id == repo.id && old(
                                    store,
                                ).repositories@[i].owner@ == q.owner@
                                    && old(store).repositories@[i].name@ == q.name@
                                    && old(store).repositories@[i].created_at == repo.created_at;
                            assert(store.repositories@[i].id == repo.id
                                && store.repositories@[i].owner@ == q.owner@
                                && store.repositories@[i].name@ == q.name@);
                        } else {
                            assert(store.repositories@ == old(store).repositories@.push(
                                (Repository {
                                    id: repo.id,
                                    owner: q.owner,
                                    name: q.name,
                                    created_at: created_at,
                                }),
                            ));
                            let i = store.repositories@.len() - 1;
                            assert(store.repositories@[i].id == repo.id
                                && store.repositories@[i].owner@ == q.owner@
                                && store.repositories@[i].name@ == q.name@);
                        }
                    }
                    repo.id
                },
                Err(source) => {
                    return Err(ProcessRepoStarsError::InsertRepository { source });
                },
            }
        },
    };
    st.repo_id = Some(rid);
    // Observe the batch no earlier than any of its events, so that the
    // store's starred-at <= fetched-at invariant holds of every fact.
    let now = now_ts();
    let mut fetched_at: i64 = now;
    let mut i: usize = 0;
    while i < page.stars.len()
        invariant
            i <= page.stars@.len(),
            forall|k: int| 0 <= k < i ==> (#[trigger] page.stars@[k]).starred_at <= fetched_at,
        decreases page.stars@.len() - i,
    {
        if page.stars[i].starred_at > fetched_at {
            fetched_at = page.stars[i].starred_at;
        }
        i += 1;
    }
    let mut batch: Vec<NewStar> = Vec::new();
    let mut j: usize = 0;
    while j < page.stars.len()
        invariant
            j <= page.stars@.len(),
            batch@ == batch_of(rid, page.stars@.take(j as int), fetched_at),
        decreases page.stars@.len() - j,
    {
        batch.push(
            NewStar {
                repository_id: rid,
                stargazer: page.stars[j].node.login.clone(),
                starred_at: page.stars[j].starred_at,
                fetched_at,
            },
        );
        proof {
            assert(batch@ =~= batch_of(rid, page.stars@.take(j + 1), fetched_at));
        }
        j += 1;
    }
    proof {
        assert(page.stars@.take(j as int) =~= page.stars@);
    }
    let upsert_result = store.insert_stars_batch(&batch);
    proof {
        assert(upsert_result is Ok);
    }
    st.pages_processed = st.pages_processed + 1;
    let events_in_page = page.stars.len() as u32;
    st.events_processed = if st.events_processed > u32::MAX - events_in_page {
        u32::MAX
    } else {
        st.events_processed + events_in_page
    };
    jobs.report_progress(job_id, st.pages_processed, events_in_page);
    proof {
        assert(store.stars@ == apply_batch(
            old(store).stars@,
            batch_of(rid, page.stars@, fetched_at),
        ));
        assert forall|k: int| 0 <= k < page.stars@.len() implies (
        #[trigger] page.stars@[k]).starred_at <= fetched_at by {}
    }
    if page.page_info.has_next_page {
        let next_cursor = match &page.page_info.end_cursor {
            Some(cursor) => Some(cursor.clone()),
            None => None,
        };
        Ok(SyncStep::Continue { next_cursor })
    } else {
        Ok(SyncStep::Done)
    }
}

/// Whether a sync failure is the refusal of the fresh repository record.
pub open spec fn is_repo_insert_error(e: ProcessRepoStarsError) -> bool {
    match e {
        ProcessRepoStarsError::InsertRepository { .. } => true,
        _ => false,
    }
}

/// How many pages a finished run ingested: every page up to and including
/// the first terminal outcome on success, every page before the failing
/// fetch otherwise, and none when the fresh repository record was refused.
pub open spec fn run_pages(
    outs: Seq<FetchOutcome>,
    r: Result<SyncSummary, ProcessRepoStarsError>,
) -> int {
    match r {
        Ok(_) => first_terminal(outs) + 1,
        Err(e) => if is_repo_insert_error(e) {
            0int
        } else {
            first_terminal(outs)
        },
    }
}

/// An outcome at which a run stops: any failed fetch, or the page that
/// says no page follows it.
pub open spec fn outcome_terminal(o: FetchOutcome) -> bool {
    match o {
        FetchOutcome::Fetched(p) => !p.page_info.has_next_page,
        _ => true,
    }
}

/// The events a fetch outcome carries (none unless a page came back).
pub open spec fn edges_of(o: FetchOutcome) -> Seq<StargazerEdge> {
    match o {
        FetchOutcome::Fetched(p) => p.stars@,
        _ => Seq::empty(),
    }
}

/// Some outcome of the sequence ends the run: what any upstream answers
/// eventually looks like.
pub open spec fn has_terminal(outs: Seq<FetchOutcome>) -> bool {
    exists|k: int| 0 <= k < outs.len() && outcome_terminal(#[trigger] outs[k])
}

/// The position of the first run-ending outcome.
pub open spec fn first_terminal(outs: Seq<FetchOutcome>) -> int
    decreases outs.len(),
{
    if outs.len() == 0 {
        0
    } else if outcome_terminal(outs[0]) {
        0
    } else {
        1 + first_terminal(outs.drop_first())
    }
}

proof fn lemma_first_terminal(outs: Seq<FetchOutcome>)
    requires
        has_terminal(outs),
    ensures
        0 <= first_terminal(outs) < outs.len(),
        outcome_terminal(outs[first_terminal(outs)]),
        forall|j: int| 0 <= j < first_terminal(outs) ==> !outcome_terminal(#[trigger] outs[j]),
    decreases outs.len(),
{
    if !outcome_terminal(outs[0]) {
        let rest = outs.drop_first();
        let k = choose|k: int| 0 <= k < outs.len() && outcome_terminal(#[trigger] outs[k]);
        assert(rest[k - 1] == outs[k]);
        lemma_first_terminal(rest);
        assert forall|j: int| 0 <= j < first_terminal(outs) implies !outcome_terminal(
            #[trigger] outs[j],
        ) by {
            if j > 0 {
                assert(rest[j - 1] == outs[j]);
            }
        }
        assert(outs[first_terminal(outs)] == rest[first_terminal(rest)]);
    }
}

/// The pages carried by the first `k` outcomes.
pub open spec fn pages_prefix(outs: Seq<FetchOutcome>, k: int) -> Seq<Seq<StargazerEdge>> {
    Seq::new(k as nat, |i: int| edges_of(outs[i]))
}

/// The number of events the pages carry in total.
pub open spec fn events_total(pages: Seq<Seq<StargazerEdge>>) -> int
    decreases pages.len(),
{
    if pages.len() == 0 {
        0
    } else {
        events_total(pages.drop_last()) + pages.last().len()
    }
}

/// An event total clipped to the progress counter's range.
pub open spec fn clipped_events(total: int) -> int {
    if total > u32::MAX {
        u32::MAX as int
    } else {
        total
    }
}

proof fn lemma_events_prefix(outs: Seq<FetchOutcome>, k1: int, k2: int)
    requires
        0 <= k1 <= k2 <= outs.len(),
    ensures
        0 <= events_total(pages_prefix(outs, k1)) <= events_total(pages_prefix(outs, k2)),
    decreases k2 - k1,
{
    lemma_events_nonneg(pages_prefix(outs, k1));
    if k1 < k2 {
        lemma_events_prefix(outs, k1 + 1, k2);
        assert(pages_prefix(outs, k1 + 1).drop_last() =~= pages_prefix(outs, k1));
    }
}

proof fn lemma_events_nonneg(pages: Seq<Seq<StargazerEdge>>)
    ensures
        events_total(pages) >= 0,
    decreases pages.len(),
{
    if pages.len() > 0 {
        lemma_events_nonneg(pages.drop_last());
    }
}

/// The stored star facts after ingesting a sequence of pages for one
/// repository, page by page, each observed at its own time.
pub open spec fn apply_pages(
    stars: Seq<Star>,
    repo: u64,
    pages: Seq<Seq<StargazerEdge>>,
    tss: Seq<i64>,
) -> Seq<Star>
    decreases pages.len(),
{
    if pages.len() == 0 {
        stars
    } else {
        apply_batch(
            apply_pages(stars, repo, pages.drop_last(), tss.drop_last()),
            batch_of(repo, pages.last(), tss.last()),
        )
    }
}

proof fn lemma_apply_pages_len(stars: Seq<Star>, repo: u64, pages: Seq<Seq<StargazerEdge>>, tss: Seq<i64>)
    ensures
        stars.len() <= apply_pages(stars, repo, pages, tss).len() <= stars.len() + events_total(
            pages,
        ),
    decreases pages.len(),
{
    if pages.len() > 0 {
        lemma_apply_pages_len(stars, repo, pages.drop_last(), tss.drop_last());
        crate::store::lemma_apply_batch_len(
            apply_pages(stars, repo, pages.drop_last(), tss.drop_last()),
            batch_of(repo, pages.last(), tss.last()),
        );
    }
}

/// What one finished run reports: the repository it resolved and the
/// totals it counted.
#[derive(Debug, Clone, Copy, PartialEq)]
pub struct SyncSummary {
    pub repository_id: u64,
    pub pages_processed: u32,
    pub events_processed: u32,
}

/// Drives the sync to exhaustion over the given fetch outcomes, one call
/// of `sync_step` per page: the first page resolves the repository
/// record, every page is persisted before the next is looked at, progress
/// is reported after every page, and the first failure aborts the run
/// while what earlier pages persisted stays committed.
#[verifier::rlimit(50)]
pub fn run_sync(
    store: &mut StarStore,
    jobs: &mut JobRegistry,
    job_id: u64,
    q: &RepoQuery,
    outcomes: &Vec<FetchOutcome>,
) -> (r: Result<SyncSummary, ProcessRepoStarsError>)
    requires
        old(store).wf(),
        has_terminal(outcomes@),
        outcomes@.len() <= u32::MAX,
        forall|i: int|
            0 <= i < outcomes@.len() ==> edges_of(#[trigger] outcomes@[i]).len() <= u32::MAX,
        old(store).stars@.len() + events_total(
            pages_prefix(outcomes@, outcomes@.len() as int),
        ) <= i64::MAX,
        old(jobs).jobs().contains_key(job_id),
        old(jobs).jobs()[job_id].status == JobState::Pending,
        old(jobs).jobs()[job_id].progress.current_page == 0,
        old(jobs).jobs()[job_id].progress.total_stars_processed == 0,
    ensures
        final(store).wf(),
        !(outcomes@[first_terminal(outcomes@)] matches FetchOutcome::Fetched(_)) ==> (
        r matches Err(e) && (is_repo_insert_error(e) || e == fetch_error_of(
            outcomes@[first_terminal(outcomes@)],
            q.owner,
            q.name,
        ))),
        (outcomes@[first_terminal(outcomes@)] matches FetchOutcome::Fetched(_)) && repo_key_taken(
            old(store).repositories@,
            q.owner@,
            q.name@,
        ) ==> r is Ok,
        r matches Err(e) ==> ((e matches ProcessRepoStarsError::InsertRepository {
            source: InsertRepositoryError::DuplicateId { id },
        } ==> (repo_id_taken(old(store).repositories@, id) && !repo_key_taken(
            old(store).repositories@,
            q.owner@,
            q.name@,
        ) && (outcomes@[0] matches FetchOutcome::Fetched(_))))),
        run_pages(outcomes@, r) == 0 ==> (final(store).repositories@ == old(store).repositories@
            && final(store).stars@ == old(store).stars@),
        r matches Ok(summary) ==> {
            &&& sync_repo_resolved(
                old(store).repositories@,
                final(store).repositories@,
                q.owner@,
                q.name@,
                summary.repository_id,
            )
            &&& exists|tss: Seq<i64>|
                tss.len() == run_pages(outcomes@, r) && final(store).stars@
                    == #[trigger] apply_pages(
                    old(store).stars@,
                    summary.repository_id,
                    pages_prefix(outcomes@, run_pages(outcomes@, r)),
                    tss,
                )
            &&& summary.pages_processed == run_pages(outcomes@, r)
            &&& summary.events_processed as int == clipped_events(
                events_total(pages_prefix(outcomes@, run_pages(outcomes@, r))),
            )
        },
        r is Err && run_pages(outcomes@, r) > 0 ==> exists|rid: u64, tss: Seq<i64>|
            {
                &&& tss.len() == run_pages(outcomes@, r)
                &&& sync_repo_resolved(
                    old(store).repositories@,
                    final(store).repositories@,
                    q.owner@,
                    q.name@,
                    rid,
                )
                &&& final(store).stars@ == #[trigger] apply_pages(
                    old(store).stars@,
                    rid,
                    pages_prefix(outcomes@, run_pages(outcomes@, r)),
                    tss,
                )
            },
        ({
            let pre = old(jobs).jobs()[job_id];
            let post = final(jobs).jobs()[job_id];
            &&& final(jobs).jobs() == old(jobs).jobs().insert(job_id, post)
            &&& post.id == pre.id
            &&& post.status == JobState::Running
            &&& post.progress.current_page == run_pages(outcomes@, r)
            &&& post.progress.total_stars_processed as int == clipped_events(
                events_total(pages_prefix(outcomes@, run_pages(outcomes@, r))),
            )
            &&& post.created_at == pre.created_at
            &&& post.error == pre.error
        }),
{
    proof {
        lemma_first_terminal(outcomes@);
    }
    let mut st = SyncState::new();
    jobs.start(job_id);
    let ghost mut tss: Seq<i64> = Seq::empty();
    let mut i: usize = 0;
    loop
        invariant
            store.wf(),
            has_terminal(outcomes@),
            outcomes@.len() <= u32::MAX,
            forall|k: int|
                0 <= k < outcomes@.len() ==> edges_of(#[trigger] outcomes@[k]).len() <= u32::MAX,
            old(store).stars@.len() + events_total(
                pages_prefix(outcomes@, outcomes@.len() as int),
            ) <= i64::MAX,
            old(jobs).jobs().contains_key(job_id),
            old(jobs).jobs()[job_id].status == JobState::Pending,
            old(jobs).jobs()[job_id].progress.current_page == 0,
            old(jobs).jobs()[job_id].progress.total_stars_processed == 0,
            i <= outcomes@.len(),
            forall|j: int| 0 <= j < i ==> !outcome_terminal(#[trigger] outcomes@[j]),
            st.pages_processed == i,
            st.events_processed as int == clipped_events(events_total(pages_prefix(outcomes@, i as int))),
            tss.len() == i,
            st.repo_id is None <==> i == 0,
            i == 0 ==> store.repositories@ == old(store).repositories@ && store.stars@ == old(
                store,
            ).stars@,
            i > 0 ==> (st.repo_id matches Some(rid) && sync_repo_resolved(
                old(store).repositories@,
                store.repositories@,
                q.owner@,
                q.name@,
                rid,
            ) && store.stars@ == apply_pages(
                old(store).stars@,
                rid,
                pages_prefix(outcomes@, i as int),
                tss,
            )),
            ({
                let pre = old(jobs).jobs()[job_id];
                let cur = jobs.jobs()[job_id];
                &&& jobs.jobs() == old(jobs).jobs().insert(job_id, cur)
                &&& cur.id == pre.id
                &&& cur.status == JobState::Running
                &&& cur.progress.current_page == i
                &&& cur.progress.total_stars_processed == st.events_processed
                &&& cur.created_at == pre.created_at
                &&& cur.error == pre.error
            }),
        decreases outcomes@.len() - i,
    {
        proof {
            lemma_first_terminal(outcomes@);
            if i >= outcomes@.len() {
                assert(!outcome_terminal(outcomes@[first_terminal(outcomes@)]));
            }
            lemma_events_prefix(outcomes@, i as int, i + 1);
            lemma_events_prefix(outcomes@, i + 1, outcomes@.len() as int);
            if i > 0 {
                let rid = st.repo_id->0;
                lemma_apply_pages_len(
                    old(store).stars@,
                    rid,
                    pages_prefix(outcomes@, i as int),
                    tss,
                );
            }
            assert(pages_prefix(outcomes@, i + 1).drop_last() =~= pages_prefix(
                outcomes@,
                i as int,
            ));
            assert(pages_prefix(outcomes@, i + 1).last() == edges_of(outcomes@[i as int]));
        }
        let ghost prev_stars = store.stars@;
        let ghost ft = first_terminal(outcomes@);
        let outcome = &outcomes[i];
        match sync_step(&mut st, outcome, store, jobs, job_id, q) {
            Err(e) => {
                proof {
                    if !(outcomes@[i as int] matches FetchOutcome::Fetched(_)) {
                        assert(outcome_terminal(outcomes@[i as int]));
                        assert(i as int == ft);
                        assert(!is_repo_insert_error(e));
                        assert(pages_prefix(outcomes@, first_terminal(outcomes@)) =~= pages_prefix(
                            outcomes@,
                            i as int,
                        ));
                        assert(clipped_events(
                            events_total(pages_prefix(outcomes@, first_terminal(outcomes@))),
                        ) == clipped_events(events_total(pages_prefix(outcomes@, i as int))));
                        if i > 0 {
                            let rid = st.repo_id->0;
                            assert(sync_repo_resolved(
                                old(store).repositories@,
                                store.repositories@,
                                q.owner@,
                                q.name@,
                                rid,
                            ));
                            assert(store.stars@ == apply_pages(
                                old(store).stars@,
                                rid,
                                pages_prefix(outcomes@, i as int),
                                tss,
                            ));
                        }
                    } else {
                        assert(is_repo_insert_error(e));
                        assert(events_total(pages_prefix(outcomes@, 0)) == 0);
                    }
                }
                return Err(e);
            },
            Ok(SyncStep::Done) => {
                proof {
                    assert(outcome_terminal(outcomes@[i as int]));
                    assert(i as int == ft);
                    let rid = st.repo_id->0;
                    assert(exists|t: i64|
                        store.stars@ == apply_batch(
                            prev_stars,
                            #[trigger] batch_of(rid, edges_of(outcomes@[i as int]), t),
                        ));
                    let t = choose|t: i64|
                        store.stars@ == apply_batch(
                            prev_stars,
                            #[trigger] batch_of(rid, edges_of(outcomes@[i as int]), t),
                        );
                    let ghost tss0 = tss;
                    tss = tss.push(t);
                    assert(tss.drop_last() =~= tss0);
                    assert(tss.last() == t);
                    if i == 0 {
                        assert(pages_prefix(outcomes@, 0int).len() == 0);
                        assert(apply_pages(
                            old(store).stars@,
                            rid,
                            pages_prefix(outcomes@, 0int),
                            tss0,
                        ) == old(store).stars@);
                        assert(prev_stars == old(store).stars@);
                    } else {
                        assert(prev_stars == apply_pages(
                            old(store).stars@,
                            rid,
                            pages_prefix(outcomes@, i as int),
                            tss0,
                        ));
                    }
                    assert(apply_pages(old(store).stars@, rid, pages_prefix(outcomes@, i + 1), tss)
                        == apply_batch(
                        apply_pages(old(store).stars@, rid, pages_prefix(outcomes@, i as int), tss0),
                        batch_of(rid, edges_of(outcomes@[i as int]), t),
                    ));
                    assert(store.stars@ == apply_pages(
                        old(store).stars@,
                        rid,
                        pages_prefix(outcomes@, i + 1),
                        tss,
                    ));
                    assert(sync_repo_resolved(
                        old(store).repositories@,
                        store.repositories@,
                        q.owner@,
                        q.name@,
                        rid,
                    ));
                    assert(jobs.jobs() =~= old(jobs).jobs().insert(job_id, jobs.jobs()[job_id]));
                    assert(events_total(pages_prefix(outcomes@, i + 1)) == events_total(
                        pages_prefix(outcomes@, i as int),
                    ) + edges_of(outcomes@[i as int]).len());
                    assert(st.events_processed as int == clipped_events(
                        events_total(pages_prefix(outcomes@, i + 1)),
                    ));
                    assert(st.pages_processed == i + 1);
                    assert(jobs.jobs()[job_id].progress.current_page == i + 1);
                    assert(outcomes@[first_terminal(outcomes@)] matches FetchOutcome::Fetched(_));
                    assert(pages_prefix(outcomes@, first_terminal(outcomes@) + 1) =~= pages_prefix(
                        outcomes@,
                        i + 1,
                    ));
                    assert(clipped_events(
                        events_total(pages_prefix(outcomes@, first_terminal(outcomes@) + 1)),
                    ) == clipped_events(events_total(pages_prefix(outcomes@, i + 1))));
                }
                let summary = SyncSummary {
                    repository_id: match st.repo_id {
                        Some(id) => id,
                        None => 0,
                    },
                    pages_processed: st.pages_processed,
                    events_processed: st.events_processed,
                };
                proof {
                    let rr = Ok::<SyncSummary, ProcessRepoStarsError>(summary);
                    assert(run_pages(outcomes@, rr) == i + 1);
                    assert(summary.repository_id == st.repo_id->0);
                    assert(exists|tss2: Seq<i64>|
                        tss2.len() == run_pages(outcomes@, rr) && store.stars@
                            == #[trigger] apply_pages(
                            old(store).stars@,
                            summary.repository_id,
                            pages_prefix(outcomes@, run_pages(outcomes@, rr)),
                            tss2,
                        ));
                }
                return Ok(summary);
            },
            Ok(SyncStep::Continue { next_cursor: _ }) => {
                proof {
                    assert(!outcome_terminal(outcomes@[i as int]));
                    let rid = st.repo_id->0;
                    assert(exists|t: i64|
                        store.stars@ == apply_batch(
                            prev_stars,
                            #[trigger] batch_of(rid, edges_of(outcomes@[i as int]), t),
                        ));
                    let t = choose|t: i64|
                        store.stars@ == apply_batch(
                            prev_stars,
                            #[trigger] batch_of(rid, edges_of(outcomes@[i as int]), t),
                        );
                    let ghost tss0 = tss;
                    tss = tss.push(t);
                    assert(tss.drop_last() =~= tss0);
                    assert(tss.last() == t);
                    if i == 0 {
                        assert(pages_prefix(outcomes@, 0int).len() == 0);
                        assert(apply_pages(
                            old(store).stars@,
                            rid,
                            pages_prefix(outcomes@, 0int),
                            tss0,
                        ) == old(store).stars@);
                        assert(prev_stars == old(store).stars@);
                    } else {
                        assert(prev_stars == apply_pages(
                            old(store).stars@,
                            rid,
                            pages_prefix(outcomes@, i as int),
                            tss0,
                        ));
                    }
                    assert(apply_pages(old(store).stars@, rid, pages_prefix(outcomes@, i + 1), tss)
                        == apply_batch(
                        apply_pages(old(store).stars@, rid, pages_prefix(outcomes@, i as int), tss0),
                        batch_of(rid, edges_of(outcomes@[i as int]), t),
                    ));
                    assert(store.stars@ == apply_pages(
                        old(store).stars@,
                        rid,
                        pages_prefix(outcomes@, i + 1),
                        tss,
                    ));
                    assert(jobs.jobs() =~= old(jobs).jobs().insert(job_id, jobs.jobs()[job_id]));
                }
                i += 1;
            },
        }
    }
}

/// Ends the job according to the run's result: on success the job is
/// completed, on failure it is failed with the error's description. The
/// returned flag says whether a notification is owed; ending a job that
/// is already terminal changes nothing and owes none.
pub fn finish_job(
    jobs: &mut JobRegistry,
    job_id: u64,
    result: &Result<SyncSummary, ProcessRepoStarsError>,
) -> (notify: bool)
    ensures
        notify == (old(jobs).jobs().contains_key(job_id) && !is_terminal(
            old(jobs).jobs()[job_id].status,
        )),
        !notify ==> final(jobs).jobs() == old(jobs).jobs(),
        notify ==> {
            let pre = old(jobs).jobs()[job_id];
            let post = final(jobs).jobs()[job_id];
            &&& final(jobs).jobs() == old(jobs).jobs().insert(job_id, post)
            &&& post.id == pre.id
            &&& post.progress.current_page == pre.progress.current_page
            &&& post.progress.total_stars_processed == pre.progress.total_stars_processed
            &&& post.created_at == pre.created_at
            &&& (result is Ok ==> post.status == JobState::Completed && post.error == pre.error)
            &&& (result matches Err(e) ==> (post.status == JobState::Failed && (
            post.error matches Some(m) && m@ == spec_sync_error_message(*e))))
        },
{
    match result {
        Ok(_) => jobs.complete(job_id),
        Err(e) => jobs.fail(job_id, e.message()),
    }
}

proof fn lemma_apply_batch_has_star(stars: Seq<Star>, batch: Seq<NewStar>, repo: u64, login: Seq<char>)
    requires
        has_star(stars, repo, login),
    ensures
        has_star(apply_batch(stars, batch), repo, login),
    decreases batch.len(),
{
    if batch.len() > 0 {
        lemma_apply_batch_has_star(stars, batch.drop_last(), repo, login);
        let prev = apply_batch(stars, batch.drop_last());
        let e = batch.last();
        if !has_star(prev, e.repository_id, e.stargazer@) {
            let w = choose|i: int|
                0 <= i < prev.len() && (#[trigger] prev[i]).repository_id == repo
                    && prev[i].stargazer@ == login;
            assert(prev.push(crate::store::star_of(e))[w] == prev[w]);
        }
    }
}

proof fn lemma_apply_batch_adds(stars: Seq<Star>, batch: Seq<NewStar>)
    ensures
        forall|k: int|
            0 <= k < batch.len() ==> has_star(
                apply_batch(stars, batch),
                (#[trigger] batch[k]).repository_id,
                batch[k].stargazer@,
            ),
    decreases batch.len(),
{
    if batch.len() > 0 {
        lemma_apply_batch_adds(stars, batch.drop_last());
        let prev = apply_batch(stars, batch.drop_last());
        let e = batch.last();
        let result = apply_batch(stars, batch);
        assert forall|k: int| 0 <= k < batch.len() implies has_star(
            result,
            (#[trigger] batch[k]).repository_id,
            batch[k].stargazer@,
        ) by {
            if k < batch.len() - 1 {
                assert(batch.drop_last()[k] == batch[k]);
                lemma_apply_batch_has_star_step(prev, e, batch[k].repository_id, batch[k].stargazer@);
            } else {
                if has_star(prev, e.repository_id, e.stargazer@) {
                } else {
                    assert(result[prev.len() as int] == crate::store::star_of(e));
                }
            }
        }
    }
}

proof fn lemma_apply_batch_has_star_step(prev: Seq<Star>, e: NewStar, repo: u64, login: Seq<char>)
    requires
        has_star(prev, repo, login),
    ensures
        has_star(
            if has_star(prev, e.repository_id, e.stargazer@) {
                prev
            } else {
                prev.push(crate::store::star_of(e))
            },
            repo,
            login,
        ),
{
    if !has_star(prev, e.repository_id, e.stargazer@) {
        let w = choose|i: int|
            0 <= i < prev.len() && (#[trigger] prev[i]).repository_id == repo && prev[i].stargazer@
                == login;
        assert(prev.push(crate::store::star_of(e))[w] == prev[w]);
    }
}

proof fn lemma_apply_batch_noop(stars: Seq<Star>, batch: Seq<NewStar>)
    requires
        forall|k: int|
            0 <= k < batch.len() ==> has_star(
                stars,
                (#[trigger] batch[k]).repository_id,
                batch[k].stargazer@,
            ),
    ensures
        apply_batch(stars, batch) == stars,
    decreases batch.len(),
{
    if batch.len() > 0 {
        assert forall|k: int| 0 <= k < batch.drop_last().len() implies has_star(
            stars,
            (#[trigger] batch.drop_last()[k]).repository_id,
            batch.drop_last()[k].stargazer@,
        ) by {
            assert(batch.drop_last()[k] == batch[k]);
        }
        lemma_apply_batch_noop(stars, batch.drop_last());
        assert(batch.last() == batch[batch.len() - 1]);
    }
}

proof fn lemma_apply_pages_has_star(
    stars: Seq<Star>,
    repo: u64,
    pages: Seq<Seq<StargazerEdge>>,
    tss: Seq<i64>,
    r2: u64,
    login: Seq<char>,
)
    requires
        has_star(stars, r2, login),
    ensures
        has_star(apply_pages(stars, repo, pages, tss), r2, login),
    decreases pages.len(),
{
    if pages.len() > 0 {
        lemma_apply_pages_has_star(stars, repo, pages.drop_last(), tss.drop_last(), r2, login);
        lemma_apply_batch_has_star(
            apply_pages(stars, repo, pages.drop_last(), tss.drop_last()),
            batch_of(repo, pages.last(), tss.last()),
            r2,
            login,
        );
    }
}

proof fn lemma_apply_pages_adds(
    stars: Seq<Star>,
    repo: u64,
    pages: Seq<Seq<StargazerEdge>>,
    tss: Seq<i64>,
)
    ensures
        forall|p: int, k: int|
            0 <= p < pages.len() && 0 <= k < pages[p].len() ==> has_star(
                apply_pages(stars, repo, pages, tss),
                repo,
                (#[trigger] pages[p][k]).node.login@,
            ),
    decreases pages.len(),
{
    if pages.len() > 0 {
        lemma_apply_pages_adds(stars, repo, pages.drop_last(), tss.drop_last());
        let prev = apply_pages(stars, repo, pages.drop_last(), tss.drop_last());
        let batch = batch_of(repo, pages.last(), tss.last());
        let result = apply_pages(stars, repo, pages, tss);
        lemma_apply_batch_adds(prev, batch);
        assert forall|p: int, k: int|
            0 <= p < pages.len() && 0 <= k < pages[p].len() implies has_star(
            result,
            repo,
            (#[trigger] pages[p][k]).node.login@,
        ) by {
            if p < pages.len() - 1 {
                assert(pages.drop_last()[p] == pages[p]);
                lemma_apply_batch_has_star(prev, batch, repo, pages[p][k].node.login@);
            } else {
                assert(pages.last() == pages[p]);
                assert(batch[k].repository_id == repo && batch[k].stargazer@
                    == pages[p][k].node.login@);
            }
        }
    }
}

proof fn lemma_apply_pages_noop(
    stars: Seq<Star>,
    repo: u64,
    pages: Seq<Seq<StargazerEdge>>,
    tss: Seq<i64>,
)
    requires
        forall|p: int, k: int|
            0 <= p < pages.len() && 0 <= k < pages[p].len() ==> has_star(
                stars,
                repo,
                (#[trigger] pages[p][k]).node.login@,
            ),
    ensures
        apply_pages(stars, repo, pages, tss) == stars,
    decreases pages.len(),
{
    if pages.len() > 0 {
        assert forall|p: int, k: int|
            0 <= p < pages.drop_last().len() && 0 <= k < pages.drop_last()[p].len() implies has_star(
            stars,
            repo,
            (#[trigger] pages.drop_last()[p][k]).node.login@,
        ) by {
            assert(pages.drop_last()[p] == pages[p]);
        }
        lemma_apply_pages_noop(stars, repo, pages.drop_last(), tss.drop_last());
        let batch = batch_of(repo, pages.last(), tss.last());
        assert forall|k: int| 0 <= k < batch.len() implies has_star(
            stars,
            (#[trigger] batch[k]).repository_id,
            batch[k].stargazer@,
        ) by {
            assert(pages.last() == pages[pages.len() - 1]);
            assert(batch[k].stargazer@ == pages[pages.len() - 1][k].node.login@);
        }
        lemma_apply_batch_noop(stars, batch);
    }
}

/// Law: ingestion is idempotent. Ingesting the same sequence of pages for
/// the same repository a second time — at whatever observation times —
/// leaves the stored star facts exactly as the first run left them, so
/// every daily count is identical after either run.
pub proof fn lemma_ingest_idempotent(
    stars: Seq<Star>,
    repo: u64,
    pages: Seq<Seq<StargazerEdge>>,
    tss1: Seq<i64>,
    tss2: Seq<i64>,
)
    ensures
        apply_pages(apply_pages(stars, repo, pages, tss1), repo, pages, tss2) == apply_pages(
            stars,
            repo,
            pages,
            tss1,
        ),
        forall|r2: u64, d: int|
            crate::store::star_count_on_day(
                apply_pages(apply_pages(stars, repo, pages, tss1), repo, pages, tss2),
                r2,
                d,
            ) == crate::store::star_count_on_day(apply_pages(stars, repo, pages, tss1), r2, d),
{
    let once = apply_pages(stars, repo, pages, tss1);
    lemma_apply_pages_adds(stars, repo, pages, tss1);
    lemma_apply_pages_noop(once, repo, pages, tss2);
}

/// `rid` names the one stored repository record for (owner, name): the
/// record existed already and the store is unchanged, or it was appended
/// with a previously unused identifier.
pub open spec fn sync_repo_resolved(
    repos_before: Seq<Repository>,
    repos_after: Seq<Repository>,
    owner: Seq<char>,
    name: Seq<char>,
    rid: u64,
) -> bool {
    &&& exists|i: int|
        0 <= i < repos_after.len() && (#[trigger] repos_after[i]).id == rid && repos_after[i].owner@
            == owner && repos_after[i].name@ == name
    &&& (repo_key_taken(repos_before, owner, name) ==> repos_after == repos_before)
    &&& (!repo_key_taken(repos_before, owner, name) ==> (!repo_id_taken(repos_before, rid)
        && exists|t: i64, o: String, n: String|
        o@ == owner && n@ == name && repos_after == repos_before.push(
            (Repository { id: rid, owner: o, name: n, created_at: t }),
        )))
}

} // verus!
