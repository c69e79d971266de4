//! In-memory star store: idempotent persistence of repositories and of
//! (repository, stargazer, starred-at) facts, keyed by their natural keys,
//! with an aggregated daily-count query over the stored events.

use vstd::prelude::*;
use crate::dates::{spec_day_of_timestamp, day_of_timestamp, valid_day};
use crate::series::{
    sorted_by_day,
    counts_nonneg,
    days_valid,
    has_day,
    sum_counts,
    lemma_sum_pointwise_diff,
    lemma_sum_insert_shift,
};

verus! {

/// A repository row: generated identifier, unique (owner, name) pair,
/// creation timestamp.
#[derive(Debug, Clone, PartialEq)]
pub struct Repository {
    pub id: u64,
    pub owner: String,
    pub name: String,
    pub created_at: i64,
}

/// A repository about to be inserted.
#[derive(Debug, Clone)]
pub struct NewRepository {
    pub id: u64,
    pub owner: String,
    pub name: String,
}

/// A star fact: the stargazer starred the repository at `starred_at` and
/// the fact was observed at `fetched_at` (both in seconds).
#[derive(Debug, Clone, PartialEq)]
pub struct Star {
    pub repository_id: u64,
    pub stargazer: String,
    pub starred_at: i64,
    pub fetched_at: i64,
}

/// A star fact about to be inserted.
#[derive(Debug, Clone)]
pub struct NewStar {
    pub repository_id: u64,
    pub stargazer: String,
    pub starred_at: i64,
    pub fetched_at: i64,
}

/// Rejection of a repository insertion.
#[derive(Debug, Clone, PartialEq)]
pub enum InsertRepositoryError {
    /// The generated identifier is already taken by another repository.
    DuplicateId { id: u64 },
}

/// Rejection of a single star fact.
#[derive(Debug, Clone, PartialEq)]
pub enum InsertStarError {
    /// The fact claims to have been observed before it happened.
    ObservedBeforeStarred { stargazer: String },
}

/// Rejection of a batch of star facts; the whole batch is refused and the
/// store is unchanged.
#[derive(Debug, Clone, PartialEq)]
pub enum UpsertStarsError {
    InsertStarsBatch { source: InsertStarError },
}

/// Some stored repository uses this (owner, name) pair.
pub open spec fn repo_key_taken(repos: Seq<Repository>, owner: Seq<char>, name: Seq<char>) -> bool {
    exists|i: int|
        0 <= i < repos.len() && (#[trigger] repos[i]).owner@ == owner && repos[i].name@ == name
}

/// Some stored repository uses this identifier.
pub open spec fn repo_id_taken(repos: Seq<Repository>, id: u64) -> bool {
    exists|i: int| 0 <= i < repos.len() && (#[trigger] repos[i]).id == id
}

/// Some stored star fact has this (repository, stargazer) natural key.
pub open spec fn has_star(stars: Seq<Star>, repo: u64, login: Seq<char>) -> bool {
    exists|i: int|
        0 <= i < stars.len() && (#[trigger] stars[i]).repository_id == repo && stars[i].stargazer@
            == login
}

/// Number of stored star facts of the repository whose starred-at
/// timestamp falls on day `d`.
pub open spec fn star_count_on_day(stars: Seq<Star>, repo: u64, d: int) -> int
    decreases stars.len(),
{
    if stars.len() == 0 {
        0
    } else {
        star_count_on_day(stars.drop_last(), repo, d) + if stars.last().repository_id == repo
            && spec_day_of_timestamp(stars.last().starred_at) == d {
            1int
        } else {
            0int
        }
    }
}

/// Number of stored star facts of the repository.
pub open spec fn count_repo_stars(stars: Seq<Star>, repo: u64) -> int
    decreases stars.len(),
{
    if stars.len() == 0 {
        0
    } else {
        count_repo_stars(stars.drop_last(), repo) + if stars.last().repository_id == repo {
            1int
        } else {
            0int
        }
    }
}

proof fn lemma_count_on_day_le_prefix(stars: Seq<Star>, repo: u64, d: int)
    ensures
        0 <= star_count_on_day(stars, repo, d) <= count_repo_stars(stars, repo) <= stars.len(),
    decreases stars.len(),
{
    if stars.len() > 0 {
        lemma_count_on_day_le_prefix(stars.drop_last(), repo, d);
    }
}

/// The stored row a new star fact becomes.
pub open spec fn star_of(new: NewStar) -> Star {
    Star {
        repository_id: new.repository_id,
        stargazer: new.stargazer,
        starred_at: new.starred_at,
        fetched_at: new.fetched_at,
    }
}

/// The stored star facts after upserting a batch in order: each fact is
/// appended unless its (repository, stargazer) key is already present.
pub open spec fn apply_batch(stars: Seq<Star>, batch: Seq<NewStar>) -> Seq<Star>
    decreases batch.len(),
{
    if batch.len() == 0 {
        stars
    } else {
        let prev = apply_batch(stars, batch.drop_last());
        let e = batch.last();
        if has_star(prev, e.repository_id, e.stargazer@) {
            prev
        } else {
            prev.push(star_of(e))
        }
    }
}

/// Upserting a batch never removes facts and adds at most one per entry.
pub proof fn lemma_apply_batch_len(stars: Seq<Star>, batch: Seq<NewStar>)
    ensures
        stars.len() <= apply_batch(stars, batch).len() <= stars.len() + batch.len(),
    decreases batch.len(),
{
    if batch.len() > 0 {
        lemma_apply_batch_len(stars, batch.drop_last());
    }
}

proof fn lemma_count_repo_stars_positive(stars: Seq<Star>, repo: u64)
    ensures
        count_repo_stars(stars, repo) > 0 <==> exists|i: int|
            0 <= i < stars.len() && (#[trigger] stars[i]).repository_id == repo,
    decreases stars.len(),
{
    if stars.len() > 0 {
        lemma_count_repo_stars_positive(stars.drop_last(), repo);
        lemma_count_on_day_le_prefix(stars.drop_last(), repo, 0);
        let prefix = stars.drop_last();
        if count_repo_stars(stars, repo) > 0 {
            if stars.last().repository_id == repo {
                assert(stars[stars.len() - 1].repository_id == repo);
            } else {
                let i = choose|i: int|
                    0 <= i < prefix.len() && (#[trigger] prefix[i]).repository_id == repo;
                assert(stars[i].repository_id == repo);
            }
        }
        if exists|i: int| 0 <= i < stars.len() && (#[trigger] stars[i]).repository_id == repo {
            let i = choose|i: int|
                0 <= i < stars.len() && (#[trigger] stars[i]).repository_id == repo;
            if i < stars.len() - 1 {
                assert(prefix[i].repository_id == repo);
            }
        }
    }
}

/// The in-memory store of repositories and star facts. Insertions are
/// idempotent on the natural keys: (owner, name) for repositories and
/// (repository, stargazer) for stars.
pub struct StarStore {
    pub repositories: Vec<Repository>,
    pub stars: Vec<Star>,
}

impl StarStore {
    /// Well-formedness: identifiers and natural keys are unique, no fact
    /// is observed before it happened, and the store is small enough that
    /// every count fits the query's result type.
    pub open spec fn wf(&self) -> bool {
        &&& forall|i: int, j: int|
            0 <= i < j < self.repositories@.len() ==> (#[trigger] self.repositories@[i]).id != (
            #[trigger] self.repositories@[j]).id
        &&& forall|i: int, j: int|
            0 <= i < j < self.repositories@.len() ==> !((#[trigger] self.repositories@[i]).owner@
                == (#[trigger] self.repositories@[j]).owner@ && self.repositories@[i].name@
                == self.repositories@[j].name@)
        &&& forall|i: int, j: int|
            0 <= i < j < self.stars@.len() ==> !((#[trigger] self.stars@[i]).repository_id == (
            #[trigger] self.stars@[j]).repository_id && self.stars@[i].stargazer@
                == self.stars@[j].stargazer@)
        &&& forall|i: int|
            0 <= i < self.stars@.len() ==> (#[trigger] self.stars@[i]).starred_at
                <= self.stars@[i].fetched_at
        &&& self.stars@.len() <= i64::MAX
    }

    /// An empty store.
    pub fn new() -> (s: Self)
        ensures
            s.wf(),
            s.repositories@.len() == 0,
            s.stars@.len() == 0,
    {
        StarStore { repositories: Vec::new(), stars: Vec::new() }
    }

    /// Whether some stored repository already uses this identifier.
    pub fn has_repository_id(&self, id: u64) -> (b: bool)
        ensures
            b == repo_id_taken(self.repositories@, id),
    {
        let mut i: usize = 0;
        while i < self.repositories.len()
            invariant
                i <= self.repositories@.len(),
                forall|k: int| 0 <= k < i ==> (#[trigger] self.repositories@[k]).id != id,
            decreases self.repositories@.len() - i,
        {
            if self.repositories[i].id == id {
                return true;
            }
            i += 1;
        }
        false
    }

    /// Looks a repository up by its unique (owner, name) pair.
    pub fn get_repository_by_name(&self, owner_val: &str, name_val: &str) -> (r: Option<
        &Repository,
    >)
        ensures
            match r {
                Some(repo) => {
                    &&& repo.owner@ == owner_val@
                    &&& repo.name@ == name_val@
                    &&& exists|i: int|
                        0 <= i < self.repositories@.len() && *repo == (
                        #[trigger] self.repositories@[i])
                },
                None => !repo_key_taken(self.repositories@, owner_val@, name_val@),
            },
    {
        let owner_owned = owner_val.to_owned();
        let name_owned = name_val.to_owned();
        let mut i: usize = 0;
        while i < self.repositories.len()
            invariant
                owner_owned@ == owner_val@,
                name_owned@ == name_val@,
                i <= self.repositories@.len(),
                forall|k: int|
                    0 <= k < i ==> !((#[trigger] self.repositories@[k]).owner@ == owner_val@
                        && self.repositories@[k].name@ == name_val@),
            decreases self.repositories@.len() - i,
        {
            if self.repositories[i].owner == owner_owned && self.repositories[i].name == name_owned
             {
                return Some(&self.repositories[i]);
            }
            i += 1;
        }
        None
    }

    /// Inserts a repository, idempotently on the (owner, name) pair: when
    /// the pair is already stored, the existing row is returned unchanged;
    /// a fresh pair is stored under the given identifier unless another
    /// repository already uses it.
    pub fn insert_repository(&mut self, new: &NewRepository, created_at: i64) -> (r: Result<
        Repository,
        InsertRepositoryError,
    >)
        requires
            old(self).wf(),
        ensures
            final(self).wf(),
            final(self).stars@ == old(self).stars@,
            repo_key_taken(old(self).repositories@, new.owner@, new.name@) ==> {
                &&& final(self).repositories@ == old(self).repositories@
                &&& r matches Ok(repo) && repo.owner@ == new.owner@ && repo.name@ == new.name@
                    && exists|i: int|
                    0 <= i < old(self).repositories@.len() && (
                    #[trigger] old(self).repositories@[i]).id == repo.id
                        && old(self).repositories@[i].owner@ == new.owner@
                        && old(self).repositories@[i].name@ == new.name@
                        && old(self).repositories@[i].created_at == repo.created_at
            },
            !repo_key_taken(old(self).repositories@, new.owner@, new.name@) && repo_id_taken(
                old(self).repositories@,
                new.id,
            ) ==> {
                &&& final(self).repositories@ == old(self).repositories@
                &&& r matches Err(e) && e == (InsertRepositoryError::DuplicateId { id: new.id })
            },
            !repo_key_taken(old(self).repositories@, new.owner@, new.name@) && !repo_id_taken(
                old(self).repositories@,
                new.id,
            ) ==> {
                &&& r matches Ok(repo)
                &&& repo.id == new.id && repo.owner == new.owner && repo.name == new.name
                    && repo.created_at == created_at
                &&& final(self).repositories@ == old(self).repositories@.push(
                    (Repository {
                        id: new.id,
                        owner: new.owner,
                        name: new.name,
                        created_at: created_at,
                    }),
                )
            },
    {
        match self.get_repository_by_name(new.owner.as_str(), new.name.as_str()) {
            Some(existing) => {
                let found = Repository {
                    id: existing.id,
                    owner: existing.owner.clone(),
                    name: existing.name.clone(),
                    created_at: existing.created_at,
                };
                Ok(found)
            },
            None => {
                if self.has_repository_id(new.id) {
                    Err(InsertRepositoryError::DuplicateId { id: new.id })
                } else {
                    let row = Repository {
                        id: new.id,
                        owner: new.owner.clone(),
                        name: new.name.clone(),
                        created_at,
                    };
                    let copy = Repository {
                        id: new.id,
                        owner: new.owner.clone(),
                        name: new.name.clone(),
                        created_at,
                    };
                    self.repositories.push(row);
                    Ok(copy)
                }
            },
        }
    }

    /// Inserts one star fact, idempotently on the (repository, stargazer)
    /// natural key: re-observing a stored stargazer changes nothing. A
    /// fact observed before it happened is rejected.
    pub fn insert_star(&mut self, new: &NewStar) -> (r: Result<(), InsertStarError>)
        requires
            old(self).wf(),
            old(self).stars@.len() < i64::MAX,
        ensures
            final(self).wf(),
            final(self).repositories@ == old(self).repositories@,
            new.starred_at > new.fetched_at ==> {
                &&& final(self).stars@ == old(self).stars@
                &&& r is Err
            },
            new.starred_at <= new.fetched_at ==> r is Ok,
            r is Ok && has_star(old(self).stars@, new.repository_id, new.stargazer@) ==> (final(
                self
            ).stars@ == old(self).stars@),
            r is Ok && !has_star(old(self).stars@, new.repository_id, new.stargazer@)
                ==> final(self).stars@ == old(self).stars@.push(
                (Star {
                    repository_id: new.repository_id,
                    stargazer: new.stargazer,
                    starred_at: new.starred_at,
                    fetched_at: new.fetched_at,
                }),
            ),
    {
        if new.starred_at > new.fetched_at {
            return Err(
                InsertStarError::ObservedBeforeStarred { stargazer: new.stargazer.clone() },
            );
        }
        let mut i: usize = 0;
        while i < self.stars.len()
            invariant
                *self == *old(self),
                self.wf(),
                self.stars@.len() < i64::MAX,
                new.starred_at <= new.fetched_at,
                i <= self.stars@.len(),
                forall|k: int|
                    0 <= k < i ==> !((#[trigger] self.stars@[k]).repository_id == new.repository_id
                        && self.stars@[k].stargazer@ == new.stargazer@),
            decreases self.stars@.len() - i,
        {
            if self.stars[i].repository_id == new.repository_id && self.stars[i].stargazer
                == new.stargazer {
                return Ok(());
            }
            i += 1;
        }
        self.stars.push(
            Star {
                repository_id: new.repository_id,
                stargazer: new.stargazer.clone(),
                starred_at: new.starred_at,
                fetched_at: new.fetched_at,
            },
        );
        Ok(())
    }

    /// Upserts a batch of star facts as one unit: when any fact of the
    /// batch claims to have been observed before it happened, the whole
    /// batch is refused and the store is unchanged; otherwise the facts
    /// are applied in order, idempotently on the natural key.
    pub fn insert_stars_batch(&mut self, batch: &Vec<NewStar>) -> (r: Result<(), UpsertStarsError>)
        requires
            old(self).wf(),
            old(self).stars@.len() + batch@.len() <= i64::MAX,
        ensures
            final(self).wf(),
            final(self).repositories@ == old(self).repositories@,
            (r is Err) <==> exists|k: int|
                0 <= k < batch@.len() && (#[trigger] batch@[k]).starred_at > batch@[k].fetched_at,
            r is Err ==> final(self).stars@ == old(self).stars@,
            r matches Err(e) ==> exists|k: int|
                {
                    &&& 0 <= k < batch@.len()
                    &&& (#[trigger] batch@[k]).starred_at > batch@[k].fetched_at
                    &&& forall|j: int| 0 <= j < k ==> batch@[j].starred_at <= batch@[j].fetched_at
                    &&& e == (UpsertStarsError::InsertStarsBatch {
                        source: InsertStarError::ObservedBeforeStarred {
                            stargazer: batch@[k].stargazer,
                        },
                    })
                },
            r is Ok ==> final(self).stars@ == apply_batch(old(self).stars@, batch@),
    {
        let mut i: usize = 0;
        while i < batch.len()
            invariant
                *self == *old(self),
                self.wf(),
                i <= batch@.len(),
                forall|j: int|
                    0 <= j < i ==> (#[trigger] batch@[j]).starred_at <= batch@[j].fetched_at,
            decreases batch@.len() - i,
        {
            if batch[i].starred_at > batch[i].fetched_at {
                return Err(
                    UpsertStarsError::InsertStarsBatch {
                        source: InsertStarError::ObservedBeforeStarred {
                            stargazer: batch[i].stargazer.clone(),
                        },
                    },
                );
            }
            i += 1;
        }
        let mut k: usize = 0;
        while k < batch.len()
            invariant
                old(self).wf(),
                old(self).stars@.len() + batch@.len() <= i64::MAX,
                k <= batch@.len(),
                forall|j: int|
                    0 <= j < batch@.len() ==> (#[trigger] batch@[j]).starred_at
                        <= batch@[j].fetched_at,
                self.wf(),
                self.repositories@ == old(self).repositories@,
                self.stars@ == apply_batch(old(self).stars@, batch@.take(k as int)),
            decreases batch@.len() - k,
        {
            proof {
                lemma_apply_batch_len(old(self).stars@, batch@.take(k as int));
                assert(batch@.take(k + 1).drop_last() =~= batch@.take(k as int));
                assert(batch@.take(k + 1).last() == batch@[k as int]);
            }
            let new_star = NewStar {
                repository_id: batch[k].repository_id,
                stargazer: batch[k].stargazer.clone(),
                starred_at: batch[k].starred_at,
                fetched_at: batch[k].fetched_at,
            };
            let outcome = self.insert_star(&new_star);
            proof {
                assert(outcome is Ok);
            }
            k += 1;
        }
        proof {
            assert(batch@.take(k as int) =~= batch@);
        }
        Ok(())
    }

    /// The number of stars of the repository on each day that has any,
    /// ordered by day: exactly the days carrying at least one stored fact
    /// of the repository, each with its exact count.
    pub fn get_daily_star_count(&self, repo_id: u64) -> (r: Vec<(i64, i64)>)
        requires
            self.wf(),
        ensures
            sorted_by_day(r@),
            counts_nonneg(r@),
            days_valid(r@),
            sum_counts(r@) == count_repo_stars(self.stars@, repo_id) <= self.stars@.len(),
            forall|k: int|
                0 <= k < r@.len() ==> 1 <= (#[trigger] r@[k]).1 as int == star_count_on_day(
                    self.stars@,
                    repo_id,
                    r@[k].0 as int,
                ),
            forall|d: int|
                has_day(r@, d) <==> star_count_on_day(self.stars@, repo_id, d) > 0,
    {
        let mut result: Vec<(i64, i64)> = Vec::new();
        let mut j: usize = 0;
        while j < self.stars.len()
            invariant
                self.wf(),
                j <= self.stars@.len(),
                sorted_by_day(result@),
                days_valid(result@),
                sum_counts(result@) == count_repo_stars(self.stars@.take(j as int), repo_id),
                forall|k: int|
                    0 <= k < result@.len() ==> 1 <= (#[trigger] result@[k]).1 as int
                        == star_count_on_day(
                        self.stars@.take(j as int),
                        repo_id,
                        result@[k].0 as int,
                    ),
                forall|d: int|
                    has_day(result@, d) <==> star_count_on_day(self.stars@.take(j as int), repo_id, d)
                        > 0,
            decreases self.stars@.len() - j,
        {
            proof {
                assert(self.stars@.take(j + 1).drop_last() =~= self.stars@.take(j as int));
                assert(self.stars@.take(j + 1).last() == self.stars@[j as int]);
            }
            let star_repo = self.stars[j].repository_id;
            if star_repo == repo_id {
                let d = day_of_timestamp(self.stars[j].starred_at);
                proof {
                    assert forall|k: int| 0 <= k < result@.len() implies 1 <= (
                    #[trigger] result@[k]).1 < i64::MAX by {
                        lemma_count_on_day_le_prefix(
                            self.stars@.take(j as int),
                            repo_id,
                            result@[k].0 as int,
                        );
                    }
                }
                let ghost prev = result@;
                bump_day(&mut result, d);
                proof {
                    let take_j = self.stars@.take(j as int);
                    let take_j1 = self.stars@.take(j + 1);
                    assert forall|d2: int| star_count_on_day(take_j1, repo_id, d2)
                        == star_count_on_day(take_j, repo_id, d2) + (if d2 == d as int {
                        1int
                    } else {
                        0int
                    }) by {}
                    let p = choose|p: int| bump_shape(prev, result@, d as int, p);
                    assert forall|k: int| 0 <= k < result@.len() implies 1 <= (
                    #[trigger] result@[k]).1 as int == star_count_on_day(
                        take_j1,
                        repo_id,
                        result@[k].0 as int,
                    ) by {
                        let x = result@[k].0 as int;
                        if x == d as int {
                            assert(k == p);
                            if has_day(prev, d as int) {
                                assert(result@[k].1 as int == prev[p].1 + 1);
                            } else {
                                lemma_count_on_day_le_prefix(take_j, repo_id, d as int);
                                assert(star_count_on_day(take_j, repo_id, d as int) == 0);
                            }
                        } else {
                            if has_day(prev, d as int) {
                                assert(result@[k] == prev[k]);
                            } else {
                                if k < p {
                                    assert(result@[k] == prev[k]);
                                } else {
                                    assert(k > p);
                                    assert(result@[k] == prev[k - 1]);
                                }
                            }
                        }
                    }
                    assert forall|d2: int| has_day(result@, d2) <==> star_count_on_day(
                        take_j1,
                        repo_id,
                        d2,
                    ) > 0 by {
                        lemma_count_on_day_le_prefix(take_j, repo_id, d2);
                    }
                }
            }
            j += 1;
        }
        proof {
            assert(self.stars@.take(j as int) =~= self.stars@);
            lemma_count_on_day_le_prefix(self.stars@, repo_id, 0);
        }
        result
    }

    /// The day of the newest stored star fact of the repository, if any.
    pub fn get_latest_event_date(&self, repo_id: u64) -> (r: Option<i64>)
        requires
            self.wf(),
        ensures
            match r {
                None => count_repo_stars(self.stars@, repo_id) == 0,
                Some(d) => {
                    &&& star_count_on_day(self.stars@, repo_id, d as int) > 0
                    &&& forall|i: int|
                        0 <= i < self.stars@.len() && (#[trigger] self.stars@[i]).repository_id
                            == repo_id ==> spec_day_of_timestamp(self.stars@[i].starred_at)
                            <= d as int
                },
            },
    {
        let mut latest: Option<i64> = None;
        let mut j: usize = 0;
        while j < self.stars.len()
            invariant
                self.wf(),
                j <= self.stars@.len(),
                match latest {
                    None => count_repo_stars(self.stars@.take(j as int), repo_id) == 0,
                    Some(d) => {
                        &&& valid_day(d as int)
                        &&& star_count_on_day(self.stars@.take(j as int), repo_id, d as int) > 0
                        &&& forall|i: int|
                            0 <= i < j && (#[trigger] self.stars@[i]).repository_id == repo_id
                                ==> spec_day_of_timestamp(self.stars@[i].starred_at) <= d as int
                    },
                },
            decreases self.stars@.len() - j,
        {
            proof {
                assert(self.stars@.take(j + 1).drop_last() =~= self.stars@.take(j as int));
                assert(self.stars@.take(j + 1).last() == self.stars@[j as int]);
                match latest {
                    Some(prev_day) => {
                        lemma_count_on_day_le_prefix(
                            self.stars@.take(j as int),
                            repo_id,
                            prev_day as int,
                        );
                    },
                    None => {},
                }
            }
            if self.stars[j].repository_id == repo_id {
                let d = day_of_timestamp(self.stars[j].starred_at);
                proof {
                    lemma_count_on_day_le_prefix(self.stars@.take(j as int), repo_id, d as int);
                    lemma_count_repo_stars_positive(self.stars@.take(j as int), repo_id);
                    if latest is None {
                        assert forall|i: int|
                            0 <= i < j && (#[trigger] self.stars@[i]).repository_id
                                == repo_id implies false by {
                            assert(self.stars@.take(j as int)[i].repository_id == repo_id);
                        }
                    }
                }
                latest = match latest {
                    None => Some(d),
                    Some(prev) => if d > prev {
                        Some(d)
                    } else {
                        Some(prev)
                    },
                };
            } else {
                proof {
                    assert(count_repo_stars(self.stars@.take(j + 1), repo_id) == count_repo_stars(
                        self.stars@.take(j as int),
                        repo_id,
                    ));
                }
            }
            j += 1;
        }
        proof {
            assert(self.stars@.take(j as int) =~= self.stars@);
        }
        latest
    }
}

/// `s2` is `s1` with the count of day `d` raised by one: the entry at `p`
/// is incremented when the day is present, or a fresh (d, 1) entry stands
/// at `p` with everything else shifted right.
pub open spec fn bump_shape(s1: Seq<(i64, i64)>, s2: Seq<(i64, i64)>, d: int, p: int) -> bool {
    if has_day(s1, d) {
        &&& 0 <= p < s1.len()
        &&& s1[p].0 as int == d
        &&& s2.len() == s1.len()
        &&& forall|k: int| 0 <= k < s2.len() && k != p ==> s2[k] == s1[k]
        &&& s2[p].0 == s1[p].0
        &&& s2[p].1 as int == s1[p].1 as int + 1
    } else {
        &&& 0 <= p <= s1.len()
        &&& s2.len() == s1.len() + 1
        &&& forall|k: int| 0 <= k < p ==> s2[k] == s1[k]
        &&& s2[p].0 as int == d
        &&& s2[p].1 as int == 1
        &&& forall|k: int| p < k < s2.len() ==> s2[k] == s1[k - 1]
    }
}

/// Raises the count recorded for day `d` by one, inserting the day with
/// count 1 when it is absent; the list stays sorted by day.
fn bump_day(result: &mut Vec<(i64, i64)>, d: i64)
    requires
        sorted_by_day(old(result)@),
        days_valid(old(result)@),
        valid_day(d as int),
        forall|k: int| 0 <= k < old(result)@.len() ==> 1 <= (#[trigger] old(result)@[k]).1 < i64::MAX,
    ensures
        sorted_by_day(final(result)@),
        days_valid(final(result)@),
        sum_counts(final(result)@) == sum_counts(old(result)@) + 1,
        forall|k: int| 0 <= k < final(result)@.len() ==> 1 <= (#[trigger] final(result)@[k]).1,
        forall|x: int| has_day(final(result)@, x) <==> (has_day(old(result)@, x) || x == d as int),
        exists|p: int| bump_shape(old(result)@, final(result)@, d as int, p),
{
    let ghost s1 = result@;
    let mut p: usize = 0;
    while p < result.len() && result[p].0 < d
        invariant
            result@ == s1,
            sorted_by_day(s1),
            p <= s1.len(),
            forall|k: int| 0 <= k < p ==> (#[trigger] s1[k]).0 < d,
        decreases s1.len() - p,
    {
        p += 1;
    }
    if p < result.len() && result[p].0 == d {
        let c = result[p].1;
        let entry = result.remove(p);
        result.insert(p, (entry.0, c + 1));
        proof {
            let s2 = result@;
            assert(s2 =~= s1.update(p as int, (s1[p as int].0, (s1[p as int].1 + 1) as i64)));
            assert(s1[p as int].0 == d);
            assert(bump_shape(s1, s2, d as int, p as int));
            lemma_sum_pointwise_diff(s1, s2, p as int, 1);
            assert forall|x: int| has_day(s2, x) implies (has_day(s1, x) || x == d as int) by {
                let w = choose|i: int| 0 <= i < s2.len() && (#[trigger] s2[i]).0 as int == x;
                assert(s1[w].0 as int == x);
            }
            assert forall|x: int| has_day(s1, x) implies has_day(s2, x) by {
                let w = choose|i: int| 0 <= i < s1.len() && (#[trigger] s1[i]).0 as int == x;
                assert(s2[w].0 as int == x);
            }
        }
    } else {
        proof {
            assert forall|k: int| 0 <= k < s1.len() implies (#[trigger] s1[k]).0 != d by {
                if k >= p {
                    if p < s1.len() {
                        assert(s1[p as int].0 != d);
                        if k > p {
                            assert(s1[p as int].0 < s1[k].0);
                        }
                    }
                }
            }
            assert(!has_day(s1, d as int));
        }
        result.insert(p, (d, 1));
        proof {
            let s2 = result@;
            assert(s2 == s1.insert(p as int, (d, 1i64)));
            assert forall|k: int| 0 <= k < p implies s2[k] == s1[k] by {}
            assert(s2[p as int] == (d, 1i64));
            assert forall|k: int| p < k < s2.len() implies s2[k] == s1[k - 1] by {}
            assert(bump_shape(s1, s2, d as int, p as int));
            lemma_sum_insert_shift(s1, s2, p as int);
            assert forall|i: int, j: int| 0 <= i < j < s2.len() implies (#[trigger] s2[i]).0 < (
            #[trigger] s2[j]).0 by {
                if i < p && j > p {
                    assert(s1[i].0 < d || s1[i].0 < s1[j - 1].0);
                }
            }
            assert forall|x: int| has_day(s2, x) implies (has_day(s1, x) || x == d as int) by {
                let w = choose|i: int| 0 <= i < s2.len() && (#[trigger] s2[i]).0 as int == x;
                if w < p {
                    assert(s1[w].0 as int == x);
                } else if w > p {
                    assert(s1[w - 1].0 as int == x);
                }
            }
            assert forall|x: int| has_day(s1, x) implies has_day(s2, x) by {
                let w = choose|i: int| 0 <= i < s1.len() && (#[trigger] s1[i]).0 as int == x;
                if w < p {
                    assert(s2[w].0 as int == x);
                } else {
                    assert(s2[w + 1].0 as int == x);
                }
            }
        }
    }
}

} // verus!
