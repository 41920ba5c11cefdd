//! The fetched pull requests of one window, and every scalar aggregate a
//! summary reads off them: record counts, comment/commit/changed-file sums,
//! and elapsed-time totals for first contact, approval and merge, each in a
//! team form and an actor-restricted form.

use vstd::prelude::*;

use crate::aggregate::{
    count_where, lemma_count_where_take_succ, lemma_sum_partial_in_i128,
    lemma_sum_zero_without_hits, sum_of,
};
use crate::datetime::DateTime;
use crate::pull_request::{lemma_comments_count_by_range, PullRequest};

verus! {

/// The elapsed seconds from `created` to `at`, or zero when the event never
/// happened. Skipped records contribute nothing to a total.
pub open spec fn elapsed_or_zero(at: Option<DateTime>, created: DateTime) -> int {
    match at {
        Some(t) => t.secs - created.secs,
        None => 0,
    }
}

/// The elapsed seconds from `created` to `at` fit the result type.
pub open spec fn elapsed_fits(at: Option<DateTime>, created: DateTime) -> bool {
    match at {
        Some(t) => i64::MIN <= t.secs - created.secs <= i64::MAX,
        None => true,
    }
}

/// An elapsed-time total over the records where the event happened,
/// together with how many records that was. An average is the quotient of
/// the two, taken as zero when the count is zero.
#[derive(Clone, Copy, PartialEq, Eq, Structural, Debug)]
pub struct TimeAggregate {
    pub total_seconds: i64,
    pub included_count: i64,
}

pub open spec fn pr_authored_by(by: Seq<char>) -> spec_fn(PullRequest) -> bool {
    |pr: PullRequest| pr.spec_author() == by
}

/// A record's comment count: its review entries plus its comment entries.
pub open spec fn pr_comments() -> spec_fn(PullRequest) -> int {
    |pr: PullRequest| (pr.reviews@.len() + pr.comments@.len()) as int
}

pub open spec fn pr_comments_by(by: Seq<char>) -> spec_fn(PullRequest) -> int {
    |pr: PullRequest| pr.spec_comments_count_by(by)
}

pub open spec fn pr_commits() -> spec_fn(PullRequest) -> int {
    |pr: PullRequest| pr.total_commits_count as int
}

pub open spec fn pr_commits_by(by: Seq<char>) -> spec_fn(PullRequest) -> int {
    |pr: PullRequest| pr.spec_commits_count_by(by)
}

pub open spec fn pr_changed_files() -> spec_fn(PullRequest) -> int {
    |pr: PullRequest| pr.total_changed_files_count as int
}

pub open spec fn pr_changed_files_by(by: Seq<char>) -> spec_fn(PullRequest) -> int {
    |pr: PullRequest| pr.spec_changed_files_count_by(by)
}

pub open spec fn pr_first_contacted() -> spec_fn(PullRequest) -> bool {
    |pr: PullRequest| pr.spec_first_contacted_at() is Some
}

pub open spec fn pr_first_contacted_elapsed() -> spec_fn(PullRequest) -> int {
    |pr: PullRequest| elapsed_or_zero(pr.spec_first_contacted_at(), pr.created_at)
}

pub open spec fn pr_first_contacted_by(by: Seq<char>) -> spec_fn(PullRequest) -> bool {
    |pr: PullRequest| pr.spec_first_contacted_at_by(by) is Some
}

pub open spec fn pr_first_contacted_by_elapsed(by: Seq<char>) -> spec_fn(PullRequest) -> int {
    |pr: PullRequest| elapsed_or_zero(pr.spec_first_contacted_at_by(by), pr.created_at)
}

pub open spec fn pr_approved() -> spec_fn(PullRequest) -> bool {
    |pr: PullRequest| pr.spec_approved_at() is Some
}

pub open spec fn pr_approved_elapsed() -> spec_fn(PullRequest) -> int {
    |pr: PullRequest| elapsed_or_zero(pr.spec_approved_at(), pr.created_at)
}

pub open spec fn pr_approved_by(by: Seq<char>) -> spec_fn(PullRequest) -> bool {
    |pr: PullRequest| pr.spec_approved_at_by(by) is Some
}

pub open spec fn pr_approved_by_elapsed(by: Seq<char>) -> spec_fn(PullRequest) -> int {
    |pr: PullRequest| elapsed_or_zero(pr.spec_approved_at_by(by), pr.created_at)
}

pub open spec fn pr_merged() -> spec_fn(PullRequest) -> bool {
    |pr: PullRequest| pr.merged_at is Some
}

pub open spec fn pr_merged_elapsed() -> spec_fn(PullRequest) -> int {
    |pr: PullRequest| elapsed_or_zero(pr.merged_at, pr.created_at)
}

pub open spec fn pr_merged_by(by: Seq<char>) -> spec_fn(PullRequest) -> bool {
    |pr: PullRequest| pr.spec_merged_at_by(by) is Some
}

pub open spec fn pr_merged_by_elapsed(by: Seq<char>) -> spec_fn(PullRequest) -> int {
    |pr: PullRequest| elapsed_or_zero(pr.spec_merged_at_by(by), pr.created_at)
}

/// The pull requests fetched for one window, in fetch order; no computed
/// statistic depends on that order.
pub struct PullRequests {
    pub inner: Vec<PullRequest>,
}

impl PullRequests {
    /// Few enough records that counts fit the count type, each record
    /// itself well-formed.
    pub open spec fn wf(self) -> bool {
        &&& self.inner@.len() <= i64::MAX
        &&& forall|i: int| 0 <= i < self.inner@.len() ==> (#[trigger] self.inner@[i]).wf()
    }

    pub open spec fn spec_count_by(self, by: Seq<char>) -> int {
        count_where(self.inner@, pr_authored_by(by))
    }

    pub open spec fn spec_comments_count(self) -> int {
        sum_of(self.inner@, pr_comments())
    }

    pub open spec fn spec_comments_count_by(self, by: Seq<char>) -> int {
        sum_of(self.inner@, pr_comments_by(by))
    }

    pub open spec fn spec_commits_count(self) -> int {
        sum_of(self.inner@, pr_commits())
    }

    pub open spec fn spec_commits_count_by(self, by: Seq<char>) -> int {
        sum_of(self.inner@, pr_commits_by(by))
    }

    pub open spec fn spec_changed_files_count(self) -> int {
        sum_of(self.inner@, pr_changed_files())
    }

    pub open spec fn spec_changed_files_count_by(self, by: Seq<char>) -> int {
        sum_of(self.inner@, pr_changed_files_by(by))
    }

    pub fn new() -> (r: PullRequests)
        ensures
            r.inner@.len() == 0,
            r.wf(),
    {
        PullRequests { inner: Vec::new() }
    }

    pub fn add(&mut self, item: PullRequest)
        ensures
            final(self).inner@ == old(self).inner@.push(item),
    {
        self.inner.push(item);
    }

    pub fn count(&self) -> (r: i64)
        requires
            self.wf(),
        ensures
            r == self.inner@.len(),
    {
        self.inner.len() as i64
    }

    pub fn count_by(&self, by: &str) -> (r: i64)
        requires
            self.wf(),
        ensures
            r == self.spec_count_by(by@),
    {
        let mut n: usize = 0;
        let mut i: usize = 0;
        while i < self.inner.len()
            invariant
                i <= self.inner@.len(),
                n <= i,
                self.inner@.len() <= i64::MAX,
                n == count_where(self.inner@.take(i as int), pr_authored_by(by@)),
            decreases self.inner@.len() - i,
        {
            proof {
                lemma_count_where_take_succ(self.inner@, pr_authored_by(by@), i as int);
            }
            let author = self.inner[i].author();
            let hit = *author.as_str() == *by;
            proof {
                assert(hit == pr_authored_by(by@)(self.inner@[i as int]));
            }
            if hit {
                n = n + 1;
            }
            i = i + 1;
        }
        proof {
            assert(self.inner@.take(self.inner@.len() as int) =~= self.inner@);
        }
        n as i64
    }
}


impl PullRequests {
    /// The sum of the records' comment counts (review entries plus comment
    /// entries each).
    pub fn comments_count(&self) -> (r: i64)
        requires
            self.wf(),
            i64::MIN <= self.spec_comments_count() <= i64::MAX,
        ensures
            r == self.spec_comments_count(),
    {
        let mut total: i128 = 0;
        let mut i: usize = 0;
        while i < self.inner.len()
            invariant
                i <= self.inner@.len(),
                self.wf(),
                total == sum_of(self.inner@.take(i as int), pr_comments()),
            decreases self.inner@.len() - i,
        {
            proof {
                assert forall|j: int| 0 <= j < self.inner@.len() implies i64::MIN <= #[trigger] pr_comments()(
                    self.inner@[j],
                ) <= i64::MAX by {
                    assert(self.inner@[j].wf());
                }
                lemma_sum_partial_in_i128(self.inner@, pr_comments(), i as int);
                assert(self.inner@[i as int].wf());
            }
            let term = self.inner[i].comments_count();
            total = total + (term as i128);
            i = i + 1;
        }
        proof {
            assert(self.inner@.take(self.inner@.len() as int) =~= self.inner@);
        }
        total as i64
    }

    /// The sum over all records of the review and comment entries `by` wrote.
    pub fn comments_count_by(&self, by: &str) -> (r: i64)
        requires
            self.wf(),
            i64::MIN <= self.spec_comments_count_by(by@) <= i64::MAX,
        ensures
            r == self.spec_comments_count_by(by@),
    {
        let mut total: i128 = 0;
        let mut i: usize = 0;
        while i < self.inner.len()
            invariant
                i <= self.inner@.len(),
                self.wf(),
                total == sum_of(self.inner@.take(i as int), pr_comments_by(by@)),
            decreases self.inner@.len() - i,
        {
            proof {
                assert forall|j: int| 0 <= j < self.inner@.len() implies i64::MIN <= #[trigger] pr_comments_by(by@)(
                    self.inner@[j],
                ) <= i64::MAX by {
                    lemma_comments_count_by_range(self.inner@[j], by@);
                }
                lemma_sum_partial_in_i128(self.inner@, pr_comments_by(by@), i as int);
            }
            let term = self.inner[i].comments_count_by(by);
            total = total + (term as i128);
            i = i + 1;
        }
        proof {
            assert(self.inner@.take(self.inner@.len() as int) =~= self.inner@);
        }
        total as i64
    }

    /// The sum of the records' commit counts.
    pub fn commits_count(&self) -> (r: i64)
        requires
            self.wf(),
            i64::MIN <= self.spec_commits_count() <= i64::MAX,
        ensures
            r == self.spec_commits_count(),
    {
        let mut total: i128 = 0;
        let mut i: usize = 0;
        while i < self.inner.len()
            invariant
                i <= self.inner@.len(),
                self.wf(),
                total == sum_of(self.inner@.take(i as int), pr_commits()),
            decreases self.inner@.len() - i,
        {
            proof {
                assert forall|j: int| 0 <= j < self.inner@.len() implies i64::MIN <= #[trigger] pr_commits()(
                    self.inner@[j],
                ) <= i64::MAX by {
                }
                lemma_sum_partial_in_i128(self.inner@, pr_commits(), i as int);
            }
            let term = self.inner[i].commits_count();
            total = total + (term as i128);
            i = i + 1;
        }
        proof {
            assert(self.inner@.take(self.inner@.len() as int) =~= self.inner@);
        }
        total as i64
    }

    /// Commits are attributed wholly to each record's author.
    pub fn commits_count_by(&self, by: &str) -> (r: i64)
        requires
            self.wf(),
            i64::MIN <= self.spec_commits_count_by(by@) <= i64::MAX,
        ensures
            r == self.spec_commits_count_by(by@),
    {
        let mut total: i128 = 0;
        let mut i: usize = 0;
        while i < self.inner.len()
            invariant
                i <= self.inner@.len(),
                self.wf(),
                total == sum_of(self.inner@.take(i as int), pr_commits_by(by@)),
            decreases self.inner@.len() - i,
        {
            proof {
                assert forall|j: int| 0 <= j < self.inner@.len() implies i64::MIN <= #[trigger] pr_commits_by(by@)(
                    self.inner@[j],
                ) <= i64::MAX by {
                }
                lemma_sum_partial_in_i128(self.inner@, pr_commits_by(by@), i as int);
            }
            let term = self.inner[i].commits_count_by(by);
            total = total + (term as i128);
            i = i + 1;
        }
        proof {
            assert(self.inner@.take(self.inner@.len() as int) =~= self.inner@);
        }
        total as i64
    }

    /// The sum of the records' changed-file counts.
    pub fn changed_files_count(&self) -> (r: i64)
        requires
            self.wf(),
            i64::MIN <= self.spec_changed_files_count() <= i64::MAX,
        ensures
            r == self.spec_changed_files_count(),
    {
        let mut total: i128 = 0;
        let mut i: usize = 0;
        while i < self.inner.len()
            invariant
                i <= self.inner@.len(),
                self.wf(),
                total == sum_of(self.inner@.take(i as int), pr_changed_files()),
            decreases self.inner@.len() - i,
        {
            proof {
                assert forall|j: int| 0 <= j < self.inner@.len() implies i64::MIN <= #[trigger] pr_changed_files()(
                    self.inner@[j],
                ) <= i64::MAX by {
                }
                lemma_sum_partial_in_i128(self.inner@, pr_changed_files(), i as int);
            }
            let term = self.inner[i].changed_files_count();
            total = total + (term as i128);
            i = i + 1;
        }
        proof {
            assert(self.inner@.take(self.inner@.len() as int) =~= self.inner@);
        }
        total as i64
    }

    /// Changed files are attributed wholly to each record's author.
    pub fn changed_files_count_by(&self, by: &str) -> (r: i64)
        requires
            self.wf(),
            i64::MIN <= self.spec_changed_files_count_by(by@) <= i64::MAX,
        ensures
            r == self.spec_changed_files_count_by(by@),
    {
        let mut total: i128 = 0;
        let mut i: usize = 0;
        while i < self.inner.len()
            invariant
                i <= self.inner@.len(),
                self.wf(),
                total == sum_of(self.inner@.take(i as int), pr_changed_files_by(by@)),
            decreases self.inner@.len() - i,
        {
            proof {
                assert forall|j: int| 0 <= j < self.inner@.len() implies i64::MIN <= #[trigger] pr_changed_files_by(by@)(
                    self.inner@[j],
                ) <= i64::MAX by {
                }
                lemma_sum_partial_in_i128(self.inner@, pr_changed_files_by(by@), i as int);
            }
            let term = self.inner[i].changed_files_count_by(by);
            total = total + (term as i128);
            i = i + 1;
        }
        proof {
            assert(self.inner@.take(self.inner@.len() as int) =~= self.inner@);
        }
        total as i64
    }

    /// Seconds from creation to first contact, summed over the records
    /// that were contacted at all, with that record count.
    pub fn time_to_first_contacted_stats(&self) -> (r: TimeAggregate)
        requires
            self.wf(),
            forall|j: int|
                0 <= j < self.inner@.len() ==> elapsed_fits(
                    (#[trigger] self.inner@[j]).spec_first_contacted_at(),
                    self.inner@[j].created_at,
                ),
            i64::MIN <= sum_of(self.inner@, pr_first_contacted_elapsed()) <= i64::MAX,
        ensures
            r.total_seconds == sum_of(self.inner@, pr_first_contacted_elapsed()),
            r.included_count == count_where(self.inner@, pr_first_contacted()),
            r.included_count == 0 ==> r.total_seconds == 0,
    {
        let mut total: i128 = 0;
        let mut included: usize = 0;
        let mut i: usize = 0;
        while i < self.inner.len()
            invariant
                i <= self.inner@.len(),
                included <= i,
                self.wf(),
                forall|j: int|
                    0 <= j < self.inner@.len() ==> elapsed_fits(
                        (#[trigger] self.inner@[j]).spec_first_contacted_at(),
                        self.inner@[j].created_at,
                    ),
                total == sum_of(self.inner@.take(i as int), pr_first_contacted_elapsed()),
                included == count_where(self.inner@.take(i as int), pr_first_contacted()),
            decreases self.inner@.len() - i,
        {
            proof {
                assert forall|j: int| 0 <= j < self.inner@.len() implies i64::MIN <= #[trigger] pr_first_contacted_elapsed()(
                    self.inner@[j],
                ) <= i64::MAX by {}
                lemma_sum_partial_in_i128(self.inner@, pr_first_contacted_elapsed(), i as int);
                lemma_count_where_take_succ(self.inner@, pr_first_contacted(), i as int);
            }
            match self.inner[i].first_contacted_at() {
                Some(at) => {
                    included = included + 1;
                    let created = self.inner[i].created_at();
                    let elapsed = at.diff_seconds(&created);
                    total = total + (elapsed as i128);
                },
                None => {},
            }
            i = i + 1;
        }
        proof {
            assert(self.inner@.take(self.inner@.len() as int) =~= self.inner@);
            if count_where(self.inner@, pr_first_contacted()) == 0 {
                assert forall|j: int|
                    0 <= j < self.inner@.len() && !pr_first_contacted()(self.inner@[j]) implies #[trigger] pr_first_contacted_elapsed()(
                    self.inner@[j],
                ) == 0 by {}
                lemma_sum_zero_without_hits(self.inner@, pr_first_contacted(), pr_first_contacted_elapsed());
            }
        }
        TimeAggregate { total_seconds: total as i64, included_count: included as i64 }
    }

    /// Seconds from creation to `by`'s first contact, over the records
    /// `by` contacted.
    pub fn time_to_first_contacted_stats_by(&self, by: &str) -> (r: TimeAggregate)
        requires
            self.wf(),
            forall|j: int|
                0 <= j < self.inner@.len() ==> elapsed_fits(
                    (#[trigger] self.inner@[j]).spec_first_contacted_at_by(by@),
                    self.inner@[j].created_at,
                ),
            i64::MIN <= sum_of(self.inner@, pr_first_contacted_by_elapsed(by@)) <= i64::MAX,
        ensures
            r.total_seconds == sum_of(self.inner@, pr_first_contacted_by_elapsed(by@)),
            r.included_count == count_where(self.inner@, pr_first_contacted_by(by@)),
            r.included_count == 0 ==> r.total_seconds == 0,
    {
        let mut total: i128 = 0;
        let mut included: usize = 0;
        let mut i: usize = 0;
        while i < self.inner.len()
            invariant
                i <= self.inner@.len(),
                included <= i,
                self.wf(),
                forall|j: int|
                    0 <= j < self.inner@.len() ==> elapsed_fits(
                        (#[trigger] self.inner@[j]).spec_first_contacted_at_by(by@),
                        self.inner@[j].created_at,
                    ),
                total == sum_of(self.inner@.take(i as int), pr_first_contacted_by_elapsed(by@)),
                included == count_where(self.inner@.take(i as int), pr_first_contacted_by(by@)),
            decreases self.inner@.len() - i,
        {
            proof {
                assert forall|j: int| 0 <= j < self.inner@.len() implies i64::MIN <= #[trigger] pr_first_contacted_by_elapsed(by@)(
                    self.inner@[j],
                ) <= i64::MAX by {}
                lemma_sum_partial_in_i128(self.inner@, pr_first_contacted_by_elapsed(by@), i as int);
                lemma_count_where_take_succ(self.inner@, pr_first_contacted_by(by@), i as int);
            }
            match self.inner[i].first_contacted_at_by(by) {
                Some(at) => {
                    included = included + 1;
                    let created = self.inner[i].created_at();
                    let elapsed = at.diff_seconds(&created);
                    total = total + (elapsed as i128);
                },
                None => {},
            }
            i = i + 1;
        }
        proof {
            assert(self.inner@.take(self.inner@.len() as int) =~= self.inner@);
            if count_where(self.inner@, pr_first_contacted_by(by@)) == 0 {
                assert forall|j: int|
                    0 <= j < self.inner@.len() && !pr_first_contacted_by(by@)(self.inner@[j]) implies #[trigger] pr_first_contacted_by_elapsed(by@)(
                    self.inner@[j],
                ) == 0 by {}
                lemma_sum_zero_without_hits(self.inner@, pr_first_contacted_by(by@), pr_first_contacted_by_elapsed(by@));
            }
        }
        TimeAggregate { total_seconds: total as i64, included_count: included as i64 }
    }

    /// Seconds from creation to first approval, over the approved records.
    pub fn time_to_approved_stats(&self) -> (r: TimeAggregate)
        requires
            self.wf(),
            forall|j: int|
                0 <= j < self.inner@.len() ==> elapsed_fits(
                    (#[trigger] self.inner@[j]).spec_approved_at(),
                    self.inner@[j].created_at,
                ),
            i64::MIN <= sum_of(self.inner@, pr_approved_elapsed()) <= i64::MAX,
        ensures
            r.total_seconds == sum_of(self.inner@, pr_approved_elapsed()),
            r.included_count == count_where(self.inner@, pr_approved()),
            r.included_count == 0 ==> r.total_seconds == 0,
    {
        let mut total: i128 = 0;
        let mut included: usize = 0;
        let mut i: usize = 0;
        while i < self.inner.len()
            invariant
                i <= self.inner@.len(),
                included <= i,
                self.wf(),
                forall|j: int|
                    0 <= j < self.inner@.len() ==> elapsed_fits(
                        (#[trigger] self.inner@[j]).spec_approved_at(),
                        self.inner@[j].created_at,
                    ),
                total == sum_of(self.inner@.take(i as int), pr_approved_elapsed()),
                included == count_where(self.inner@.take(i as int), pr_approved()),
            decreases self.inner@.len() - i,
        {
            proof {
                assert forall|j: int| 0 <= j < self.inner@.len() implies i64::MIN <= #[trigger] pr_approved_elapsed()(
                    self.inner@[j],
                ) <= i64::MAX by {}
                lemma_sum_partial_in_i128(self.inner@, pr_approved_elapsed(), i as int);
                lemma_count_where_take_succ(self.inner@, pr_approved(), i as int);
            }
            match self.inner[i].approved_at() {
                Some(at) => {
                    included = included + 1;
                    let created = self.inner[i].created_at();
                    let elapsed = at.diff_seconds(&created);
                    total = total + (elapsed as i128);
                },
                None => {},
            }
            i = i + 1;
        }
        proof {
            assert(self.inner@.take(self.inner@.len() as int) =~= self.inner@);
            if count_where(self.inner@, pr_approved()) == 0 {
                assert forall|j: int|
                    0 <= j < self.inner@.len() && !pr_approved()(self.inner@[j]) implies #[trigger] pr_approved_elapsed()(
                    self.inner@[j],
                ) == 0 by {}
                lemma_sum_zero_without_hits(self.inner@, pr_approved(), pr_approved_elapsed());
            }
        }
        TimeAggregate { total_seconds: total as i64, included_count: included as i64 }
    }

    /// Seconds from creation to first approval where that approval is
    /// `by`'s.
    pub fn time_to_approved_stats_by(&self, by: &str) -> (r: TimeAggregate)
        requires
            self.wf(),
            forall|j: int|
                0 <= j < self.inner@.len() ==> elapsed_fits(
                    (#[trigger] self.inner@[j]).spec_approved_at_by(by@),
                    self.inner@[j].created_at,
                ),
            i64::MIN <= sum_of(self.inner@, pr_approved_by_elapsed(by@)) <= i64::MAX,
        ensures
            r.total_seconds == sum_of(self.inner@, pr_approved_by_elapsed(by@)),
            r.included_count == count_where(self.inner@, pr_approved_by(by@)),
            r.included_count == 0 ==> r.total_seconds == 0,
    {
        let mut total: i128 = 0;
        let mut included: usize = 0;
        let mut i: usize = 0;
        while i < self.inner.len()
            invariant
                i <= self.inner@.len(),
                included <= i,
                self.wf(),
                forall|j: int|
                    0 <= j < self.inner@.len() ==> elapsed_fits(
                        (#[trigger] self.inner@[j]).spec_approved_at_by(by@),
                        self.inner@[j].created_at,
                    ),
                total == sum_of(self.inner@.take(i as int), pr_approved_by_elapsed(by@)),
                included == count_where(self.inner@.take(i as int), pr_approved_by(by@)),
            decreases self.inner@.len() - i,
        {
            proof {
                assert forall|j: int| 0 <= j < self.inner@.len() implies i64::MIN <= #[trigger] pr_approved_by_elapsed(by@)(
                    self.inner@[j],
                ) <= i64::MAX by {}
                lemma_sum_partial_in_i128(self.inner@, pr_approved_by_elapsed(by@), i as int);
                lemma_count_where_take_succ(self.inner@, pr_approved_by(by@), i as int);
            }
            match self.inner[i].approved_at_by(by) {
                Some(at) => {
                    included = included + 1;
                    let created = self.inner[i].created_at();
                    let elapsed = at.diff_seconds(&created);
                    total = total + (elapsed as i128);
                },
                None => {},
            }
            i = i + 1;
        }
        proof {
            assert(self.inner@.take(self.inner@.len() as int) =~= self.inner@);
            if count_where(self.inner@, pr_approved_by(by@)) == 0 {
                assert forall|j: int|
                    0 <= j < self.inner@.len() && !pr_approved_by(by@)(self.inner@[j]) implies #[trigger] pr_approved_by_elapsed(by@)(
                    self.inner@[j],
                ) == 0 by {}
                lemma_sum_zero_without_hits(self.inner@, pr_approved_by(by@), pr_approved_by_elapsed(by@));
            }
        }
        TimeAggregate { total_seconds: total as i64, included_count: included as i64 }
    }

    /// Seconds from creation to merge, over the merged records.
    pub fn time_to_merged_stats(&self) -> (r: TimeAggregate)
        requires
            self.wf(),
            forall|j: int|
                0 <= j < self.inner@.len() ==> elapsed_fits(
                    (#[trigger] self.inner@[j]).merged_at,
                    self.inner@[j].created_at,
                ),
            i64::MIN <= sum_of(self.inner@, pr_merged_elapsed()) <= i64::MAX,
        ensures
            r.total_seconds == sum_of(self.inner@, pr_merged_elapsed()),
            r.included_count == count_where(self.inner@, pr_merged()),
            r.included_count == 0 ==> r.total_seconds == 0,
    {
        let mut total: i128 = 0;
        let mut included: usize = 0;
        let mut i: usize = 0;
        while i < self.inner.len()
            invariant
                i <= self.inner@.len(),
                included <= i,
                self.wf(),
                forall|j: int|
                    0 <= j < self.inner@.len() ==> elapsed_fits(
                        (#[trigger] self.inner@[j]).merged_at,
                        self.inner@[j].created_at,
                    ),
                total == sum_of(self.inner@.take(i as int), pr_merged_elapsed()),
                included == count_where(self.inner@.take(i as int), pr_merged()),
            decreases self.inner@.len() - i,
        {
            proof {
                assert forall|j: int| 0 <= j < self.inner@.len() implies i64::MIN <= #[trigger] pr_merged_elapsed()(
                    self.inner@[j],
                ) <= i64::MAX by {}
                lemma_sum_partial_in_i128(self.inner@, pr_merged_elapsed(), i as int);
                lemma_count_where_take_succ(self.inner@, pr_merged(), i as int);
            }
            match self.inner[i].merged_at() {
                Some(at) => {
                    included = included + 1;
                    let created = self.inner[i].created_at();
                    let elapsed = at.diff_seconds(&created);
                    total = total + (elapsed as i128);
                },
                None => {},
            }
            i = i + 1;
        }
        proof {
            assert(self.inner@.take(self.inner@.len() as int) =~= self.inner@);
            if count_where(self.inner@, pr_merged()) == 0 {
                assert forall|j: int|
                    0 <= j < self.inner@.len() && !pr_merged()(self.inner@[j]) implies #[trigger] pr_merged_elapsed()(
                    self.inner@[j],
                ) == 0 by {}
                lemma_sum_zero_without_hits(self.inner@, pr_merged(), pr_merged_elapsed());
            }
        }
        TimeAggregate { total_seconds: total as i64, included_count: included as i64 }
    }

    /// Seconds from creation to merge, over the records `by` merged.
    pub fn time_to_merged_stats_by(&self, by: &str) -> (r: TimeAggregate)
        requires
            self.wf(),
            forall|j: int|
                0 <= j < self.inner@.len() ==> elapsed_fits(
                    (#[trigger] self.inner@[j]).spec_merged_at_by(by@),
                    self.inner@[j].created_at,
                ),
            i64::MIN <= sum_of(self.inner@, pr_merged_by_elapsed(by@)) <= i64::MAX,
        ensures
            r.total_seconds == sum_of(self.inner@, pr_merged_by_elapsed(by@)),
            r.included_count == count_where(self.inner@, pr_merged_by(by@)),
            r.included_count == 0 ==> r.total_seconds == 0,
    {
        let mut total: i128 = 0;
        let mut included: usize = 0;
        let mut i: usize = 0;
        while i < self.inner.len()
            invariant
                i <= self.inner@.len(),
                included <= i,
                self.wf(),
                forall|j: int|
                    0 <= j < self.inner@.len() ==> elapsed_fits(
                        (#[trigger] self.inner@[j]).spec_merged_at_by(by@),
                        self.inner@[j].created_at,
                    ),
                total == sum_of(self.inner@.take(i as int), pr_merged_by_elapsed(by@)),
                included == count_where(self.inner@.take(i as int), pr_merged_by(by@)),
            decreases self.inner@.len() - i,
        {
            proof {
                assert forall|j: int| 0 <= j < self.inner@.len() implies i64::MIN <= #[trigger] pr_merged_by_elapsed(by@)(
                    self.inner@[j],
                ) <= i64::MAX by {}
                lemma_sum_partial_in_i128(self.inner@, pr_merged_by_elapsed(by@), i as int);
                lemma_count_where_take_succ(self.inner@, pr_merged_by(by@), i as int);
            }
            match self.inner[i].merged_at_by(by) {
                Some(at) => {
                    included = included + 1;
                    let created = self.inner[i].created_at();
                    let elapsed = at.diff_seconds(&created);
                    total = total + (elapsed as i128);
                },
                None => {},
            }
            i = i + 1;
        }
        proof {
            assert(self.inner@.take(self.inner@.len() as int) =~= self.inner@);
            if count_where(self.inner@, pr_merged_by(by@)) == 0 {
                assert forall|j: int|
                    0 <= j < self.inner@.len() && !pr_merged_by(by@)(self.inner@[j]) implies #[trigger] pr_merged_by_elapsed(by@)(
                    self.inner@[j],
                ) == 0 by {}
                lemma_sum_zero_without_hits(self.inner@, pr_merged_by(by@), pr_merged_by_elapsed(by@));
            }
        }
        TimeAggregate { total_seconds: total as i64, included_count: included as i64 }
    }
}

} // verus!
