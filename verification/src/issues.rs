//! The fetched issues of one window, and the scalar aggregates a summary
//! reads off them: record and assignment counts, comment sums, and
//! elapsed-time totals for closing, each in a team form and an
//! actor-restricted form.

use vstd::prelude::*;

use crate::aggregate::{
    count_where, lemma_count_where_bounds, lemma_count_where_take_succ, lemma_sum_partial_in_i128,
    lemma_sum_zero_without_hits, sum_of,
};
use crate::issue::{issue_comment_authored_by, Issue};
use crate::pull_requests::{elapsed_fits, elapsed_or_zero, TimeAggregate};

verus! {

/// Some login in `logins` is `name`.
pub open spec fn has_login(logins: Seq<String>, name: Seq<char>) -> bool {
    exists|j: int| 0 <= j < logins.len() && (#[trigger] logins[j])@ == name
}

pub open spec fn issue_authored_by(by: Seq<char>) -> spec_fn(Issue) -> bool {
    |iss: Issue| iss.spec_author() == by
}

/// Issues with at least one assignee.
pub open spec fn issue_assigned() -> spec_fn(Issue) -> bool {
    |iss: Issue| iss.assignees@.len() > 0
}

/// Issues with `by` among the assignees.
pub open spec fn issue_assigned_to(by: Seq<char>) -> spec_fn(Issue) -> bool {
    |iss: Issue| has_login(iss.assignees@, by)
}

pub open spec fn issue_comments() -> spec_fn(Issue) -> int {
    |iss: Issue| iss.comments@.len() as int
}

pub open spec fn issue_comments_by(by: Seq<char>) -> spec_fn(Issue) -> int {
    |iss: Issue| iss.spec_comments_count_by(by)
}

pub open spec fn issue_closed() -> spec_fn(Issue) -> bool {
    |iss: Issue| iss.closed_at is Some
}

pub open spec fn issue_closed_elapsed() -> spec_fn(Issue) -> int {
    |iss: Issue| elapsed_or_zero(iss.closed_at, iss.created_at)
}

pub open spec fn issue_closed_by(by: Seq<char>) -> spec_fn(Issue) -> bool {
    |iss: Issue| iss.spec_closed_at_by(by) is Some
}

pub open spec fn issue_closed_by_elapsed(by: Seq<char>) -> spec_fn(Issue) -> int {
    |iss: Issue| elapsed_or_zero(iss.spec_closed_at_by(by), iss.created_at)
}

/// The issues fetched for one window, in fetch order; no computed statistic
/// depends on that order.
pub struct Issues {
    pub inner: Vec<Issue>,
}

impl Issues {
    /// Few enough records that counts fit the count type, each record
    /// itself well-formed.
    pub open spec fn wf(self) -> bool {
        &&& self.inner@.len() <= i64::MAX
        &&& forall|i: int| 0 <= i < self.inner@.len() ==> (#[trigger] self.inner@[i]).wf()
    }

    pub open spec fn spec_count_by(self, by: Seq<char>) -> int {
        count_where(self.inner@, issue_authored_by(by))
    }

    pub open spec fn spec_assigns_count(self) -> int {
        count_where(self.inner@, issue_assigned())
    }

    pub open spec fn spec_assigns_count_by(self, by: Seq<char>) -> int {
        count_where(self.inner@, issue_assigned_to(by))
    }

    pub open spec fn spec_comments_count(self) -> int {
        sum_of(self.inner@, issue_comments())
    }

    pub open spec fn spec_comments_count_by(self, by: Seq<char>) -> int {
        sum_of(self.inner@, issue_comments_by(by))
    }

    pub fn new() -> (r: Issues)
        ensures
            r.inner@.len() == 0,
            r.wf(),
    {
        Issues { inner: Vec::new() }
    }

    pub fn add(&mut self, item: Issue)
        ensures
            final(self).inner@ == old(self).inner@.push(item),
    {
        self.inner.push(item);
    }

    pub fn count(&self) -> (r: i64)
        requires
            self.wf(),
        ensures
            r == self.inner@.len(),
    {
        self.inner.len() as i64
    }

    pub fn count_by(&self, by: &str) -> (r: i64)
        requires
            self.wf(),
        ensures
            r == self.spec_count_by(by@),
    {
        let mut n: usize = 0;
        let mut i: usize = 0;
        while i < self.inner.len()
            invariant
                i <= self.inner@.len(),
                n <= i,
                n == count_where(self.inner@.take(i as int), issue_authored_by(by@)),
            decreases self.inner@.len() - i,
        {
            proof {
                lemma_count_where_take_succ(self.inner@, issue_authored_by(by@), i as int);
            }
            let author = self.inner[i].author();
            let hit = *author.as_str() == *by;
            proof {
                assert(hit == issue_authored_by(by@)(self.inner@[i as int]));
            }
            if hit {
                n = n + 1;
            }
            i = i + 1;
        }
        proof {
            assert(self.inner@.take(self.inner@.len() as int) =~= self.inner@);
        }
        n as i64
    }

    /// How many issues have at least one assignee.
    pub fn assigns_count(&self) -> (r: i64)
        requires
            self.wf(),
        ensures
            r == self.spec_assigns_count(),
    {
        let mut n: usize = 0;
        let mut i: usize = 0;
        while i < self.inner.len()
            invariant
                i <= self.inner@.len(),
                n <= i,
                n == count_where(self.inner@.take(i as int), issue_assigned()),
            decreases self.inner@.len() - i,
        {
            proof {
                lemma_count_where_take_succ(self.inner@, issue_assigned(), i as int);
            }
            let hit = self.inner[i].assignees.len() > 0;
            proof {
                assert(hit == issue_assigned()(self.inner@[i as int]));
            }
            if hit {
                n = n + 1;
            }
            i = i + 1;
        }
        proof {
            assert(self.inner@.take(self.inner@.len() as int) =~= self.inner@);
        }
        n as i64
    }

    /// How many issues carry `by` among their assignees.
    pub fn assigns_count_by(&self, by: &str) -> (r: i64)
        requires
            self.wf(),
        ensures
            r == self.spec_assigns_count_by(by@),
    {
        let mut n: usize = 0;
        let mut i: usize = 0;
        while i < self.inner.len()
            invariant
                i <= self.inner@.len(),
                n <= i,
                n == count_where(self.inner@.take(i as int), issue_assigned_to(by@)),
            decreases self.inner@.len() - i,
        {
            proof {
                lemma_count_where_take_succ(self.inner@, issue_assigned_to(by@), i as int);
            }
            let hit = logins_contain(&self.inner[i].assignees, by);
            proof {
                assert(hit == issue_assigned_to(by@)(self.inner@[i as int]));
            }
            if hit {
                n = n + 1;
            }
            i = i + 1;
        }
        proof {
            assert(self.inner@.take(self.inner@.len() as int) =~= self.inner@);
        }
        n as i64
    }

    /// The sum of the issues' comment counts.
    pub fn comments_count(&self) -> (r: i64)
        requires
            self.wf(),
            i64::MIN <= self.spec_comments_count() <= i64::MAX,
        ensures
            r == self.spec_comments_count(),
    {
        let mut total: i128 = 0;
        let mut i: usize = 0;
        while i < self.inner.len()
            invariant
                i <= self.inner@.len(),
                self.wf(),
                total == sum_of(self.inner@.take(i as int), issue_comments()),
            decreases self.inner@.len() - i,
        {
            proof {
                assert forall|j: int|
                    0 <= j < self.inner@.len() implies i64::MIN <= #[trigger] issue_comments()(
                    self.inner@[j],
                ) <= i64::MAX by {
                    assert(self.inner@[j].wf());
                }
                lemma_sum_partial_in_i128(self.inner@, issue_comments(), i as int);
            }
            let term = self.inner[i].comments_count();
            total = total + (term as i128);
            i = i + 1;
        }
        proof {
            assert(self.inner@.take(self.inner@.len() as int) =~= self.inner@);
        }
        total as i64
    }

    /// The sum over all issues of the comment entries `by` wrote.
    pub fn comments_count_by(&self, by: &str) -> (r: i64)
        requires
            self.wf(),
            i64::MIN <= self.spec_comments_count_by(by@) <= i64::MAX,
        ensures
            r == self.spec_comments_count_by(by@),
    {
        let mut total: i128 = 0;
        let mut i: usize = 0;
        while i < self.inner.len()
            invariant
                i <= self.inner@.len(),
                self.wf(),
                total == sum_of(self.inner@.take(i as int), issue_comments_by(by@)),
            decreases self.inner@.len() - i,
        {
            proof {
                assert forall|j: int|
                    0 <= j < self.inner@.len() implies i64::MIN <= #[trigger] issue_comments_by(
                    by@,
                )(self.inner@[j]) <= i64::MAX by {
                    lemma_count_where_bounds(
                        self.inner@[j].comments@,
                        issue_comment_authored_by(by@),
                    );
                    assert(self.inner@[j].wf());
                }
                lemma_sum_partial_in_i128(self.inner@, issue_comments_by(by@), i as int);
            }
            let term = self.inner[i].comments_count_by(by);
            total = total + (term as i128);
            i = i + 1;
        }
        proof {
            assert(self.inner@.take(self.inner@.len() as int) =~= self.inner@);
        }
        total as i64
    }

    /// Seconds from creation to closing, summed over the closed issues,
    /// with that record count.
    pub fn time_to_closed_stats(&self) -> (r: TimeAggregate)
        requires
            self.wf(),
            forall|j: int|
                0 <= j < self.inner@.len() ==> elapsed_fits(
                    (#[trigger] self.inner@[j]).closed_at,
                    self.inner@[j].created_at,
                ),
            i64::MIN <= sum_of(self.inner@, issue_closed_elapsed()) <= i64::MAX,
        ensures
            r.total_seconds == sum_of(self.inner@, issue_closed_elapsed()),
            r.included_count == count_where(self.inner@, issue_closed()),
            r.included_count == 0 ==> r.total_seconds == 0,
    {
        let mut total: i128 = 0;
        let mut included: usize = 0;
        let mut i: usize = 0;
        while i < self.inner.len()
            invariant
                i <= self.inner@.len(),
                included <= i,
                self.wf(),
                forall|j: int|
                    0 <= j < self.inner@.len() ==> elapsed_fits(
                        (#[trigger] self.inner@[j]).closed_at,
                        self.inner@[j].created_at,
                    ),
                total == sum_of(self.inner@.take(i as int), issue_closed_elapsed()),
                included == count_where(self.inner@.take(i as int), issue_closed()),
            decreases self.inner@.len() - i,
        {
            proof {
                assert forall|j: int|
                    0 <= j < self.inner@.len() implies i64::MIN
                    <= #[trigger] issue_closed_elapsed()(self.inner@[j]) <= i64::MAX by {}
                lemma_sum_partial_in_i128(self.inner@, issue_closed_elapsed(), i as int);
                lemma_count_where_take_succ(self.inner@, issue_closed(), i as int);
            }
            match self.inner[i].closed_at() {
                Some(at) => {
                    included = included + 1;
                    let created = self.inner[i].created_at();
                    let elapsed = at.diff_seconds(&created);
                    total = total + (elapsed as i128);
                },
                None => {},
            }
            i = i + 1;
        }
        proof {
            assert(self.inner@.take(self.inner@.len() as int) =~= self.inner@);
            if count_where(self.inner@, issue_closed()) == 0 {
                assert forall|j: int|
                    0 <= j < self.inner@.len() && !issue_closed()(self.inner@[j]) implies #[trigger] issue_closed_elapsed()(
                    self.inner@[j],
                ) == 0 by {}
                lemma_sum_zero_without_hits(self.inner@, issue_closed(), issue_closed_elapsed());
            }
        }
        TimeAggregate { total_seconds: total as i64, included_count: included as i64 }
    }

    /// Seconds from creation to closing, over the issues whose first
    /// closing event is `by`'s.
    pub fn time_to_closed_stats_by(&self, by: &str) -> (r: TimeAggregate)
        requires
            self.wf(),
            forall|j: int|
                0 <= j < self.inner@.len() ==> elapsed_fits(
                    (#[trigger] self.inner@[j]).spec_closed_at_by(by@),
                    self.inner@[j].created_at,
                ),
            i64::MIN <= sum_of(self.inner@, issue_closed_by_elapsed(by@)) <= i64::MAX,
        ensures
            r.total_seconds == sum_of(self.inner@, issue_closed_by_elapsed(by@)),
            r.included_count == count_where(self.inner@, issue_closed_by(by@)),
            r.included_count == 0 ==> r.total_seconds == 0,
    {
        let mut total: i128 = 0;
        let mut included: usize = 0;
        let mut i: usize = 0;
        while i < self.inner.len()
            invariant
                i <= self.inner@.len(),
                included <= i,
                self.wf(),
                forall|j: int|
                    0 <= j < self.inner@.len() ==> elapsed_fits(
                        (#[trigger] self.inner@[j]).spec_closed_at_by(by@),
                        self.inner@[j].created_at,
                    ),
                total == sum_of(self.inner@.take(i as int), issue_closed_by_elapsed(by@)),
                included == count_where(self.inner@.take(i as int), issue_closed_by(by@)),
            decreases self.inner@.len() - i,
        {
            proof {
                assert forall|j: int|
                    0 <= j < self.inner@.len() implies i64::MIN
                    <= #[trigger] issue_closed_by_elapsed(by@)(self.inner@[j]) <= i64::MAX by {}
                lemma_sum_partial_in_i128(self.inner@, issue_closed_by_elapsed(by@), i as int);
                lemma_count_where_take_succ(self.inner@, issue_closed_by(by@), i as int);
            }
            match self.inner[i].closed_at_by(by) {
                Some(at) => {
                    included = included + 1;
                    let created = self.inner[i].created_at();
                    let elapsed = at.diff_seconds(&created);
                    total = total + (elapsed as i128);
                },
                None => {},
            }
            i = i + 1;
        }
        proof {
            assert(self.inner@.take(self.inner@.len() as int) =~= self.inner@);
            if count_where(self.inner@, issue_closed_by(by@)) == 0 {
                assert forall|j: int|
                    0 <= j < self.inner@.len() && !issue_closed_by(by@)(self.inner@[j]) implies #[trigger] issue_closed_by_elapsed(by@)(
                    self.inner@[j],
                ) == 0 by {}
                lemma_sum_zero_without_hits(self.inner@, issue_closed_by(by@), issue_closed_by_elapsed(by@));
            }
        }
        TimeAggregate { total_seconds: total as i64, included_count: included as i64 }
    }
}

/// Whether `name` occurs among `logins`.
fn logins_contain(logins: &Vec<String>, name: &str) -> (r: bool)
    ensures
        r == has_login(logins@, name@),
{
    let mut i: usize = 0;
    while i < logins.len()
        invariant
            i <= logins@.len(),
            forall|j: int| 0 <= j < i ==> (#[trigger] logins@[j])@ != name@,
        decreases logins@.len() - i,
    {
        if *logins[i].as_str() == *name {
            return true;
        }
        i = i + 1;
    }
    false
}

} // verus!
