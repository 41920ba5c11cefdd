//! The reportable pull-request summary of one window: the window bounds,
//! the scalar aggregates, and one projection row per fetched record. A
//! summary is fully computed at construction and never updated afterwards:
//! the rows are built first, the aggregates derived in one pass.

use vstd::prelude::*;

use crate::aggregate::{count_where, sum_of};
use crate::datetime::DateTime;
use crate::pull_request::PullRequest;
use crate::pull_requests::{
    elapsed_fits, pr_approved, pr_approved_by, pr_approved_by_elapsed, pr_approved_elapsed,
    pr_first_contacted, pr_first_contacted_by, pr_first_contacted_by_elapsed,
    pr_first_contacted_elapsed, pr_merged, pr_merged_by, pr_merged_by_elapsed, pr_merged_elapsed,
    PullRequests, TimeAggregate,
};

verus! {

/// One row of the report: the derived fields of a single pull request.
pub struct PullRequestSummary {
    pub url: String,
    pub author: String,
    pub comments_count: i64,
    pub reviewee_comments_count: i64,
    pub reviewer_comments_count: i64,
    pub commits_count: i64,
    pub changed_files_count: i64,
    pub created_at: DateTime,
    pub first_contacted_at: Option<DateTime>,
    pub approved_at: Option<DateTime>,
    pub merged_at: Option<DateTime>,
}

/// The row holds exactly the record's team-scope derived fields.
pub open spec fn row_matches(row: PullRequestSummary, pr: PullRequest) -> bool {
    &&& row.url@ == pr.url@
    &&& row.author@ == pr.spec_author()
    &&& row.comments_count == pr.reviews@.len() + pr.comments@.len()
    &&& row.reviewee_comments_count == pr.spec_reviewee_comments_count()
    &&& row.reviewer_comments_count == pr.spec_reviewer_comments_count()
    &&& row.commits_count == pr.total_commits_count
    &&& row.changed_files_count == pr.total_changed_files_count
    &&& row.created_at == pr.created_at
    &&& row.first_contacted_at == pr.spec_first_contacted_at()
    &&& row.approved_at == pr.spec_approved_at()
    &&& row.merged_at == pr.merged_at
}

/// The row holds exactly the record's derived fields restricted to `by`.
pub open spec fn row_matches_by(row: PullRequestSummary, pr: PullRequest, by: Seq<char>) -> bool {
    &&& row.url@ == pr.url@
    &&& row.author@ == pr.spec_author()
    &&& row.comments_count == pr.spec_comments_count_by(by)
    &&& row.reviewee_comments_count == pr.spec_reviewee_comments_count_by(by)
    &&& row.reviewer_comments_count == pr.spec_reviewer_comments_count_by(by)
    &&& row.commits_count == pr.spec_commits_count_by(by)
    &&& row.changed_files_count == pr.spec_changed_files_count_by(by)
    &&& row.created_at == pr.created_at
    &&& row.first_contacted_at == pr.spec_first_contacted_at_by(by)
    &&& row.approved_at == pr.spec_approved_at_by(by)
    &&& row.merged_at == pr.spec_merged_at_by(by)
}

/// The pull-request report of one window. Elapsed-time aggregates are kept
/// as total and count; the serialization layer divides them.
pub struct PullRequestsSummary {
    pub start_date: String,
    pub end_date: String,
    pub prs_count: i64,
    pub comments_count_sum: i64,
    pub commits_count_sum: i64,
    pub changed_files_count_sum: i64,
    pub time_to_first_contacted: TimeAggregate,
    pub time_to_approved: TimeAggregate,
    pub time_to_merged: TimeAggregate,
    pub prs_summaries: Vec<PullRequestSummary>,
}

impl PullRequestsSummary {
    /// Builds the team-scope summary: unrestricted aggregates, and one row
    /// of unrestricted derived fields per record.
    pub fn new(start_date: String, end_date: String, pull_requests: &PullRequests) -> (r:
        PullRequestsSummary)
        requires
            pull_requests.wf(),
            i64::MIN <= pull_requests.spec_comments_count() <= i64::MAX,
            i64::MIN <= pull_requests.spec_commits_count() <= i64::MAX,
            i64::MIN <= pull_requests.spec_changed_files_count() <= i64::MAX,
            forall|j: int|
                0 <= j < pull_requests.inner@.len() ==> elapsed_fits(
                    (#[trigger] pull_requests.inner@[j]).spec_first_contacted_at(),
                    pull_requests.inner@[j].created_at,
                ),
            forall|j: int|
                0 <= j < pull_requests.inner@.len() ==> elapsed_fits(
                    (#[trigger] pull_requests.inner@[j]).spec_approved_at(),
                    pull_requests.inner@[j].created_at,
                ),
            forall|j: int|
                0 <= j < pull_requests.inner@.len() ==> elapsed_fits(
                    (#[trigger] pull_requests.inner@[j]).merged_at,
                    pull_requests.inner@[j].created_at,
                ),
            i64::MIN <= sum_of(pull_requests.inner@, pr_first_contacted_elapsed()) <= i64::MAX,
            i64::MIN <= sum_of(pull_requests.inner@, pr_approved_elapsed()) <= i64::MAX,
            i64::MIN <= sum_of(pull_requests.inner@, pr_merged_elapsed()) <= i64::MAX,
        ensures
            r.start_date == start_date,
            r.end_date == end_date,
            r.prs_count == pull_requests.inner@.len(),
            r.comments_count_sum == pull_requests.spec_comments_count(),
            r.commits_count_sum == pull_requests.spec_commits_count(),
            r.changed_files_count_sum == pull_requests.spec_changed_files_count(),
            r.time_to_first_contacted.total_seconds == sum_of(
                pull_requests.inner@,
                pr_first_contacted_elapsed(),
            ),
            r.time_to_first_contacted.included_count == count_where(
                pull_requests.inner@,
                pr_first_contacted(),
            ),
            r.time_to_approved.total_seconds == sum_of(
                pull_requests.inner@,
                pr_approved_elapsed(),
            ),
            r.time_to_approved.included_count == count_where(pull_requests.inner@, pr_approved()),
            r.time_to_merged.total_seconds == sum_of(pull_requests.inner@, pr_merged_elapsed()),
            r.time_to_merged.included_count == count_where(pull_requests.inner@, pr_merged()),
            r.prs_summaries@.len() == pull_requests.inner@.len(),
            forall|i: int|
                0 <= i < pull_requests.inner@.len() ==> row_matches(
                    #[trigger] r.prs_summaries@[i],
                    pull_requests.inner@[i],
                ),
    {
        let mut rows: Vec<PullRequestSummary> = Vec::new();
        let mut i: usize = 0;
        while i < pull_requests.inner.len()
            invariant
                i <= pull_requests.inner@.len(),
                rows@.len() == i,
                pull_requests.wf(),
                forall|j: int|
                    0 <= j < i ==> row_matches(
                        #[trigger] rows@[j],
                        pull_requests.inner@[j],
                    ),
            decreases pull_requests.inner@.len() - i,
        {
            proof {
                assert(pull_requests.inner@[i as int].wf());
            }
            let pr = &pull_requests.inner[i];
            rows.push(
                PullRequestSummary {
                    url: pr.url(),
                    author: pr.author(),
                    comments_count: pr.comments_count(),
                    reviewee_comments_count: pr.reviewee_comments_count(),
                    reviewer_comments_count: pr.reviewer_comments_count(),
                    commits_count: pr.commits_count(),
                    changed_files_count: pr.changed_files_count(),
                    created_at: pr.created_at(),
                    first_contacted_at: pr.first_contacted_at(),
                    approved_at: pr.approved_at(),
                    merged_at: pr.merged_at(),
                },
            );
            i = i + 1;
        }
        PullRequestsSummary {
            start_date,
            end_date,
            prs_count: pull_requests.count(),
            comments_count_sum: pull_requests.comments_count(),
            commits_count_sum: pull_requests.commits_count(),
            changed_files_count_sum: pull_requests.changed_files_count(),
            time_to_first_contacted: pull_requests.time_to_first_contacted_stats(),
            time_to_approved: pull_requests.time_to_approved_stats(),
            time_to_merged: pull_requests.time_to_merged_stats(),
            prs_summaries: rows,
        }
    }

    /// Builds one individual's summary: actor-restricted aggregates, and
    /// still one row per fetched record, with zero contributions where the
    /// individual took no part.
    pub fn new_with_by(
        start_date: String,
        end_date: String,
        pull_requests: &PullRequests,
        by: &str,
    ) -> (r: PullRequestsSummary)
        requires
            pull_requests.wf(),
            i64::MIN <= pull_requests.spec_comments_count_by(by@) <= i64::MAX,
            i64::MIN <= pull_requests.spec_commits_count_by(by@) <= i64::MAX,
            i64::MIN <= pull_requests.spec_changed_files_count_by(by@) <= i64::MAX,
            forall|j: int|
                0 <= j < pull_requests.inner@.len() ==> elapsed_fits(
                    (#[trigger] pull_requests.inner@[j]).spec_first_contacted_at_by(by@),
                    pull_requests.inner@[j].created_at,
                ),
            forall|j: int|
                0 <= j < pull_requests.inner@.len() ==> elapsed_fits(
                    (#[trigger] pull_requests.inner@[j]).spec_approved_at_by(by@),
                    pull_requests.inner@[j].created_at,
                ),
            forall|j: int|
                0 <= j < pull_requests.inner@.len() ==> elapsed_fits(
                    (#[trigger] pull_requests.inner@[j]).spec_merged_at_by(by@),
                    pull_requests.inner@[j].created_at,
                ),
            i64::MIN <= sum_of(pull_requests.inner@, pr_first_contacted_by_elapsed(by@))
                <= i64::MAX,
            i64::MIN <= sum_of(pull_requests.inner@, pr_approved_by_elapsed(by@)) <= i64::MAX,
            i64::MIN <= sum_of(pull_requests.inner@, pr_merged_by_elapsed(by@)) <= i64::MAX,
        ensures
            r.start_date == start_date,
            r.end_date == end_date,
            r.prs_count == pull_requests.spec_count_by(by@),
            r.comments_count_sum == pull_requests.spec_comments_count_by(by@),
            r.commits_count_sum == pull_requests.spec_commits_count_by(by@),
            r.changed_files_count_sum == pull_requests.spec_changed_files_count_by(by@),
            r.time_to_first_contacted.total_seconds == sum_of(
                pull_requests.inner@,
                pr_first_contacted_by_elapsed(by@),
            ),
            r.time_to_first_contacted.included_count == count_where(
                pull_requests.inner@,
                pr_first_contacted_by(by@),
            ),
            r.time_to_approved.total_seconds == sum_of(
                pull_requests.inner@,
                pr_approved_by_elapsed(by@),
            ),
            r.time_to_approved.included_count == count_where(
                pull_requests.inner@,
                pr_approved_by(by@),
            ),
            r.time_to_merged.total_seconds == sum_of(
                pull_requests.inner@,
                pr_merged_by_elapsed(by@),
            ),
            r.time_to_merged.included_count == count_where(
                pull_requests.inner@,
                pr_merged_by(by@),
            ),
            r.prs_summaries@.len() == pull_requests.inner@.len(),
            forall|i: int|
                0 <= i < pull_requests.inner@.len() ==> row_matches_by(
                    #[trigger] r.prs_summaries@[i],
                    pull_requests.inner@[i],
                    by@,
                ),
    {
        let mut rows: Vec<PullRequestSummary> = Vec::new();
        let mut i: usize = 0;
        while i < pull_requests.inner.len()
            invariant
                i <= pull_requests.inner@.len(),
                rows@.len() == i,
                pull_requests.wf(),
                forall|j: int|
                    0 <= j < i ==> row_matches_by(
                        #[trigger] rows@[j],
                        pull_requests.inner@[j],
                        by@,
                    ),
            decreases pull_requests.inner@.len() - i,
        {
            proof {
                assert(pull_requests.inner@[i as int].wf());
            }
            let pr = &pull_requests.inner[i];
            rows.push(
                PullRequestSummary {
                    url: pr.url(),
                    author: pr.author(),
                    comments_count: pr.comments_count_by(by),
                    reviewee_comments_count: pr.reviewee_comments_count_by(by),
                    reviewer_comments_count: pr.reviewer_comments_count_by(by),
                    commits_count: pr.commits_count_by(by),
                    changed_files_count: pr.changed_files_count_by(by),
                    created_at: pr.created_at(),
                    first_contacted_at: pr.first_contacted_at_by(by),
                    approved_at: pr.approved_at_by(by),
                    merged_at: pr.merged_at_by(by),
                },
            );
            i = i + 1;
        }
        PullRequestsSummary {
            start_date,
            end_date,
            prs_count: pull_requests.count_by(by),
            comments_count_sum: pull_requests.comments_count_by(by),
            commits_count_sum: pull_requests.commits_count_by(by),
            changed_files_count_sum: pull_requests.changed_files_count_by(by),
            time_to_first_contacted: pull_requests.time_to_first_contacted_stats_by(by),
            time_to_approved: pull_requests.time_to_approved_stats_by(by),
            time_to_merged: pull_requests.time_to_merged_stats_by(by),
            prs_summaries: rows,
        }
    }
}

} // verus!
