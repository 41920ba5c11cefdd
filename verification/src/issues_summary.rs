//! The reportable issue summary of one window: the window bounds, the
//! scalar aggregates, and one projection row per fetched record, built the
//! same way as the pull-request summary.

use vstd::prelude::*;

use crate::aggregate::{count_where, sum_of};
use crate::datetime::DateTime;
use crate::issue::Issue;
use crate::issues::{
    issue_closed, issue_closed_by, issue_closed_by_elapsed, issue_closed_elapsed, Issues,
};
use crate::pull_requests::{elapsed_fits, TimeAggregate};

verus! {

/// One row of the report: the derived fields of a single issue.
pub struct IssueSummary {
    pub url: String,
    pub author: String,
    pub assignees: Option<Vec<String>>,
    pub participants: Option<Vec<String>>,
    pub comments_count: i64,
    pub created_at: DateTime,
    pub closed_at: Option<DateTime>,
}

/// The login lists of a row collapse an empty list to nothing.
pub open spec fn logins_match(reported: Option<Vec<String>>, logins: Seq<String>) -> bool {
    &&& logins.len() == 0 ==> reported is None
    &&& logins.len() > 0 ==> reported is Some && reported->0@ == logins
}

/// The row holds exactly the record's team-scope derived fields.
pub open spec fn row_matches(row: IssueSummary, iss: Issue) -> bool {
    &&& row.url@ == iss.url@
    &&& row.author@ == iss.spec_author()
    &&& logins_match(row.assignees, iss.assignees@)
    &&& logins_match(row.participants, iss.participants@)
    &&& row.comments_count == iss.comments@.len()
    &&& row.created_at == iss.created_at
    &&& row.closed_at == iss.closed_at
}

/// The row holds exactly the record's derived fields restricted to `by`.
/// The login lists are not restricted; only the counts and the closing
/// attribution are.
pub open spec fn row_matches_by(row: IssueSummary, iss: Issue, by: Seq<char>) -> bool {
    &&& row.url@ == iss.url@
    &&& row.author@ == iss.spec_author()
    &&& logins_match(row.assignees, iss.assignees@)
    &&& logins_match(row.participants, iss.participants@)
    &&& row.comments_count == iss.spec_comments_count_by(by)
    &&& row.created_at == iss.created_at
    &&& row.closed_at == iss.spec_closed_at_by(by)
}

/// The issue report of one window. The elapsed-time aggregate is kept as
/// total and count; the serialization layer divides them.
pub struct IssuesSummary {
    pub start_date: String,
    pub end_date: String,
    pub issues_count: i64,
    pub assigns_count: i64,
    pub comments_count_sum: i64,
    pub time_to_closed: TimeAggregate,
    pub issues_summaries: Vec<IssueSummary>,
}

impl IssuesSummary {
    /// Builds the team-scope summary: unrestricted aggregates, and one row
    /// of unrestricted derived fields per record.
    pub fn new(start_date: String, end_date: String, issues: &Issues) -> (r: IssuesSummary)
        requires
            issues.wf(),
            i64::MIN <= issues.spec_comments_count() <= i64::MAX,
            forall|j: int|
                0 <= j < issues.inner@.len() ==> elapsed_fits(
                    (#[trigger] issues.inner@[j]).closed_at,
                    issues.inner@[j].created_at,
                ),
            i64::MIN <= sum_of(issues.inner@, issue_closed_elapsed()) <= i64::MAX,
        ensures
            r.start_date == start_date,
            r.end_date == end_date,
            r.issues_count == issues.inner@.len(),
            r.assigns_count == issues.spec_assigns_count(),
            r.comments_count_sum == issues.spec_comments_count(),
            r.time_to_closed.total_seconds == sum_of(issues.inner@, issue_closed_elapsed()),
            r.time_to_closed.included_count == count_where(issues.inner@, issue_closed()),
            r.issues_summaries@.len() == issues.inner@.len(),
            forall|i: int|
                0 <= i < issues.inner@.len() ==> row_matches(
                    #[trigger] r.issues_summaries@[i],
                    issues.inner@[i],
                ),
    {
        let mut rows: Vec<IssueSummary> = Vec::new();
        let mut i: usize = 0;
        while i < issues.inner.len()
            invariant
                i <= issues.inner@.len(),
                rows@.len() == i,
                issues.wf(),
                forall|j: int| 0 <= j < i ==> row_matches(#[trigger] rows@[j], issues.inner@[j]),
            decreases issues.inner@.len() - i,
        {
            proof {
                assert(issues.inner@[i as int].wf());
            }
            let issue = &issues.inner[i];
            rows.push(
                IssueSummary {
                    url: issue.url(),
                    author: issue.author(),
                    assignees: issue.assignees(),
                    participants: issue.participants(),
                    comments_count: issue.comments_count(),
                    created_at: issue.created_at(),
                    closed_at: issue.closed_at(),
                },
            );
            i = i + 1;
        }
        IssuesSummary {
            start_date,
            end_date,
            issues_count: issues.count(),
            assigns_count: issues.assigns_count(),
            comments_count_sum: issues.comments_count(),
            time_to_closed: issues.time_to_closed_stats(),
            issues_summaries: rows,
        }
    }

    /// Builds one individual's summary: actor-restricted aggregates, and
    /// still one row per fetched record.
    pub fn new_with_by(start_date: String, end_date: String, issues: &Issues, by: &str) -> (r:
        IssuesSummary)
        requires
            issues.wf(),
            i64::MIN <= issues.spec_comments_count_by(by@) <= i64::MAX,
            forall|j: int|
                0 <= j < issues.inner@.len() ==> elapsed_fits(
                    (#[trigger] issues.inner@[j]).spec_closed_at_by(by@),
                    issues.inner@[j].created_at,
                ),
            i64::MIN <= sum_of(issues.inner@, issue_closed_by_elapsed(by@)) <= i64::MAX,
        ensures
            r.start_date == start_date,
            r.end_date == end_date,
            r.issues_count == issues.spec_count_by(by@),
            r.assigns_count == issues.spec_assigns_count_by(by@),
            r.comments_count_sum == issues.spec_comments_count_by(by@),
            r.time_to_closed.total_seconds == sum_of(issues.inner@, issue_closed_by_elapsed(by@)),
            r.time_to_closed.included_count == count_where(issues.inner@, issue_closed_by(by@)),
            r.issues_summaries@.len() == issues.inner@.len(),
            forall|i: int|
                0 <= i < issues.inner@.len() ==> row_matches_by(
                    #[trigger] r.issues_summaries@[i],
                    issues.inner@[i],
                    by@,
                ),
    {
        let mut rows: Vec<IssueSummary> = Vec::new();
        let mut i: usize = 0;
        while i < issues.inner.len()
            invariant
                i <= issues.inner@.len(),
                rows@.len() == i,
                issues.wf(),
                forall|j: int|
                    0 <= j < i ==> row_matches_by(#[trigger] rows@[j], issues.inner@[j], by@),
            decreases issues.inner@.len() - i,
        {
            proof {
                assert(issues.inner@[i as int].wf());
            }
            let issue = &issues.inner[i];
            rows.push(
                IssueSummary {
                    url: issue.url(),
                    author: issue.author(),
                    assignees: issue.assignees(),
                    participants: issue.participants(),
                    comments_count: issue.comments_count_by(by),
                    created_at: issue.created_at(),
                    closed_at: issue.closed_at_by(by),
                },
            );
            i = i + 1;
        }
        IssuesSummary {
            start_date,
            end_date,
            issues_count: issues.count_by(by),
            assigns_count: issues.assigns_count_by(by),
            comments_count_sum: issues.comments_count_by(by),
            time_to_closed: issues.time_to_closed_stats_by(by),
            issues_summaries: rows,
        }
    }
}

} // verus!
