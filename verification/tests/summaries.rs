use gh_lens::datetime::DateTime;
use gh_lens::issue::{Issue, IssueComment};
use gh_lens::issues::Issues;
use gh_lens::issues_summary::IssuesSummary;
use gh_lens::pull_request::{Comment, PullRequest, Review, ReviewState};
use gh_lens::pull_requests::PullRequests;
use gh_lens::pull_requests_summary::PullRequestsSummary;

fn dt(secs: i64) -> DateTime {
    DateTime::new(secs)
}

fn pr(author: Option<&str>, comments: Vec<Comment>, reviews: Vec<Review>) -> PullRequest {
    PullRequest::new(
        "https://example.invalid/pr".to_string(),
        author.map(|s| s.to_string()),
        dt(1_000),
        Some(dt(1_060)),
        author.map(|s| s.to_string()),
        3,
        2,
        5,
        reviews,
        comments,
    )
}

fn issue(author: Option<&str>, comments: Vec<IssueComment>) -> Issue {
    Issue::new(
        "https://example.invalid/issue".to_string(),
        author.map(|s| s.to_string()),
        dt(1_000),
        Some(dt(1_030)),
        comments,
        vec![],
        vec![],
        vec![],
    )
}

#[test]
fn test_pull_requests_summary_team() {
    let inner = vec![
        pr(
            Some("alice"),
            vec![Comment::new(Some("bob".to_string()), dt(1_010))],
            vec![Review::new(
                Some("bob".to_string()),
                ReviewState::Approved,
                "fine".to_string(),
                dt(1_020),
            )],
        ),
        pr(Some("bob"), vec![], vec![]),
    ];
    let prs = PullRequests { inner };

    let summary = PullRequestsSummary::new("2024-10-01".to_string(), "2024-10-31".to_string(), &prs);

    assert_eq!("2024-10-01", summary.start_date);
    assert_eq!("2024-10-31", summary.end_date);
    assert_eq!(2, summary.prs_count);
    assert_eq!(2, summary.comments_count_sum);
    assert_eq!(4, summary.commits_count_sum);
    assert_eq!(10, summary.changed_files_count_sum);
    assert_eq!(10, summary.time_to_first_contacted.total_seconds);
    assert_eq!(1, summary.time_to_first_contacted.included_count);
    assert_eq!(20, summary.time_to_approved.total_seconds);
    assert_eq!(1, summary.time_to_approved.included_count);
    assert_eq!(120, summary.time_to_merged.total_seconds);
    assert_eq!(2, summary.time_to_merged.included_count);

    assert_eq!(2, summary.prs_summaries.len());
    let first = &summary.prs_summaries[0];
    assert_eq!("alice", first.author);
    assert_eq!(2, first.comments_count);
    assert_eq!(0, first.reviewee_comments_count);
    assert_eq!(2, first.reviewer_comments_count);
    assert_eq!(Some(dt(1_010)), first.first_contacted_at);
    assert_eq!(Some(dt(1_020)), first.approved_at);
    assert_eq!(Some(dt(1_060)), first.merged_at);
}

#[test]
fn test_pull_requests_summary_individual() {
    let inner = vec![
        pr(
            Some("alice"),
            vec![Comment::new(Some("bob".to_string()), dt(1_010))],
            vec![],
        ),
        pr(Some("bob"), vec![], vec![]),
    ];
    let prs = PullRequests { inner };

    let summary = PullRequestsSummary::new_with_by(
        "2024-10-01".to_string(),
        "2024-10-31".to_string(),
        &prs,
        "bob",
    );

    assert_eq!(1, summary.prs_count);
    assert_eq!(1, summary.comments_count_sum);
    assert_eq!(2, summary.commits_count_sum);
    assert_eq!(5, summary.changed_files_count_sum);

    // one row per fetched record even where bob took no part in it
    assert_eq!(2, summary.prs_summaries.len());
    let on_alices = &summary.prs_summaries[0];
    assert_eq!("alice", on_alices.author);
    assert_eq!(1, on_alices.comments_count);
    assert_eq!(0, on_alices.reviewee_comments_count);
    assert_eq!(1, on_alices.reviewer_comments_count);
    assert_eq!(0, on_alices.commits_count);
    let on_bobs = &summary.prs_summaries[1];
    assert_eq!("bob", on_bobs.author);
    assert_eq!(0, on_bobs.comments_count);
    assert_eq!(2, on_bobs.commits_count);
}

#[test]
fn test_issues_summary_team() {
    let inner = vec![
        issue(
            Some("alice"),
            vec![
                IssueComment::new(Some("bob".to_string())),
                IssueComment::new(Some("alice".to_string())),
            ],
        ),
        issue(Some("bob"), vec![]),
    ];
    let issues = Issues { inner };

    let summary = IssuesSummary::new("2024-10-01".to_string(), "2024-10-31".to_string(), &issues);

    assert_eq!(2, summary.issues_count);
    assert_eq!(0, summary.assigns_count);
    assert_eq!(2, summary.comments_count_sum);
    assert_eq!(60, summary.time_to_closed.total_seconds);
    assert_eq!(2, summary.time_to_closed.included_count);
    assert_eq!(2, summary.issues_summaries.len());
    assert_eq!("alice", summary.issues_summaries[0].author);
    assert_eq!(None, summary.issues_summaries[0].assignees);
    assert_eq!(2, summary.issues_summaries[0].comments_count);
}

#[test]
fn test_issues_summary_individual() {
    let inner = vec![
        issue(
            Some("alice"),
            vec![
                IssueComment::new(Some("bob".to_string())),
                IssueComment::new(Some("alice".to_string())),
            ],
        ),
        issue(Some("bob"), vec![]),
    ];
    let issues = Issues { inner };

    let summary = IssuesSummary::new_with_by(
        "2024-10-01".to_string(),
        "2024-10-31".to_string(),
        &issues,
        "bob",
    );

    assert_eq!(1, summary.issues_count);
    assert_eq!(1, summary.comments_count_sum);
    assert_eq!(2, summary.issues_summaries.len());
    assert_eq!(1, summary.issues_summaries[0].comments_count);
    assert_eq!(0, summary.issues_summaries[1].comments_count);
}

#[test]
fn test_individual_counts_sum_to_team_count() {
    // building the team summary and one individual summary per distinct
    // author: the individual record counts sum to the team record count
    let inner = vec![
        pr(Some("alice"), vec![], vec![]),
        pr(Some("bob"), vec![], vec![]),
        pr(Some("alice"), vec![], vec![]),
        pr(None, vec![], vec![]),
    ];
    let prs = PullRequests { inner };

    let team = PullRequestsSummary::new("a".to_string(), "b".to_string(), &prs);

    let actors = ["alice", "bob", "no-author"];
    let mut individual_total = 0;
    for actor in actors {
        let one = PullRequestsSummary::new_with_by("a".to_string(), "b".to_string(), &prs, actor);
        individual_total += one.prs_count;
    }
    assert_eq!(team.prs_count, individual_total);

    let issues = Issues {
        inner: vec![issue(Some("alice"), vec![]), issue(Some("bob"), vec![])],
    };
    let team = IssuesSummary::new("a".to_string(), "b".to_string(), &issues);
    let mut individual_total = 0;
    for actor in ["alice", "bob"] {
        let one = IssuesSummary::new_with_by("a".to_string(), "b".to_string(), &issues, actor);
        individual_total += one.issues_count;
    }
    assert_eq!(team.issues_count, individual_total);
}
