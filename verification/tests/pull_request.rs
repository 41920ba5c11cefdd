use gh_lens::datetime::DateTime;
use gh_lens::pull_request::{Comment, PullRequest, Review, ReviewState};

fn dt(secs: i64) -> DateTime {
    DateTime::new(secs)
}

fn review(author: Option<&str>, state: ReviewState, body: &str, at: DateTime) -> Review {
    Review::new(author.map(|s| s.to_string()), state, body.to_string(), at)
}

fn comment(author: Option<&str>, at: DateTime) -> Comment {
    Comment::new(author.map(|s| s.to_string()), at)
}

struct PullRequestParam<'a> {
    url: &'a str,
    author: Option<&'a str>,
    created_at: DateTime,
    merged_at: Option<DateTime>,
    merged_by: Option<&'a str>,
    total_comments_count: i64,
    total_commits_count: i64,
    total_changed_files_count: i64,
    reviews: Vec<Review>,
    comments: Vec<Comment>,
}

impl<'a> Default for PullRequestParam<'a> {
    fn default() -> Self {
        PullRequestParam {
            url: "",
            author: None,
            created_at: dt(0),
            merged_at: None,
            merged_by: None,
            total_comments_count: 0,
            total_commits_count: 0,
            total_changed_files_count: 0,
            reviews: vec![],
            comments: vec![],
        }
    }
}

fn pull_request(param: PullRequestParam) -> PullRequest {
    PullRequest::new(
        param.url.to_string(),
        param.author.map(|s| s.to_string()),
        param.created_at,
        param.merged_at,
        param.merged_by.map(|s| s.to_string()),
        param.total_comments_count,
        param.total_commits_count,
        param.total_changed_files_count,
        param.reviews,
        param.comments,
    )
}

#[test]
fn pull_request_test_url() {
    let want = "test".to_string();
    let pr = pull_request(PullRequestParam { url: "test", ..Default::default() });

    let got = pr.url();
    assert_eq!(want, got);
}

#[test]
fn pull_request_test_author() {
    struct Case<'a> {
        author: Option<&'a str>,
        want: &'a str,
    }
    let cases = [
        Case { author: Some("test"), want: "test" },
        Case { author: None, want: "no-author" },
    ];
    for case in cases {
        let pr = pull_request(PullRequestParam { author: case.author, ..Default::default() });

        let got = pr.author();
        assert_eq!(case.want, got);
    }
}

#[test]
fn pull_request_test_comments_count() {
    // four review entries and six comment entries: every entry counts,
    // whatever the review state
    let reviews = vec![
        review(Some("a"), ReviewState::Commented, "", dt(0)),
        review(Some("b"), ReviewState::Approved, "", dt(0)),
        review(None, ReviewState::Other, "", dt(0)),
        review(Some("c"), ReviewState::Commented, "x", dt(0)),
    ];
    let comments = (0..6).map(|i| comment(Some("d"), dt(i))).collect();
    let pr = pull_request(PullRequestParam { reviews, comments, ..Default::default() });

    let want = 10;
    let got = pr.comments_count();
    assert_eq!(want, got);
}

#[test]
fn pull_request_test_comments_count_by() {
    let by = "test".to_string();
    let comments = vec![
        comment(Some(&by), dt(0)),
        comment(Some("other"), dt(0)),
    ];
    let reviews = vec![
        review(Some(&by), ReviewState::Commented, "", dt(0)),
        review(Some("other1"), ReviewState::Commented, "", dt(0)),
        review(Some("other2"), ReviewState::Commented, "", dt(0)),
    ];
    let pr = pull_request(PullRequestParam { comments, reviews, ..Default::default() });

    let want = 2;
    let got = pr.comments_count_by(&by);
    assert_eq!(want, got);
}

#[test]
fn test_commits_count() {
    let want = 10;
    let pr = pull_request(PullRequestParam { total_commits_count: want, ..Default::default() });

    let got = pr.commits_count();
    assert_eq!(want, got);
}

#[test]
fn test_commits_count_by() {
    let by = "test".to_string();
    struct Case<'a> {
        author: Option<&'a str>,
        commits: i64,
        want: i64,
    }
    let cases = [
        Case { author: Some("test"), commits: 10, want: 10 },
        Case { author: None, commits: 10, want: 0 },
    ];
    for case in cases {
        let pr = pull_request(PullRequestParam {
            author: case.author,
            total_commits_count: case.commits,
            ..Default::default()
        });

        let got = pr.commits_count_by(&by);
        assert_eq!(case.want, got);
    }
}

#[test]
fn pull_request_test_changed_files_count() {
    let want = 10;
    let pr = pull_request(PullRequestParam {
        total_changed_files_count: want,
        ..Default::default()
    });

    let got = pr.changed_files_count();
    assert_eq!(want, got);
}

#[test]
fn pull_request_test_changed_files_count_by() {
    let by = "test".to_string();
    struct Case<'a> {
        author: Option<&'a str>,
        changed_files_count: i64,
        want: i64,
    }
    let cases = [
        Case { author: Some("test"), changed_files_count: 10, want: 10 },
        Case { author: None, changed_files_count: 10, want: 0 },
    ];
    for case in cases {
        let pr = pull_request(PullRequestParam {
            author: case.author,
            total_changed_files_count: case.changed_files_count,
            ..Default::default()
        });

        let got = pr.changed_files_count_by(&by);
        assert_eq!(case.want, got);
    }
}

#[test]
fn test_reviewee_comments_count() {
    let author_name = "author";
    let comments = vec![
        comment(Some(author_name), dt(0)),
        comment(Some("other"), dt(0)),
    ];
    let reviews = vec![
        review(Some(author_name), ReviewState::Commented, "", dt(0)),
        review(Some("other1"), ReviewState::Commented, "", dt(0)),
    ];
    let pr = pull_request(PullRequestParam {
        author: Some(author_name),
        comments,
        reviews,
        ..Default::default()
    });

    let want = 2;
    let got = pr.reviewee_comments_count();
    assert_eq!(want, got);
}

#[test]
fn test_reviewee_comments_count_by() {
    let author_name = "author";
    let not_author_name = "not-author";
    struct Case<'a> {
        name: &'a str,
        by_name: &'a str,
        comments: Vec<Comment>,
        reviews: Vec<Review>,
        want: i64,
    }
    let cases = [
        Case {
            name: "by is author",
            by_name: author_name,
            comments: vec![comment(None, dt(0)), comment(Some(author_name), dt(0))],
            reviews: vec![
                review(Some(author_name), ReviewState::Commented, "", dt(0)),
                review(None, ReviewState::Commented, "", dt(0)),
            ],
            want: 2,
        },
        Case {
            name: "by is not author",
            by_name: not_author_name,
            comments: vec![comment(Some(author_name), dt(0)), comment(None, dt(0))],
            reviews: vec![
                review(Some(author_name), ReviewState::Commented, "", dt(0)),
                review(None, ReviewState::Commented, "", dt(0)),
            ],
            want: 0,
        },
    ];
    for case in cases {
        let pr = pull_request(PullRequestParam {
            author: Some(author_name),
            comments: case.comments,
            reviews: case.reviews,
            ..Default::default()
        });

        let got = pr.reviewee_comments_count_by(case.by_name);
        assert_eq!(case.want, got, "{}", case.name);
    }
}

#[test]
fn test_reviewer_comments_count() {
    let author_name = "author";
    let comments = vec![
        comment(Some(author_name), dt(0)),
        comment(Some("other"), dt(0)),
    ];
    let reviews = vec![
        review(Some(author_name), ReviewState::Commented, "", dt(0)),
        review(Some("other1"), ReviewState::Commented, "", dt(0)),
        review(Some("other2"), ReviewState::Commented, "", dt(0)),
    ];
    let pr = pull_request(PullRequestParam {
        author: Some(author_name),
        comments,
        reviews,
        ..Default::default()
    });

    let want = 3;
    let got = pr.reviewer_comments_count();
    assert_eq!(want, got);
}

#[test]
fn test_reviewer_comments_count_excludes_bare_approval() {
    let author_name = "author";
    let reviews = vec![
        review(Some("other1"), ReviewState::Approved, "", dt(0)),
        review(Some("other2"), ReviewState::Approved, "looks good", dt(0)),
        review(Some("other3"), ReviewState::Commented, "", dt(0)),
    ];
    let pr = pull_request(PullRequestParam {
        author: Some(author_name),
        reviews,
        ..Default::default()
    });

    // the bare approval is excluded; the approval with a body and the
    // plain comment review both count
    assert_eq!(2, pr.reviewer_comments_count());
}

#[test]
fn test_reviewer_comments_count_by() {
    let author_name = "author";
    let not_author_name_a = "not-author-a";
    let not_author_name_b = "not-author-b";
    struct Case<'a> {
        name: &'a str,
        by_name: &'a str,
        comments: Vec<Comment>,
        reviews: Vec<Review>,
        want: i64,
    }
    let cases = [
        Case {
            name: "by is author",
            by_name: author_name,
            comments: vec![comment(None, dt(0)), comment(Some(author_name), dt(0))],
            reviews: vec![
                review(Some(author_name), ReviewState::Commented, "", dt(0)),
                review(None, ReviewState::Commented, "", dt(0)),
            ],
            want: 0,
        },
        Case {
            name: "by is not-author-a",
            by_name: not_author_name_a,
            comments: vec![
                comment(Some(author_name), dt(0)),
                comment(Some(not_author_name_a), dt(0)),
            ],
            reviews: vec![
                review(Some(not_author_name_a), ReviewState::Commented, "", dt(0)),
                review(Some(not_author_name_b), ReviewState::Commented, "", dt(0)),
            ],
            want: 2,
        },
    ];
    for case in cases {
        let pr = pull_request(PullRequestParam {
            author: Some(author_name),
            comments: case.comments,
            reviews: case.reviews,
            ..Default::default()
        });

        let got = pr.reviewer_comments_count_by(case.by_name);
        assert_eq!(case.want, got, "{}", case.name);
    }
}

#[test]
fn pull_request_test_created_at() {
    let want = dt(1_732_276_496);
    let pr = pull_request(PullRequestParam { created_at: want, ..Default::default() });

    let got = pr.created_at();
    assert_eq!(want, got);
}

#[test]
fn test_first_contacted_at() {
    let author_name = "author";
    let want = dt(1_732_276_496);

    struct Case {
        comments: Vec<Comment>,
        reviews: Vec<Review>,
        want: Option<DateTime>,
    }
    let cases = [
        Case {
            comments: vec![comment(None, dt(0)), comment(Some("other"), want)],
            reviews: vec![
                review(None, ReviewState::Commented, "", dt(0)),
                review(None, ReviewState::Commented, "", dt(0)),
            ],
            want: Some(want),
        },
        Case {
            comments: vec![comment(None, dt(0)), comment(None, dt(0))],
            reviews: vec![
                review(Some("other"), ReviewState::Commented, "", want),
                review(None, ReviewState::Commented, "", dt(0)),
            ],
            want: Some(want),
        },
        Case {
            comments: vec![comment(None, dt(0)), comment(None, dt(0))],
            reviews: vec![
                review(None, ReviewState::Commented, "", dt(0)),
                review(None, ReviewState::Commented, "", dt(0)),
            ],
            want: None,
        },
    ];
    for case in cases {
        let pr = pull_request(PullRequestParam {
            author: Some(author_name),
            comments: case.comments,
            reviews: case.reviews,
            ..Default::default()
        });

        let got = pr.first_contacted_at();
        assert_eq!(case.want, got);
    }
}

#[test]
fn test_first_contacted_at_minimum_of_both() {
    // when a non-author review and a non-author comment both exist the
    // earlier of the two first entries wins
    let pr = pull_request(PullRequestParam {
        author: Some("author"),
        comments: vec![comment(Some("other"), dt(500))],
        reviews: vec![review(Some("other"), ReviewState::Commented, "", dt(800))],
        ..Default::default()
    });
    assert_eq!(Some(dt(500)), pr.first_contacted_at());

    let pr = pull_request(PullRequestParam {
        author: Some("author"),
        comments: vec![comment(Some("other"), dt(900))],
        reviews: vec![review(Some("other"), ReviewState::Commented, "", dt(300))],
        ..Default::default()
    });
    assert_eq!(Some(dt(300)), pr.first_contacted_at());
}

#[test]
fn test_first_contacted_at_by() {
    let author_name = "author";
    let by_name = "by";
    let now = 1_732_276_496;
    let want_day_before = dt(now - 86_400);
    let want = dt(now);

    struct Case {
        comments: Vec<Comment>,
        reviews: Vec<Review>,
        want: Option<DateTime>,
    }
    let cases = [
        Case {
            comments: vec![
                comment(Some("other"), want_day_before),
                comment(Some(by_name), want),
            ],
            reviews: vec![
                review(None, ReviewState::Commented, "", dt(0)),
                review(None, ReviewState::Commented, "", dt(0)),
            ],
            want: Some(want),
        },
        Case {
            comments: vec![comment(None, dt(0)), comment(None, dt(0))],
            reviews: vec![
                review(Some("other"), ReviewState::Commented, "", want_day_before),
                review(Some(by_name), ReviewState::Commented, "", want),
            ],
            want: Some(want),
        },
        Case {
            comments: vec![comment(None, dt(0)), comment(None, dt(0))],
            reviews: vec![
                review(None, ReviewState::Commented, "", dt(0)),
                review(None, ReviewState::Commented, "", dt(0)),
            ],
            want: None,
        },
    ];
    for case in cases {
        let pr = pull_request(PullRequestParam {
            author: Some(author_name),
            comments: case.comments,
            reviews: case.reviews,
            ..Default::default()
        });

        let got = pr.first_contacted_at_by(by_name);
        assert_eq!(case.want, got);
    }
}

#[test]
fn test_approved_at() {
    let author_name = "author";
    let want = dt(1_732_276_496);

    struct Case<'a> {
        name: &'a str,
        reviews: Vec<Review>,
        want: Option<DateTime>,
    }
    let cases = [
        Case {
            name: "approve is not exist",
            reviews: vec![review(None, ReviewState::Commented, "", dt(0))],
            want: None,
        },
        Case {
            name: "approve exists",
            reviews: vec![review(None, ReviewState::Approved, "", want)],
            want: Some(want),
        },
    ];
    for case in cases {
        let pr = pull_request(PullRequestParam {
            author: Some(author_name),
            reviews: case.reviews,
            ..Default::default()
        });

        let got = pr.approved_at();
        assert_eq!(case.want, got, "{}", case.name);
    }
}

#[test]
fn test_approved_at_by() {
    let author_name = "author";
    let by_name = "by";
    let want = dt(1_732_276_496);

    struct Case<'a> {
        name: &'a str,
        reviews: Vec<Review>,
        want: Option<DateTime>,
    }
    let cases = [
        Case {
            name: "approve is not exist",
            reviews: vec![review(None, ReviewState::Commented, "", dt(0))],
            want: None,
        },
        Case {
            name: "approve belongs to by is not exist",
            reviews: vec![review(Some("other"), ReviewState::Commented, "", dt(0))],
            want: None,
        },
        Case {
            name: "approve belongs to by exists",
            reviews: vec![review(Some(by_name), ReviewState::Approved, "", want)],
            want: Some(want),
        },
    ];
    for case in cases {
        let pr = pull_request(PullRequestParam {
            author: Some(author_name),
            reviews: case.reviews,
            ..Default::default()
        });

        let got = pr.approved_at_by(by_name);
        assert_eq!(case.want, got, "{}", case.name);
    }
}

#[test]
fn test_merged_at() {
    let now = dt(1_732_276_496);

    struct Case {
        merged_at: Option<DateTime>,
        want: Option<DateTime>,
    }
    let cases = [
        Case { merged_at: None, want: None },
        Case { merged_at: Some(now), want: Some(now) },
    ];
    for case in cases {
        let pr = pull_request(PullRequestParam { merged_at: case.merged_at, ..Default::default() });

        let got = pr.merged_at();
        assert_eq!(case.want, got);
    }
}

#[test]
fn test_merged_at_by() {
    let merged_by_name = "by";
    let now = dt(1_732_276_496);

    struct Case<'a> {
        name: &'a str,
        merged_at: Option<DateTime>,
        by: &'a str,
        want: Option<DateTime>,
    }
    let cases = [
        Case { name: "not merged", merged_at: None, by: merged_by_name, want: None },
        Case { name: "merged, but not belongs to by", merged_at: Some(now), by: "other", want: None },
        Case { name: "merged, and belongs to by", merged_at: Some(now), by: merged_by_name, want: Some(now) },
    ];
    for case in cases {
        let pr = pull_request(PullRequestParam {
            merged_by: Some(merged_by_name),
            merged_at: case.merged_at,
            ..Default::default()
        });

        let got = pr.merged_at_by(case.by);
        assert_eq!(case.want, got, "{}", case.name);
    }
}

#[test]
fn test_comments_count_by_adds_linearly() {
    // one matching comment entry and two matching review entries add up
    let by = "someone";
    let pr = pull_request(PullRequestParam {
        author: Some("author"),
        comments: vec![comment(Some(by), dt(0)), comment(Some("somebody-else"), dt(0))],
        reviews: vec![
            review(Some(by), ReviewState::Commented, "", dt(0)),
            review(Some(by), ReviewState::Approved, "ok", dt(0)),
        ],
        ..Default::default()
    });
    assert_eq!(3, pr.comments_count_by(by));
}

#[test]
fn test_first_contacted_at_earliest_within_kind() {
    // entries are not assumed chronological: the earliest non-author
    // timestamp wins, not the first entry in sequence order
    let pr = pull_request(PullRequestParam {
        author: Some("author"),
        reviews: vec![
            review(Some("other"), ReviewState::Commented, "", dt(10)),
            review(Some("other"), ReviewState::Commented, "", dt(5)),
        ],
        ..Default::default()
    });
    assert_eq!(Some(dt(5)), pr.first_contacted_at());
}

#[test]
fn test_first_contacted_at_by_earliest_within_kind() {
    let pr = pull_request(PullRequestParam {
        author: Some("author"),
        comments: vec![
            comment(Some("by"), dt(300)),
            comment(Some("by"), dt(100)),
            comment(Some("other"), dt(50)),
        ],
        ..Default::default()
    });
    assert_eq!(Some(dt(100)), pr.first_contacted_at_by("by"));
}
