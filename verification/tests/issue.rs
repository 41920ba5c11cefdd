use gh_lens::datetime::DateTime;
use gh_lens::issue::{Issue, IssueComment, TimelineItem};

fn dt(secs: i64) -> DateTime {
    DateTime::new(secs)
}

fn issue_comment(author: Option<&str>) -> IssueComment {
    IssueComment::new(author.map(|s| s.to_string()))
}

fn closed_event(actor: Option<&str>, at: DateTime) -> TimelineItem {
    TimelineItem::ClosedEvent { actor: actor.map(|s| s.to_string()), created_at: at }
}

struct IssueParam<'a> {
    url: &'a str,
    author: Option<&'a str>,
    created_at: DateTime,
    closed_at: Option<DateTime>,
    comments: Vec<IssueComment>,
    timeline_items: Vec<TimelineItem>,
    assignees: Vec<String>,
    participants: Vec<String>,
}

impl<'a> Default for IssueParam<'a> {
    fn default() -> Self {
        IssueParam {
            url: "",
            author: None,
            created_at: dt(0),
            closed_at: None,
            comments: vec![],
            timeline_items: vec![],
            assignees: vec![],
            participants: vec![],
        }
    }
}

fn issue(param: IssueParam) -> Issue {
    Issue::new(
        param.url.to_string(),
        param.author.map(|s| s.to_string()),
        param.created_at,
        param.closed_at,
        param.comments,
        param.timeline_items,
        param.assignees,
        param.participants,
    )
}

#[test]
fn issue_test_url() {
    let want = "test".to_string();
    let issue = issue(IssueParam { url: "test", ..Default::default() });

    let got = issue.url();
    assert_eq!(want, got);
}

#[test]
fn issue_test_author() {
    struct Case<'a> {
        author: Option<&'a str>,
        want: &'a str,
    }
    let cases = [
        Case { author: Some("test"), want: "test" },
        Case { author: None, want: "no-author" },
    ];
    for case in cases {
        let issue = issue(IssueParam { author: case.author, ..Default::default() });

        let got = issue.author();
        assert_eq!(case.want, got);
    }
}

#[test]
fn test_assignees() {
    let assignee_a = "a".to_string();
    let assignee_b = "b".to_string();
    let issue = issue(IssueParam {
        assignees: vec![assignee_a.clone(), assignee_b.clone()],
        ..Default::default()
    });

    let want = Some(vec![assignee_a.clone(), assignee_b.clone()]);
    let got = issue.assignees();
    assert_eq!(want, got);
}

#[test]
fn test_assignees_empty_is_none() {
    let issue = issue(IssueParam { ..Default::default() });
    assert_eq!(None, issue.assignees());
}

#[test]
fn test_participants() {
    let participant_a = "a".to_string();
    let participant_b = "b".to_string();
    let issue = issue(IssueParam {
        participants: vec![participant_a.clone(), participant_b.clone()],
        ..Default::default()
    });

    let want = Some(vec![participant_a.clone(), participant_b.clone()]);
    let got = issue.participants();
    assert_eq!(want, got);
}

#[test]
fn issue_test_created_at() {
    let want = dt(1_732_276_496);
    let issue = issue(IssueParam { created_at: want, ..Default::default() });

    let got = issue.created_at();
    assert_eq!(want, got);
}

#[test]
fn issue_test_comments_count() {
    let comments = vec![issue_comment(Some("someone_a")), issue_comment(Some("someone_b"))];
    let issue = issue(IssueParam { comments, ..Default::default() });

    let want = 2;
    let got = issue.comments_count();
    assert_eq!(want, got);
}

#[test]
fn issue_test_comments_count_by() {
    let by_name = "by".to_string();
    let comments = vec![issue_comment(Some("someone_a")), issue_comment(Some(&by_name))];
    let issue = issue(IssueParam { comments, ..Default::default() });

    let want = 1;
    let got = issue.comments_count_by(&by_name);
    assert_eq!(want, got);
}

#[test]
fn test_closed_at() {
    let want = dt(1_732_276_496);
    let issue = issue(IssueParam { closed_at: Some(want), ..Default::default() });

    let got = issue.closed_at();
    assert_eq!(want, got.unwrap());
}

#[test]
fn test_closed_at_by() {
    let by_name = "by".to_string();
    let want = dt(1_732_276_496);
    let timeline_items = vec![closed_event(Some(&by_name), want)];
    let issue = issue(IssueParam { timeline_items, ..Default::default() });

    let got = issue.closed_at_by(&by_name);
    assert_eq!(want, got.unwrap());
}

#[test]
fn test_closed_at_by_only_first_event_counts() {
    // the first closing event belongs to someone else, so a later closing
    // event by the requested actor changes nothing
    let by_name = "by";
    let timeline_items = vec![
        TimelineItem::Other,
        closed_event(Some("someone-else"), dt(100)),
        closed_event(Some(by_name), dt(200)),
    ];
    let issue = issue(IssueParam { timeline_items, ..Default::default() });

    assert_eq!(None, issue.closed_at_by(by_name));
}

#[test]
fn test_closed_at_by_actorless_event() {
    let timeline_items = vec![closed_event(None, dt(100))];
    let issue = issue(IssueParam { timeline_items, ..Default::default() });

    assert_eq!(None, issue.closed_at_by("by"));
}
