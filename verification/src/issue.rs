//! One fetched issue and its derived fields: assignee and participant
//! lists, per-actor comment counts, and attribution of the closing event to
//! the actor who performed it.

use vstd::prelude::*;

use crate::aggregate::{
    count_where, find_first, lemma_count_where_take_succ, lemma_find_first_skip_succ,
};
use crate::datetime::DateTime;
use crate::pull_request::login_or_sentinel;

verus! {

/// One comment entry on an issue: only authorship matters to the
/// statistics.
pub struct IssueComment {
    pub author: Option<String>,
}

impl IssueComment {
    pub fn new(author: Option<String>) -> (r: IssueComment)
        ensures
            r.author == author,
    {
        IssueComment { author }
    }
}

/// One timeline entry. Only closing events carry meaning here; every other
/// entry kind is collapsed into `Other` and ignored.
pub enum TimelineItem {
    ClosedEvent { actor: Option<String>, created_at: DateTime },
    Other,
}

/// Timeline entries that record the issue being closed.
pub open spec fn timeline_closed_event() -> spec_fn(TimelineItem) -> bool {
    |t: TimelineItem| t is ClosedEvent
}

/// Issue comment entries attributed to the login `name`.
pub open spec fn issue_comment_authored_by(name: Seq<char>) -> spec_fn(IssueComment) -> bool {
    |c: IssueComment| c.author is Some && c.author->0@ == name
}

/// One fetched issue. List fields are always materialized: a list that was
/// never fetched is handed to the library as an empty sequence.
pub struct Issue {
    pub url: String,
    pub author: Option<String>,
    pub created_at: DateTime,
    pub closed_at: Option<DateTime>,
    pub comments: Vec<IssueComment>,
    pub timeline_items: Vec<TimelineItem>,
    pub assignees: Vec<String>,
    pub participants: Vec<String>,
}

impl Issue {
    /// Few enough comment entries that their count fits the count type.
    pub open spec fn wf(self) -> bool {
        self.comments@.len() <= i64::MAX
    }

    /// The author login this record is attributed to, sentinel included.
    pub open spec fn spec_author(self) -> Seq<char> {
        login_or_sentinel(self.author)
    }

    pub open spec fn spec_comments_count_by(self, by: Seq<char>) -> int {
        count_where(self.comments@, issue_comment_authored_by(by))
    }

    /// The first closing event on the timeline, in sequence order; later
    /// closing events are never considered.
    pub open spec fn spec_first_closed_event(self) -> Option<TimelineItem> {
        find_first(self.timeline_items@, timeline_closed_event())
    }

    /// The first closing event's timestamp, but only when its actor is
    /// `by`.
    pub open spec fn spec_closed_at_by(self, by: Seq<char>) -> Option<DateTime> {
        match self.spec_first_closed_event() {
            Some(t) => if t->ClosedEvent_actor is Some && t->ClosedEvent_actor->0@ == by {
                Some(t->ClosedEvent_created_at)
            } else {
                None
            },
            None => None,
        }
    }

    pub fn new(
        url: String,
        author: Option<String>,
        created_at: DateTime,
        closed_at: Option<DateTime>,
        comments: Vec<IssueComment>,
        timeline_items: Vec<TimelineItem>,
        assignees: Vec<String>,
        participants: Vec<String>,
    ) -> (r: Issue)
        requires
            comments@.len() <= i64::MAX,
        ensures
            r.url == url,
            r.author == author,
            r.created_at == created_at,
            r.closed_at == closed_at,
            r.comments == comments,
            r.timeline_items == timeline_items,
            r.assignees == assignees,
            r.participants == participants,
            r.wf(),
    {
        Issue { url, author, created_at, closed_at, comments, timeline_items, assignees, participants }
    }

    pub fn url(&self) -> (r: String)
        ensures
            r == self.url,
    {
        self.url.clone()
    }

    pub fn author(&self) -> (r: String)
        ensures
            r@ == self.spec_author(),
    {
        match &self.author {
            Some(a) => a.clone(),
            None => "no-author".to_string(),
        }
    }

    /// The assignee logins, or nothing when the list is empty: an empty
    /// list and an absent one are reported the same way.
    pub fn assignees(&self) -> (r: Option<Vec<String>>)
        ensures
            self.assignees@.len() == 0 ==> r is None,
            self.assignees@.len() > 0 ==> r is Some && r->0@ == self.assignees@,
    {
        if self.assignees.len() == 0 {
            return None;
        }
        let mut result: Vec<String> = Vec::new();
        let mut i: usize = 0;
        while i < self.assignees.len()
            invariant
                i <= self.assignees@.len(),
                result@.len() == i,
                forall|j: int| 0 <= j < i ==> result@[j] == self.assignees@[j],
            decreases self.assignees@.len() - i,
        {
            result.push(self.assignees[i].clone());
            i = i + 1;
        }
        proof {
            assert(result@ =~= self.assignees@);
        }
        Some(result)
    }

    /// The participant logins, or nothing when the list is empty.
    pub fn participants(&self) -> (r: Option<Vec<String>>)
        ensures
            self.participants@.len() == 0 ==> r is None,
            self.participants@.len() > 0 ==> r is Some && r->0@ == self.participants@,
    {
        if self.participants.len() == 0 {
            return None;
        }
        let mut result: Vec<String> = Vec::new();
        let mut i: usize = 0;
        while i < self.participants.len()
            invariant
                i <= self.participants@.len(),
                result@.len() == i,
                forall|j: int| 0 <= j < i ==> result@[j] == self.participants@[j],
            decreases self.participants@.len() - i,
        {
            result.push(self.participants[i].clone());
            i = i + 1;
        }
        proof {
            assert(result@ =~= self.participants@);
        }
        Some(result)
    }

    pub fn created_at(&self) -> (r: DateTime)
        ensures
            r == self.created_at,
    {
        self.created_at
    }

    pub fn comments_count(&self) -> (r: i64)
        requires
            self.wf(),
        ensures
            r == self.comments@.len(),
    {
        self.comments.len() as i64
    }

    pub fn comments_count_by(&self, by: &str) -> (r: i64)
        requires
            self.wf(),
        ensures
            r == self.spec_comments_count_by(by@),
    {
        let mut n: usize = 0;
        let mut i: usize = 0;
        while i < self.comments.len()
            invariant
                i <= self.comments@.len(),
                n <= i,
                n == count_where(self.comments@.take(i as int), issue_comment_authored_by(by@)),
            decreases self.comments@.len() - i,
        {
            proof {
                lemma_count_where_take_succ(self.comments@, issue_comment_authored_by(by@), i as int);
            }
            let hit = match &self.comments[i].author {
                Some(a) => *a.as_str() == *by,
                None => false,
            };
            proof {
                assert(hit == issue_comment_authored_by(by@)(self.comments@[i as int]));
            }
            if hit {
                n = n + 1;
            }
            i = i + 1;
        }
        proof {
            assert(self.comments@.take(self.comments@.len() as int) =~= self.comments@);
        }
        n as i64
    }

    pub fn closed_at(&self) -> (r: Option<DateTime>)
        ensures
            r == self.closed_at,
    {
        self.closed_at
    }

    /// The first closing event's timestamp when its actor is `by`; a later
    /// closing event by `by` is never considered.
    pub fn closed_at_by(&self, by: &str) -> (r: Option<DateTime>)
        ensures
            r == self.spec_closed_at_by(by@),
    {
        match find_closed_event(&self.timeline_items) {
            Some(i) => match &self.timeline_items[i] {
                TimelineItem::ClosedEvent { actor, created_at } => match actor {
                    Some(a) => if *a.as_str() == *by {
                        Some(*created_at)
                    } else {
                        None
                    },
                    None => None,
                },
                TimelineItem::Other => None,
            },
            None => None,
        }
    }
}

fn find_closed_event(items: &Vec<TimelineItem>) -> (r: Option<usize>)
    ensures
        match r {
            Some(i) => i < items@.len() && items@[i as int] is ClosedEvent && find_first(
                items@,
                timeline_closed_event(),
            ) == Some(items@[i as int]),
            None => find_first(items@, timeline_closed_event()) is None,
        },
{
    let mut i: usize = 0;
    proof {
        assert(items@.skip(0) =~= items@);
    }
    while i < items.len()
        invariant
            i <= items@.len(),
            find_first(items@, timeline_closed_event()) == find_first(
                items@.skip(i as int),
                timeline_closed_event(),
            ),
        decreases items@.len() - i,
    {
        let hit = match &items[i] {
            TimelineItem::ClosedEvent { .. } => true,
            TimelineItem::Other => false,
        };
        proof {
            assert(hit == timeline_closed_event()(items@[i as int]));
            assert(items@.skip(i as int)[0] == items@[i as int]);
        }
        if hit {
            return Some(i);
        }
        proof {
            lemma_find_first_skip_succ(items@, timeline_closed_event(), i as int);
        }
        i = i + 1;
    }
    proof {
        assert(items@.skip(items@.len() as int).len() == 0);
    }
    None
}

} // verus!
