//! One fetched pull request and its derived fields: comment counts split
//! between the record's own author and everyone else, the first contact by
//! someone other than the author, the first approval, and the merge, each
//! with a variant restricted to a single actor.

use vstd::prelude::*;

use crate::aggregate::{
    count_where, earliest_at, find_first, lemma_count_where_bounds, lemma_count_where_take_succ,
    lemma_earliest_at_take_succ, lemma_find_first_skip_succ,
};
use crate::datetime::DateTime;

verus! {

/// The login a record is attributed to: the author's login where there is
/// one, otherwise the fixed sentinel, so grouping by actor never needs to
/// special-case missing authors.
pub open spec fn login_or_sentinel(a: Option<String>) -> Seq<char> {
    match a {
        Some(s) => s@,
        None => "no-author"@,
    }
}

/// The state a review was submitted in. Anything other than an approval or
/// a plain comment is collapsed into `Other`; the logic only ever
/// distinguishes approvals.
#[derive(Clone, Copy, PartialEq, Eq, Structural, Debug)]
pub enum ReviewState {
    Approved,
    Commented,
    Other,
}

/// One review entry: who submitted it, in which state, its body text, and
/// when it was created.
pub struct Review {
    pub author: Option<String>,
    pub state: ReviewState,
    pub body: String,
    pub created_at: DateTime,
}

/// One comment entry: who wrote it and when.
pub struct Comment {
    pub author: Option<String>,
    pub created_at: DateTime,
}

impl Review {
    pub fn new(
        author: Option<String>,
        state: ReviewState,
        body: String,
        created_at: DateTime,
    ) -> (r: Review)
        ensures
            r.author == author,
            r.state == state,
            r.body == body,
            r.created_at == created_at,
    {
        Review { author, state, body, created_at }
    }
}

impl Comment {
    pub fn new(author: Option<String>, created_at: DateTime) -> (r: Comment)
        ensures
            r.author == author,
            r.created_at == created_at,
    {
        Comment { author, created_at }
    }
}

/// Review entries attributed to the login `name`.
pub open spec fn review_authored_by(name: Seq<char>) -> spec_fn(Review) -> bool {
    |r: Review| r.author is Some && r.author->0@ == name
}

/// Comment entries attributed to the login `name`.
pub open spec fn comment_authored_by(name: Seq<char>) -> spec_fn(Comment) -> bool {
    |c: Comment| c.author is Some && c.author->0@ == name
}

/// Review entries by someone other than the record's author.
pub open spec fn review_contact(author: Seq<char>) -> spec_fn(Review) -> bool {
    |r: Review| r.author is Some && r.author->0@ != author
}

/// Comment entries by someone other than the record's author.
pub open spec fn comment_contact(author: Seq<char>) -> spec_fn(Comment) -> bool {
    |c: Comment| c.author is Some && c.author->0@ != author
}

/// Review entries by `by`, who must differ from the record's author.
pub open spec fn review_contact_by(author: Seq<char>, by: Seq<char>) -> spec_fn(Review) -> bool {
    |r: Review| r.author is Some && r.author->0@ != author && r.author->0@ == by
}

/// Comment entries by `by`, who must differ from the record's author.
pub open spec fn comment_contact_by(author: Seq<char>, by: Seq<char>) -> spec_fn(Comment) -> bool {
    |c: Comment| c.author is Some && c.author->0@ != author && c.author->0@ == by
}

/// The submission time of a review entry.
pub open spec fn review_time() -> spec_fn(Review) -> DateTime {
    |r: Review| r.created_at
}

/// The creation time of a comment entry.
pub open spec fn comment_time() -> spec_fn(Comment) -> DateTime {
    |c: Comment| c.created_at
}

/// Reviews in the approved state.
pub open spec fn review_approved() -> spec_fn(Review) -> bool {
    |r: Review| r.state is Approved
}

/// Review entries counted as comments on someone else's work: by someone
/// other than the record's author, and not a bare approval (approved state
/// with an empty body).
pub open spec fn review_counts_for_reviewer(author: Seq<char>) -> spec_fn(Review) -> bool {
    |r: Review|
        !(r.state is Approved && r.body@.len() == 0) && r.author is Some && r.author->0@ != author
}

/// The earlier of an optional review timestamp and an optional comment
/// timestamp: whichever is present, or the minimum when both are.
pub open spec fn earlier_of(reviewed_at: Option<DateTime>, commented_at: Option<DateTime>) -> Option<
    DateTime,
> {
    match (reviewed_at, commented_at) {
        (None, Some(c)) => Some(c),
        (Some(r), None) => Some(r),
        (Some(r), Some(c)) => if r.secs > c.secs {
            Some(c)
        } else {
            Some(r)
        },
        (None, None) => None,
    }
}

/// One fetched pull request. The review and comment sequences are always
/// materialized: a range that was never fetched is handed to the library as
/// an empty sequence. The platform-reported total comment count is carried
/// as fetched; the comment statistics count the entries themselves.
pub struct PullRequest {
    pub url: String,
    pub author: Option<String>,
    pub created_at: DateTime,
    pub merged_at: Option<DateTime>,
    pub merged_by: Option<String>,
    pub total_comments_count: i64,
    pub total_commits_count: i64,
    pub total_changed_files_count: i64,
    pub reviews: Vec<Review>,
    pub comments: Vec<Comment>,
}

impl PullRequest {
    /// The entry sequences are short enough that any count derived from
    /// them fits the count fields' type.
    pub open spec fn wf(self) -> bool {
        self.reviews@.len() + self.comments@.len() <= i64::MAX
    }

    /// The author login this record is attributed to, sentinel included.
    pub open spec fn spec_author(self) -> Seq<char> {
        login_or_sentinel(self.author)
    }

    pub open spec fn spec_comments_count_by(self, by: Seq<char>) -> int {
        count_where(self.reviews@, review_authored_by(by)) + count_where(
            self.comments@,
            comment_authored_by(by),
        )
    }

    pub open spec fn spec_commits_count_by(self, by: Seq<char>) -> int {
        if self.spec_author() == by {
            self.total_commits_count as int
        } else {
            0
        }
    }

    pub open spec fn spec_changed_files_count_by(self, by: Seq<char>) -> int {
        if self.spec_author() == by {
            self.total_changed_files_count as int
        } else {
            0
        }
    }

    /// The earliest timestamp among review entries by someone other than
    /// the record's author.
    pub open spec fn spec_earliest_review_contact_at(self) -> Option<DateTime> {
        earliest_at(self.reviews@, review_contact(self.spec_author()), review_time())
    }

    /// The earliest timestamp among comment entries by someone other than
    /// the record's author.
    pub open spec fn spec_earliest_comment_contact_at(self) -> Option<DateTime> {
        earliest_at(self.comments@, comment_contact(self.spec_author()), comment_time())
    }

    /// When somebody other than the author first engaged with the record:
    /// the minimum of the earliest non-author review timestamp and the
    /// earliest non-author comment timestamp.
    pub open spec fn spec_first_contacted_at(self) -> Option<DateTime> {
        earlier_of(
            self.spec_earliest_review_contact_at(),
            self.spec_earliest_comment_contact_at(),
        )
    }

    /// When `by` (who must differ from the author) first engaged: the
    /// minimum over `by`'s review and comment timestamps.
    pub open spec fn spec_first_contacted_at_by(self, by: Seq<char>) -> Option<DateTime> {
        earlier_of(
            earliest_at(self.reviews@, review_contact_by(self.spec_author(), by), review_time()),
            earliest_at(
                self.comments@,
                comment_contact_by(self.spec_author(), by),
                comment_time(),
            ),
        )
    }

    pub open spec fn spec_reviewee_comments_count(self) -> int {
        self.spec_comments_count_by(self.spec_author())
    }

    pub open spec fn spec_reviewee_comments_count_by(self, by: Seq<char>) -> int {
        if self.spec_author() == by {
            self.spec_comments_count_by(by)
        } else {
            0
        }
    }

    /// Comments by others, plus reviews by others that are not bare
    /// approvals.
    pub open spec fn spec_reviewer_comments_count(self) -> int {
        count_where(self.reviews@, review_counts_for_reviewer(self.spec_author())) + count_where(
            self.comments@,
            comment_contact(self.spec_author()),
        )
    }

    /// The actor-restricted variant deliberately does not re-apply the
    /// bare-approval exclusion of the unrestricted one.
    pub open spec fn spec_reviewer_comments_count_by(self, by: Seq<char>) -> int {
        if self.spec_author() == by {
            0
        } else {
            self.spec_comments_count_by(by)
        }
    }

    /// The first review in sequence order whose state is approved.
    pub open spec fn spec_first_approved_review(self) -> Option<Review> {
        find_first(self.reviews@, review_approved())
    }

    pub open spec fn spec_approved_at(self) -> Option<DateTime> {
        match self.spec_first_approved_review() {
            Some(r) => Some(r.created_at),
            None => None,
        }
    }

    /// The first approval's timestamp, but only when that approval was
    /// submitted by `by`; a later approval by `by` is not searched for.
    pub open spec fn spec_approved_at_by(self, by: Seq<char>) -> Option<DateTime> {
        match self.spec_first_approved_review() {
            Some(r) => if r.author is Some && r.author->0@ == by {
                Some(r.created_at)
            } else {
                None
            },
            None => None,
        }
    }

    /// The merge timestamp, but only when the merge was performed by `by`.
    pub open spec fn spec_merged_at_by(self, by: Seq<char>) -> Option<DateTime> {
        match self.merged_by {
            Some(m) => if m@ == by {
                self.merged_at
            } else {
                None
            },
            None => None,
        }
    }
}


fn count_reviews_authored_by(reviews: &Vec<Review>, name: &str) -> (n: usize)
    ensures
        n == count_where(reviews@, review_authored_by(name@)),
        n <= reviews@.len(),
{
    let mut n: usize = 0;
    let mut i: usize = 0;
    while i < reviews.len()
        invariant
            i <= reviews@.len(),
            n <= i,
            n == count_where(reviews@.take(i as int), review_authored_by(name@)),
        decreases reviews@.len() - i,
    {
        proof {
            lemma_count_where_take_succ(reviews@, review_authored_by(name@), i as int);
        }
        let hit = match &reviews[i].author {
            Some(a) => *a.as_str() == *name,
            None => false,
        };
        proof {
            assert(hit == review_authored_by(name@)(reviews@[i as int]));
        }
        if hit {
            n = n + 1;
        }
        i = i + 1;
    }
    proof {
        assert(reviews@.take(reviews@.len() as int) =~= reviews@);
    }
    n
}

fn count_comments_authored_by(comments: &Vec<Comment>, name: &str) -> (n: usize)
    ensures
        n == count_where(comments@, comment_authored_by(name@)),
        n <= comments@.len(),
{
    let mut n: usize = 0;
    let mut i: usize = 0;
    while i < comments.len()
        invariant
            i <= comments@.len(),
            n <= i,
            n == count_where(comments@.take(i as int), comment_authored_by(name@)),
        decreases comments@.len() - i,
    {
        proof {
            lemma_count_where_take_succ(comments@, comment_authored_by(name@), i as int);
        }
        let hit = match &comments[i].author {
            Some(a) => *a.as_str() == *name,
            None => false,
        };
        proof {
            assert(hit == comment_authored_by(name@)(comments@[i as int]));
        }
        if hit {
            n = n + 1;
        }
        i = i + 1;
    }
    proof {
        assert(comments@.take(comments@.len() as int) =~= comments@);
    }
    n
}

fn count_reviews_for_reviewer(reviews: &Vec<Review>, author: &str) -> (n: usize)
    ensures
        n == count_where(reviews@, review_counts_for_reviewer(author@)),
        n <= reviews@.len(),
{
    let mut n: usize = 0;
    let mut i: usize = 0;
    while i < reviews.len()
        invariant
            i <= reviews@.len(),
            n <= i,
            n == count_where(reviews@.take(i as int), review_counts_for_reviewer(author@)),
        decreases reviews@.len() - i,
    {
        proof {
            lemma_count_where_take_succ(reviews@, review_counts_for_reviewer(author@), i as int);
        }
        let bare_approval = match reviews[i].state {
            ReviewState::Approved => {
                proof {
                    reveal_strlit("");
                    if reviews@[i as int].body@.len() == 0 {
                        assert(reviews@[i as int].body@ =~= ""@);
                    }
                }
                *reviews[i].body.as_str() == *""
            },
            _ => false,
        };
        let hit = if bare_approval {
            false
        } else {
            match &reviews[i].author {
                Some(a) => !(*a.as_str() == *author),
                None => false,
            }
        };
        proof {
            assert(hit == review_counts_for_reviewer(author@)(reviews@[i as int]));
        }
        if hit {
            n = n + 1;
        }
        i = i + 1;
    }
    proof {
        assert(reviews@.take(reviews@.len() as int) =~= reviews@);
    }
    n
}

fn count_comments_for_reviewer(comments: &Vec<Comment>, author: &str) -> (n: usize)
    ensures
        n == count_where(comments@, comment_contact(author@)),
        n <= comments@.len(),
{
    let mut n: usize = 0;
    let mut i: usize = 0;
    while i < comments.len()
        invariant
            i <= comments@.len(),
            n <= i,
            n == count_where(comments@.take(i as int), comment_contact(author@)),
        decreases comments@.len() - i,
    {
        proof {
            lemma_count_where_take_succ(comments@, comment_contact(author@), i as int);
        }
        let hit = match &comments[i].author {
            Some(a) => !(*a.as_str() == *author),
            None => false,
        };
        proof {
            assert(hit == comment_contact(author@)(comments@[i as int]));
        }
        if hit {
            n = n + 1;
        }
        i = i + 1;
    }
    proof {
        assert(comments@.take(comments@.len() as int) =~= comments@);
    }
    n
}


/// The earliest submission time among reviews by someone other than the
/// record's author.
fn earliest_review_contact(reviews: &Vec<Review>, author: &str) -> (r: Option<DateTime>)
    ensures
        r == earliest_at(reviews@, review_contact(author@), review_time()),
{
    let mut best: Option<DateTime> = None;
    let mut i: usize = 0;
    while i < reviews.len()
        invariant
            i <= reviews@.len(),
            best == earliest_at(reviews@.take(i as int), review_contact(author@), review_time()),
        decreases reviews@.len() - i,
    {
        proof {
            lemma_earliest_at_take_succ(reviews@, review_contact(author@), review_time(), i as int);
        }
        let hit = match &reviews[i].author {
            Some(a) => !(*a.as_str() == *author),
            None => false,
        };
        proof {
            assert(hit == review_contact(author@)(reviews@[i as int]));
            assert(review_time()(reviews@[i as int]) == reviews@[i as int].created_at);
        }
        if hit {
            let t = reviews[i].created_at;
            best = match best {
                Some(b) => if b.secs <= t.secs {
                    Some(b)
                } else {
                    Some(t)
                },
                None => Some(t),
            };
        }
        i = i + 1;
    }
    proof {
        assert(reviews@.take(reviews@.len() as int) =~= reviews@);
    }
    best
}

/// The earliest submission time among `by`'s reviews, `by` differing
/// from the record's author.
fn earliest_review_contact_by(reviews: &Vec<Review>, author: &str, by: &str) -> (r: Option<DateTime>)
    ensures
        r == earliest_at(reviews@, review_contact_by(author@, by@), review_time()),
{
    let mut best: Option<DateTime> = None;
    let mut i: usize = 0;
    while i < reviews.len()
        invariant
            i <= reviews@.len(),
            best == earliest_at(reviews@.take(i as int), review_contact_by(author@, by@), review_time()),
        decreases reviews@.len() - i,
    {
        proof {
            lemma_earliest_at_take_succ(reviews@, review_contact_by(author@, by@), review_time(), i as int);
        }
        let hit = match &reviews[i].author {
            Some(a) => !(*a.as_str() == *author) && *a.as_str() == *by,
            None => false,
        };
        proof {
            assert(hit == review_contact_by(author@, by@)(reviews@[i as int]));
            assert(review_time()(reviews@[i as int]) == reviews@[i as int].created_at);
        }
        if hit {
            let t = reviews[i].created_at;
            best = match best {
                Some(b) => if b.secs <= t.secs {
                    Some(b)
                } else {
                    Some(t)
                },
                None => Some(t),
            };
        }
        i = i + 1;
    }
    proof {
        assert(reviews@.take(reviews@.len() as int) =~= reviews@);
    }
    best
}

/// The earliest creation time among comments by someone other than the
/// record's author.
fn earliest_comment_contact(comments: &Vec<Comment>, author: &str) -> (r: Option<DateTime>)
    ensures
        r == earliest_at(comments@, comment_contact(author@), comment_time()),
{
    let mut best: Option<DateTime> = None;
    let mut i: usize = 0;
    while i < comments.len()
        invariant
            i <= comments@.len(),
            best == earliest_at(comments@.take(i as int), comment_contact(author@), comment_time()),
        decreases comments@.len() - i,
    {
        proof {
            lemma_earliest_at_take_succ(comments@, comment_contact(author@), comment_time(), i as int);
        }
        let hit = match &comments[i].author {
            Some(a) => !(*a.as_str() == *author),
            None => false,
        };
        proof {
            assert(hit == comment_contact(author@)(comments@[i as int]));
            assert(comment_time()(comments@[i as int]) == comments@[i as int].created_at);
        }
        if hit {
            let t = comments[i].created_at;
            best = match best {
                Some(b) => if b.secs <= t.secs {
                    Some(b)
                } else {
                    Some(t)
                },
                None => Some(t),
            };
        }
        i = i + 1;
    }
    proof {
        assert(comments@.take(comments@.len() as int) =~= comments@);
    }
    best
}

/// The earliest creation time among `by`'s comments, `by` differing
/// from the record's author.
fn earliest_comment_contact_by(comments: &Vec<Comment>, author: &str, by: &str) -> (r: Option<DateTime>)
    ensures
        r == earliest_at(comments@, comment_contact_by(author@, by@), comment_time()),
{
    let mut best: Option<DateTime> = None;
    let mut i: usize = 0;
    while i < comments.len()
        invariant
            i <= comments@.len(),
            best == earliest_at(comments@.take(i as int), comment_contact_by(author@, by@), comment_time()),
        decreases comments@.len() - i,
    {
        proof {
            lemma_earliest_at_take_succ(comments@, comment_contact_by(author@, by@), comment_time(), i as int);
        }
        let hit = match &comments[i].author {
            Some(a) => !(*a.as_str() == *author) && *a.as_str() == *by,
            None => false,
        };
        proof {
            assert(hit == comment_contact_by(author@, by@)(comments@[i as int]));
            assert(comment_time()(comments@[i as int]) == comments@[i as int].created_at);
        }
        if hit {
            let t = comments[i].created_at;
            best = match best {
                Some(b) => if b.secs <= t.secs {
                    Some(b)
                } else {
                    Some(t)
                },
                None => Some(t),
            };
        }
        i = i + 1;
    }
    proof {
        assert(comments@.take(comments@.len() as int) =~= comments@);
    }
    best
}

fn find_approved_review(reviews: &Vec<Review>) -> (r: Option<usize>)
    ensures
        match r {
            Some(i) => i < reviews@.len() && find_first(reviews@, review_approved())
                == Some(reviews@[i as int]),
            None => find_first(reviews@, review_approved()) is None,
        },
{
    let mut i: usize = 0;
    proof {
        assert(reviews@.skip(0) =~= reviews@);
    }
    while i < reviews.len()
        invariant
            i <= reviews@.len(),
            find_first(reviews@, review_approved()) == find_first(
                reviews@.skip(i as int),
                review_approved(),
            ),
        decreases reviews@.len() - i,
    {
        let hit = match reviews[i].state {
            ReviewState::Approved => true,
            _ => false,
        };
        proof {
            assert(hit == review_approved()(reviews@[i as int]));
            assert(reviews@.skip(i as int)[0] == reviews@[i as int]);
        }
        if hit {
            return Some(i);
        }
        proof {
            lemma_find_first_skip_succ(reviews@, review_approved(), i as int);
        }
        i = i + 1;
    }
    proof {
        assert(reviews@.skip(reviews@.len() as int).len() == 0);
    }
    None
}


impl PullRequest {
    pub fn new(
        url: String,
        author: Option<String>,
        created_at: DateTime,
        merged_at: Option<DateTime>,
        merged_by: Option<String>,
        total_comments_count: i64,
        total_commits_count: i64,
        total_changed_files_count: i64,
        reviews: Vec<Review>,
        comments: Vec<Comment>,
    ) -> (r: PullRequest)
        requires
            reviews@.len() + comments@.len() <= i64::MAX,
        ensures
            r.url == url,
            r.author == author,
            r.created_at == created_at,
            r.merged_at == merged_at,
            r.merged_by == merged_by,
            r.total_comments_count == total_comments_count,
            r.total_commits_count == total_commits_count,
            r.total_changed_files_count == total_changed_files_count,
            r.reviews == reviews,
            r.comments == comments,
            r.wf(),
    {
        PullRequest {
            url,
            author,
            created_at,
            merged_at,
            merged_by,
            total_comments_count,
            total_commits_count,
            total_changed_files_count,
            reviews,
            comments,
        }
    }

    pub fn url(&self) -> (r: String)
        ensures
            r == self.url,
    {
        self.url.clone()
    }

    pub fn author(&self) -> (r: String)
        ensures
            r@ == self.spec_author(),
    {
        match &self.author {
            Some(a) => a.clone(),
            None => "no-author".to_string(),
        }
    }

    /// Every review entry and every comment entry counts as a comment,
    /// whatever the review's state.
    pub fn comments_count(&self) -> (r: i64)
        requires
            self.wf(),
        ensures
            r == self.reviews@.len() + self.comments@.len(),
    {
        (self.reviews.len() as i64) + (self.comments.len() as i64)
    }

    pub fn comments_count_by(&self, by: &str) -> (r: i64)
        requires
            self.wf(),
        ensures
            r == self.spec_comments_count_by(by@),
    {
        let from_reviews = count_reviews_authored_by(&self.reviews, by);
        let from_comments = count_comments_authored_by(&self.comments, by);
        (from_reviews as i64) + (from_comments as i64)
    }

    pub fn commits_count(&self) -> (r: i64)
        ensures
            r == self.total_commits_count,
    {
        self.total_commits_count
    }

    pub fn commits_count_by(&self, by: &str) -> (r: i64)
        ensures
            r == self.spec_commits_count_by(by@),
    {
        let author = self.author();
        if !(*author.as_str() == *by) {
            return 0;
        }
        self.commits_count()
    }

    pub fn changed_files_count(&self) -> (r: i64)
        ensures
            r == self.total_changed_files_count,
    {
        self.total_changed_files_count
    }

    pub fn changed_files_count_by(&self, by: &str) -> (r: i64)
        ensures
            r == self.spec_changed_files_count_by(by@),
    {
        let author = self.author();
        if !(*author.as_str() == *by) {
            return 0;
        }
        self.changed_files_count()
    }

    pub fn created_at(&self) -> (r: DateTime)
        ensures
            r == self.created_at,
    {
        self.created_at
    }

    /// The earliest engagement by somebody other than the author: the
    /// minimum timestamp among non-author reviews and non-author comments,
    /// either kind alone when only one exists, and nothing when neither
    /// does.
    pub fn first_contacted_at(&self) -> (r: Option<DateTime>)
        ensures
            r == self.spec_first_contacted_at(),
    {
        let author = self.author();
        let first_reviewed_at = earliest_review_contact(&self.reviews, author.as_str());
        let first_commented_at = earliest_comment_contact(&self.comments, author.as_str());
        match (first_reviewed_at, first_commented_at) {
            (None, Some(commented_at)) => Some(commented_at),
            (Some(reviewed_at), None) => Some(reviewed_at),
            (Some(reviewed_at), Some(commented_at)) => {
                if reviewed_at.secs > commented_at.secs {
                    Some(commented_at)
                } else {
                    Some(reviewed_at)
                }
            },
            (None, None) => None,
        }
    }

    /// The earliest time `by` in particular engaged, still excluding
    /// entries by the record's own author.
    pub fn first_contacted_at_by(&self, by: &str) -> (r: Option<DateTime>)
        ensures
            r == self.spec_first_contacted_at_by(by@),
    {
        let author = self.author();
        let first_reviewed_at = earliest_review_contact_by(&self.reviews, author.as_str(), by);
        let first_commented_at = earliest_comment_contact_by(&self.comments, author.as_str(), by);
        match (first_reviewed_at, first_commented_at) {
            (None, Some(commented_at)) => Some(commented_at),
            (Some(reviewed_at), None) => Some(reviewed_at),
            (Some(reviewed_at), Some(commented_at)) => {
                if reviewed_at.secs > commented_at.secs {
                    Some(commented_at)
                } else {
                    Some(reviewed_at)
                }
            },
            (None, None) => None,
        }
    }

    /// Review and comment entries written by the record's own author.
    pub fn reviewee_comments_count(&self) -> (r: i64)
        requires
            self.wf(),
        ensures
            r == self.spec_reviewee_comments_count(),
    {
        let author = self.author();
        let from_reviews = count_reviews_authored_by(&self.reviews, author.as_str());
        let from_comments = count_comments_authored_by(&self.comments, author.as_str());
        (from_reviews as i64) + (from_comments as i64)
    }

    pub fn reviewee_comments_count_by(&self, by: &str) -> (r: i64)
        requires
            self.wf(),
        ensures
            r == self.spec_reviewee_comments_count_by(by@),
    {
        let author = self.author();
        if !(*author.as_str() == *by) {
            return 0;
        }
        self.comments_count_by(by)
    }

    /// Review and comment entries by others, except reviews that are bare
    /// approvals (approved state with an empty body).
    pub fn reviewer_comments_count(&self) -> (r: i64)
        requires
            self.wf(),
        ensures
            r == self.spec_reviewer_comments_count(),
    {
        let author = self.author();
        let from_reviews = count_reviews_for_reviewer(&self.reviews, author.as_str());
        let from_comments = count_comments_for_reviewer(&self.comments, author.as_str());
        (from_reviews as i64) + (from_comments as i64)
    }

    /// Unlike the unrestricted count, this variant does not exclude bare
    /// approvals; the asymmetry is part of the behaviour and kept.
    pub fn reviewer_comments_count_by(&self, by: &str) -> (r: i64)
        requires
            self.wf(),
        ensures
            r == self.spec_reviewer_comments_count_by(by@),
    {
        let author = self.author();
        if *author.as_str() == *by {
            return 0;
        }
        self.comments_count_by(by)
    }

    /// The timestamp of the first review in approved state, in sequence
    /// order, not earliest-timestamp order.
    pub fn approved_at(&self) -> (r: Option<DateTime>)
        ensures
            r == self.spec_approved_at(),
    {
        match find_approved_review(&self.reviews) {
            Some(i) => Some(self.reviews[i].created_at),
            None => None,
        }
    }

    /// The first approval's timestamp when that approval is `by`'s; a later
    /// approval by `by` is never searched for.
    pub fn approved_at_by(&self, by: &str) -> (r: Option<DateTime>)
        ensures
            r == self.spec_approved_at_by(by@),
    {
        match find_approved_review(&self.reviews) {
            Some(i) => match &self.reviews[i].author {
                Some(a) => if *a.as_str() == *by {
                    Some(self.reviews[i].created_at)
                } else {
                    None
                },
                None => None,
            },
            None => None,
        }
    }

    pub fn merged_at(&self) -> (r: Option<DateTime>)
        ensures
            r == self.merged_at,
    {
        self.merged_at
    }

    pub fn merged_at_by(&self, by: &str) -> (r: Option<DateTime>)
        ensures
            r == self.spec_merged_at_by(by@),
    {
        match &self.merged_by {
            Some(merged_by) => if *merged_by.as_str() == *by {
                self.merged_at()
            } else {
                None
            },
            None => None,
        }
    }
}


/// With a well-formed record every per-actor comment count fits the count
/// type.
pub proof fn lemma_comments_count_by_range(pr: PullRequest, by: Seq<char>)
    requires
        pr.wf(),
    ensures
        0 <= pr.spec_comments_count_by(by) <= i64::MAX,
{
    lemma_count_where_bounds(pr.reviews@, review_authored_by(by));
    lemma_count_where_bounds(pr.comments@, comment_authored_by(by));
}

} // verus!
