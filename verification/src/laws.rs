//! The team/individual round trip: build the team summary and one
//! individual summary per distinct author, and the individual record
//! counts sum back to the team record count. Stated here over the record
//! collections' counting specifications, for pull requests and for issues.

use vstd::prelude::*;

use crate::aggregate::{count_where, lemma_count_where_drop_first};
use crate::issue::Issue;
use crate::issues::{issue_authored_by, Issues};
use crate::pull_request::PullRequest;
use crate::pull_requests::{pr_authored_by, PullRequests};

verus! {

/// `name` occurs in `names`.
pub open spec fn has_name(names: Seq<Seq<char>>, name: Seq<char>) -> bool {
    exists|j: int| 0 <= j < names.len() && names[j] == name
}

/// No name occurs twice in `names`.
pub open spec fn distinct_names(names: Seq<Seq<char>>) -> bool {
    forall|i: int, j: int| 0 <= i < j < names.len() ==> names[i] != names[j]
}

pub open spec fn name_equals(name: Seq<char>) -> spec_fn(Seq<char>) -> bool {
    |x: Seq<char>| x == name
}

/// How often `name` occurs in `names`.
pub open spec fn occurrences(names: Seq<Seq<char>>, name: Seq<char>) -> int {
    count_where(names, name_equals(name))
}

/// The author login of every pull request, in record order.
pub open spec fn pr_authors(s: Seq<PullRequest>) -> Seq<Seq<char>> {
    Seq::new(s.len(), |i: int| s[i].spec_author())
}

/// The author login of every issue, in record order.
pub open spec fn issue_authors(s: Seq<Issue>) -> Seq<Seq<char>> {
    Seq::new(s.len(), |i: int| s[i].spec_author())
}

/// The sum of the per-actor record counts over a list of actors.
pub open spec fn total_pr_count_by(prs: PullRequests, actors: Seq<Seq<char>>) -> int
    decreases actors.len(),
{
    if actors.len() == 0 {
        0
    } else {
        prs.spec_count_by(actors[0]) + total_pr_count_by(prs, actors.drop_first())
    }
}

/// The sum of the per-actor record counts over a list of actors.
pub open spec fn total_issue_count_by(issues: Issues, actors: Seq<Seq<char>>) -> int
    decreases actors.len(),
{
    if actors.len() == 0 {
        0
    } else {
        issues.spec_count_by(actors[0]) + total_issue_count_by(issues, actors.drop_first())
    }
}

/// The per-actor sums over a list of author names.
spec fn total_occurrences(authors: Seq<Seq<char>>, actors: Seq<Seq<char>>) -> int
    decreases actors.len(),
{
    if actors.len() == 0 {
        0
    } else {
        occurrences(authors, actors[0]) + total_occurrences(authors, actors.drop_first())
    }
}

/// A name that does not occur is counted zero times.
proof fn lemma_occurrences_zero(names: Seq<Seq<char>>, name: Seq<char>)
    requires
        !has_name(names, name),
    ensures
        occurrences(names, name) == 0,
    decreases names.len(),
{
    if names.len() > 0 {
        assert(forall|j: int| 0 <= j < names.len() - 1 ==> names.drop_last()[j] == names[j]);
        lemma_occurrences_zero(names.drop_last(), name);
        assert(names[names.len() - 1] != name);
    }
}

/// In a duplicate-free list, a name that occurs is counted exactly once.
proof fn lemma_occurrences_one(names: Seq<Seq<char>>, name: Seq<char>)
    requires
        distinct_names(names),
        has_name(names, name),
    ensures
        occurrences(names, name) == 1,
    decreases names.len(),
{
    lemma_count_where_drop_first(names, name_equals(name));
    let rest = names.drop_first();
    assert(forall|j: int| 0 <= j < rest.len() ==> rest[j] == names[j + 1]);
    if names[0] == name {
        assert(!has_name(rest, name)) by {
            if has_name(rest, name) {
                let j = choose|j: int| 0 <= j < rest.len() && rest[j] == name;
                assert(names[0] != names[j + 1]);
            }
        }
        lemma_occurrences_zero(rest, name);
    } else {
        let j = choose|j: int| 0 <= j < names.len() && names[j] == name;
        assert(rest[j - 1] == name);
        assert(has_name(rest, name));
        lemma_occurrences_one(rest, name);
    }
}

/// Dropping the last author splits each per-actor total by whether that
/// author is the actor.
proof fn lemma_total_occurrences_drop_last(authors: Seq<Seq<char>>, actors: Seq<Seq<char>>)
    requires
        authors.len() > 0,
    ensures
        total_occurrences(authors, actors) == total_occurrences(authors.drop_last(), actors)
            + occurrences(actors, authors.last()),
    decreases actors.len(),
{
    if actors.len() == 0 {
    } else {
        lemma_total_occurrences_drop_last(authors, actors.drop_first());
        assert(occurrences(authors, actors[0]) == occurrences(authors.drop_last(), actors[0])
            + if authors.last() == actors[0] {
            1int
        } else {
            0int
        });
        lemma_count_where_drop_first(actors, name_equals(authors.last()));
        assert(occurrences(actors, authors.last()) == occurrences(
            actors.drop_first(),
            authors.last(),
        ) + if actors[0] == authors.last() {
            1int
        } else {
            0int
        });
    }
}

/// With a duplicate-free list of actors that includes every author, the
/// per-actor counts sum to the number of authors.
proof fn lemma_occurrence_partition(authors: Seq<Seq<char>>, actors: Seq<Seq<char>>)
    requires
        distinct_names(actors),
        forall|i: int| 0 <= i < authors.len() ==> has_name(actors, #[trigger] authors[i]),
    ensures
        total_occurrences(authors, actors) == authors.len(),
    decreases authors.len(),
{
    if authors.len() == 0 {
        assert(authors =~= Seq::<Seq<char>>::empty());
        lemma_total_occurrences_empty(actors);
    } else {
        let pre = authors.drop_last();
        assert(forall|i: int| 0 <= i < pre.len() ==> pre[i] == authors[i]);
        lemma_occurrence_partition(pre, actors);
        lemma_total_occurrences_drop_last(authors, actors);
        assert(has_name(actors, authors[authors.len() - 1]));
        lemma_occurrences_one(actors, authors.last());
    }
}

/// With no authors every per-actor count is zero.
proof fn lemma_total_occurrences_empty(actors: Seq<Seq<char>>)
    ensures
        total_occurrences(Seq::<Seq<char>>::empty(), actors) == 0,
    decreases actors.len(),
{
    if actors.len() > 0 {
        lemma_total_occurrences_empty(actors.drop_first());
    }
}

/// Counting the records an actor authored equals counting that actor's
/// occurrences among the author logins.
proof fn lemma_pr_count_by_is_occurrences(s: Seq<PullRequest>, by: Seq<char>)
    ensures
        count_where(s, pr_authored_by(by)) == occurrences(pr_authors(s), by),
    decreases s.len(),
{
    if s.len() > 0 {
        lemma_pr_count_by_is_occurrences(s.drop_last(), by);
        assert(pr_authors(s).drop_last() =~= pr_authors(s.drop_last()));
        assert(pr_authors(s).last() == s.last().spec_author());
    }
}

/// Counting the records an actor authored equals counting that actor's
/// occurrences among the author logins.
proof fn lemma_issue_count_by_is_occurrences(s: Seq<Issue>, by: Seq<char>)
    ensures
        count_where(s, issue_authored_by(by)) == occurrences(issue_authors(s), by),
    decreases s.len(),
{
    if s.len() > 0 {
        lemma_issue_count_by_is_occurrences(s.drop_last(), by);
        assert(issue_authors(s).drop_last() =~= issue_authors(s.drop_last()));
        assert(issue_authors(s).last() == s.last().spec_author());
    }
}

proof fn lemma_total_pr_count_by_is_total_occurrences(prs: PullRequests, actors: Seq<Seq<char>>)
    ensures
        total_pr_count_by(prs, actors) == total_occurrences(pr_authors(prs.inner@), actors),
    decreases actors.len(),
{
    if actors.len() > 0 {
        lemma_pr_count_by_is_occurrences(prs.inner@, actors[0]);
        lemma_total_pr_count_by_is_total_occurrences(prs, actors.drop_first());
    }
}

proof fn lemma_total_issue_count_by_is_total_occurrences(issues: Issues, actors: Seq<Seq<char>>)
    ensures
        total_issue_count_by(issues, actors) == total_occurrences(
            issue_authors(issues.inner@),
            actors,
        ),
    decreases actors.len(),
{
    if actors.len() > 0 {
        lemma_issue_count_by_is_occurrences(issues.inner@, actors[0]);
        lemma_total_issue_count_by_is_total_occurrences(issues, actors.drop_first());
    }
}

/// Round trip for pull requests: for a duplicate-free list of actors that
/// includes every record's author, the per-actor record counts (the
/// `prs_count` of each individual summary) sum to the team record count.
pub proof fn lemma_individual_counts_partition_prs(prs: PullRequests, actors: Seq<Seq<char>>)
    requires
        distinct_names(actors),
        forall|i: int|
            0 <= i < prs.inner@.len() ==> has_name(
                actors,
                (#[trigger] prs.inner@[i]).spec_author(),
            ),
    ensures
        total_pr_count_by(prs, actors) == prs.inner@.len(),
{
    lemma_total_pr_count_by_is_total_occurrences(prs, actors);
    let authors = pr_authors(prs.inner@);
    assert(forall|i: int| 0 <= i < authors.len() ==> has_name(actors, #[trigger] authors[i]));
    lemma_occurrence_partition(authors, actors);
}

/// Round trip for issues: for a duplicate-free list of actors that
/// includes every record's author, the per-actor record counts (the
/// `issues_count` of each individual summary) sum to the team record
/// count.
pub proof fn lemma_individual_counts_partition_issues(issues: Issues, actors: Seq<Seq<char>>)
    requires
        distinct_names(actors),
        forall|i: int|
            0 <= i < issues.inner@.len() ==> has_name(
                actors,
                (#[trigger] issues.inner@[i]).spec_author(),
            ),
    ensures
        total_issue_count_by(issues, actors) == issues.inner@.len(),
{
    lemma_total_issue_count_by_is_total_occurrences(issues, actors);
    let authors = issue_authors(issues.inner@);
    assert(forall|i: int| 0 <= i < authors.len() ==> has_name(actors, #[trigger] authors[i]));
    lemma_occurrence_partition(authors, actors);
}

} // verus!
