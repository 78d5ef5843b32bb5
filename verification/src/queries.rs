//! The read-only query service: repository summary, paginated commit list
//! (newest first), and single-commit detail. Built directly on the arena and
//! the history walker; nothing here mutates the repository.

use vstd::prelude::*;

use crate::model::{Commit, CommitDetail, CommitSummary, Head, HistoryError, RepoInfo};
use crate::store::Repo;
use crate::walk::{ancestry, ancestry_oldest_first, lemma_reachable_upto_elems};

verus! {

/// The index of the first line break in `s` at or after `i`, or `s.len()`
/// when there is none.
pub open spec fn line_end(s: Seq<char>, i: int) -> int
    decreases s.len() - i,
{
    if i < 0 || i >= s.len() {
        i
    } else if s[i] == '\n' {
        i
    } else {
        line_end(s, i + 1)
    }
}

/// The first line of a message: everything before the first line break.
pub open spec fn first_line(s: Seq<char>) -> Seq<char> {
    s.subrange(0, line_end(s, 0))
}

/// The display form of a message: its first line, truncated with an ellipsis
/// when longer than 72 characters.
pub open spec fn short_message_of(msg: Seq<char>) -> Seq<char> {
    let line = first_line(msg);
    if line.len() > 72 {
        line.subrange(0, 69) + seq!['.', '.', '.']
    } else {
        line
    }
}

/// One list row reports this commit: its id, its display message, and its
/// author's name, email and timestamp.
pub open spec fn summary_matches(s: Seq<Commit>, id: usize, cs: CommitSummary) -> bool {
    &&& cs.oid == id
    &&& cs.short_message@ == short_message_of(s[id as int].message@)
    &&& cs.author_name@ == s[id as int].author.name@
    &&& cs.author_email@ == s[id as int].author.email@
    &&& cs.author_date == s[id as int].author.timestamp
}

/// The ancestry of `tip`, newest first.
pub open spec fn newest_first(s: Seq<Commit>, tip: int) -> Seq<usize> {
    Seq::new(ancestry(s, tip).len(), |i: int| ancestry(s, tip)[ancestry(s, tip).len() - 1 - i])
}

/// What the commit list shows: the current head's ancestry, newest first;
/// empty for an unborn branch.
pub open spec fn listed_ids(s: Seq<Commit>, h: Head) -> Seq<usize> {
    match h {
        Head::Unborn => Seq::empty(),
        Head::Detached { id } => newest_first(s, id as int),
        Head::Branch { name, tip } => newest_first(s, tip as int),
    }
}

/// Finds where the first line of a message ends.
fn first_line_end(msg: &str) -> (e: usize)
    ensures
        e as int == line_end(msg@, 0),
        e <= msg@.len(),
{
    let n = msg.unicode_len();
    let mut i: usize = 0;
    while i < n
        invariant
            0 <= i <= n,
            n == msg@.len(),
            line_end(msg@, 0) == line_end(msg@, i as int),
        decreases n - i,
    {
        let c = msg.get_char(i);
        if c == '\n' {
            return i;
        }
        proof {
            assert(line_end(msg@, i as int) == line_end(msg@, i as int + 1));
        }
        i = i + 1;
    }
    n
}

/// Builds the display form of a commit message: the first line, truncated
/// with an ellipsis when longer than 72 characters.
fn short_message(msg: &str) -> (r: String)
    ensures
        r@ == short_message_of(msg@),
{
    let e = first_line_end(msg);
    let line = msg.substring_char(0, e);
    if e > 72 {
        let trunc = line.substring_char(0, 69);
        let mut out = String::from_str(trunc);
        out.append("...");
        proof {
            reveal_strlit("...");
            assert(out@ =~= short_message_of(msg@));
        }
        out
    } else {
        String::from_str(line)
    }
}

/// Summarizes an opened repository: its path, the checked-out branch, and
/// how many commits its current head reaches.
pub fn open_repository(repo: &Repo) -> (info: RepoInfo)
    requires
        repo.wf(),
    ensures
        info.path@ == repo.path@,
        info.branch@ == (match repo.head {
            Head::Branch { name, tip } => name@,
            Head::Detached { id } => "HEAD"@,
            Head::Unborn => "HEAD (detached)"@,
        }),
        info.commit_count as int == listed_ids(repo.commits@, repo.head).len(),
{
    let (branch, count): (String, usize) = match &repo.head {
        Head::Unborn => (String::from_str("HEAD (detached)"), 0),
        Head::Detached { id } => {
            let w = match ancestry_oldest_first(repo, *id) {
                Ok(w) => w,
                Err(_) => Vec::new(),
            };
            (String::from_str("HEAD"), w.len())
        },
        Head::Branch { name, tip } => {
            let w = match ancestry_oldest_first(repo, *tip) {
                Ok(w) => w,
                Err(_) => Vec::new(),
            };
            (name.clone(), w.len())
        },
    };
    RepoInfo { path: repo.path.clone(), branch, commit_count: count }
}

/// Full metadata of one commit: signatures with offsets, the parent list,
/// and whether it is a merge. Fails with `Resolution` exactly when the id
/// does not resolve.
pub fn get_commit_detail(repo: &Repo, oid: usize) -> (r: Result<CommitDetail, HistoryError>)
    ensures
        r is Ok <==> (oid as int) < repo.commits@.len(),
        r is Err ==> r->Err_0 == HistoryError::Resolution,
        r is Ok ==> ({
            let c = repo.commits@[oid as int];
            let d = r->Ok_0;
            &&& d.oid == oid
            &&& d.message@ == c.message@
            &&& d.author_name@ == c.author.name@
            &&& d.author_email@ == c.author.email@
            &&& d.author_date == c.author.timestamp
            &&& d.author_offset == c.author.offset_minutes
            &&& d.committer_name@ == c.committer.name@
            &&& d.committer_email@ == c.committer.email@
            &&& d.committer_date == c.committer.timestamp
            &&& d.committer_offset == c.committer.offset_minutes
            &&& d.parent_oids@ == c.parents@
            &&& d.is_merge == (c.parents@.len() > 1)
        }),
{
    if oid >= repo.commits.len() {
        return Err(HistoryError::Resolution);
    }
    let commit = &repo.commits[oid];
    let parent_oids = commit.parents.clone();
    proof {
        assert(parent_oids@ =~= commit.parents@);
    }
    let is_merge = commit.parents.len() > 1;
    Ok(
        CommitDetail {
            oid,
            message: commit.message.clone(),
            author_name: commit.author.name.clone(),
            author_email: commit.author.email.clone(),
            author_date: commit.author.timestamp,
            author_offset: commit.author.offset_minutes,
            committer_name: commit.committer.name.clone(),
            committer_email: commit.committer.email.clone(),
            committer_date: commit.committer.timestamp,
            committer_offset: commit.committer.offset_minutes,
            parent_oids,
            is_merge,
        },
    )
}

/// One page of the commit list, newest first: skips `offset` commits and
/// returns at most `limit` rows, each row reporting the commit's id, display
/// message and author as `summary_matches` states. An unborn branch lists
/// nothing.
pub fn get_commits(repo: &Repo, offset: usize, limit: usize) -> (v: Vec<CommitSummary>)
    requires
        repo.wf(),
    ensures
        ({
            let lst = listed_ids(repo.commits@, repo.head);
            &&& v@.len() == (if (offset as int) < lst.len() {
                if (limit as int) <= lst.len() - offset {
                    limit as int
                } else {
                    lst.len() - offset
                }
            } else {
                0
            })
            &&& (forall|j: int|
                0 <= j < v@.len() ==> offset + j < lst.len() && summary_matches(
                    repo.commits@,
                    lst[offset + j],
                    #[trigger] v@[j],
                ))
        }),
{
    let ghost s = repo.commits@;
    let tip = match &repo.head {
        Head::Unborn => {
            let v: Vec<CommitSummary> = Vec::new();
            return v;
        },
        Head::Detached { id } => *id,
        Head::Branch { name, tip } => *tip,
    };
    let ghost t = tip as int;
    let w = match ancestry_oldest_first(repo, tip) {
        Ok(w) => w,
        Err(_) => {
            let v: Vec<CommitSummary> = Vec::new();
            return v;
        },
    };
    // The arena length is a usize, which bounds every id the walk returns.
    let _len: usize = repo.commits.len();
    proof {
        lemma_reachable_upto_elems(s, t, t + 1);
        assert(listed_ids(s, repo.head) =~= newest_first(s, t));
    }
    let n = w.len();
    let avail = if offset < n {
        n - offset
    } else {
        0
    };
    let count = if limit < avail {
        limit
    } else {
        avail
    };
    let mut v: Vec<CommitSummary> = Vec::new();
    let mut i: usize = 0;
    while i < count
        invariant
            repo.wf(),
            s == repo.commits@,
            t < s.len(),
            w@ == ancestry(s, t),
            n == w@.len(),
            forall|j: int| 0 <= j < n ==> (w@[j] as int) < s.len(),
            avail == (if offset < n {
                n - offset
            } else {
                0
            }),
            count == (if limit < avail {
                limit
            } else {
                avail
            }),
            0 <= i <= count,
            v@.len() == i,
            forall|j: int|
                0 <= j < i ==> offset + j < n && summary_matches(
                    s,
                    w@[n - 1 - (offset + j)],
                    #[trigger] v@[j],
                ),
        decreases count - i,
    {
        let pos = n - 1 - (offset + i);
        let id = w[pos];
        let commit = &repo.commits[id];
        let row = CommitSummary {
            oid: id,
            short_message: short_message(commit.message.as_str()),
            author_name: commit.author.name.clone(),
            author_email: commit.author.email.clone(),
            author_date: commit.author.timestamp,
        };
        v.push(row);
        i = i + 1;
    }
    proof {
        assert forall|j: int| 0 <= j < v@.len() implies offset + j < listed_ids(s, repo.head).len()
            && summary_matches(s, listed_ids(s, repo.head)[offset + j], #[trigger] v@[j]) by {
            assert(listed_ids(s, repo.head)[offset + j] == w@[n - 1 - (offset + j)]);
        }
    }
    v
}

} // verus!
