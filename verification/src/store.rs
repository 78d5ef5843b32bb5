//! The in-memory model of a repository: an append-only arena of immutable
//! commit objects, the HEAD reference, and the per-branch backup reference.
//!
//! A commit's id is its arena index. `create_commit` only appends, so ids are
//! assigned in increasing order and every parent id is strictly smaller than
//! its child's id; ascending id order is therefore a topological
//! (oldest-first) order of the ancestry graph, and the graph is acyclic by
//! construction. The surrounding application loads a real repository's
//! ancestry in oldest-first order, which preserves exactly this shape.

use vstd::prelude::*;

use crate::model::{Commit, Head, HistoryError, Signature};

verus! {

/// Every parent id in the arena points strictly below its child.
pub open spec fn commits_wf(s: Seq<Commit>) -> bool {
    forall|i: int, k: int|
        0 <= i < s.len() && 0 <= k < s[i].parents@.len() ==> (s[i].parents@[k] as int) < i
}

/// The repository model: the object arena plus the only mutable state, the
/// HEAD reference and the backup reference of the current branch.
#[derive(Debug)]
pub struct Repo {
    pub path: String,
    pub commits: Vec<Commit>,
    pub head: Head,
    pub backup: Option<usize>,
}

impl Repo {
    /// Well-formedness: parents point below their children, and every
    /// reference that exists resolves to a commit in the arena.
    pub open spec fn wf(self) -> bool {
        &&& commits_wf(self.commits@)
        &&& match self.head {
            Head::Unborn => true,
            Head::Detached { id } => (id as int) < self.commits@.len(),
            Head::Branch { name, tip } => (tip as int) < self.commits@.len(),
        }
        &&& match self.backup {
            Some(b) => (b as int) < self.commits@.len(),
            None => true,
        }
    }

    /// A freshly initialized repository: no objects, an unborn branch, no
    /// backup.
    pub fn new(path: String) -> (r: Repo)
        ensures
            r.wf(),
            r.commits@.len() == 0,
            r.head is Unborn,
            r.backup is None,
            r.path@ == path@,
    {
        Repo { path, commits: Vec::new(), head: Head::Unborn, backup: None }
    }

    /// Looks a commit up by id, as the object store's find operation does.
    /// Returns the commit exactly when the id resolves.
    pub fn find_commit(&self, id: usize) -> (r: Result<&Commit, HistoryError>)
        ensures
            r is Ok <==> (id as int) < self.commits@.len(),
            r is Ok ==> *r->Ok_0 == self.commits@[id as int],
            r is Err ==> r->Err_0 == HistoryError::Resolution,
    {
        if id < self.commits.len() {
            Ok(&self.commits[id])
        } else {
            Err(HistoryError::Resolution)
        }
    }

    /// Creates a new immutable commit object and returns its fresh id. The
    /// store is append-only: nothing already stored changes, and no reference
    /// moves. Fails with `Resolution` exactly when a named parent does not
    /// resolve; the arena is then left unchanged.
    pub fn create_commit(
        &mut self,
        tree: usize,
        parents: Vec<usize>,
        author: Signature,
        committer: Signature,
        message: String,
    ) -> (r: Result<usize, HistoryError>)
        requires
            old(self).wf(),
        ensures
            final(self).wf(),
            final(self).path == old(self).path,
            final(self).head == old(self).head,
            final(self).backup == old(self).backup,
            r is Ok <==> (forall|k: int|
                0 <= k < parents@.len() ==> (parents@[k] as int) < old(self).commits@.len()),
            r is Ok ==> {
                &&& r->Ok_0 == old(self).commits@.len()
                &&& final(self).commits@ == old(self).commits@.push(
                    (Commit { tree, parents, author, committer, message }),
                )
            },
            r is Err ==> final(self).commits@ == old(self).commits@ && r->Err_0
                == HistoryError::Resolution,
    {
        let n = self.commits.len();
        let mut k: usize = 0;
        while k < parents.len()
            invariant
                0 <= k <= parents@.len(),
                *self == *old(self),
                old(self).wf(),
                n == self.commits@.len(),
                forall|j: int| 0 <= j < k ==> (parents@[j] as int) < n,
            decreases parents@.len() - k,
        {
            if parents[k] >= n {
                return Err(HistoryError::Resolution);
            }
            k = k + 1;
        }
        let id = n;
        self.commits.push(Commit { tree, parents, author, committer, message });
        Ok(id)
    }

    /// Points HEAD at a branch whose tip is the given commit, as the
    /// reference store's update operation does for the checked-out branch.
    /// Fails with `Resolution` exactly when the tip does not resolve.
    pub fn set_branch(&mut self, name: String, tip: usize) -> (r: Result<(), HistoryError>)
        requires
            old(self).wf(),
        ensures
            final(self).wf(),
            final(self).path == old(self).path,
            final(self).commits@ == old(self).commits@,
            final(self).backup == old(self).backup,
            r is Ok <==> (tip as int) < old(self).commits@.len(),
            r is Ok ==> final(self).head == (Head::Branch { name, tip }),
            r is Err ==> final(self).head == old(self).head && r->Err_0
                == HistoryError::Resolution,
    {
        if tip < self.commits.len() {
            self.head = Head::Branch { name, tip };
            Ok(())
        } else {
            Err(HistoryError::Resolution)
        }
    }

    /// Detaches HEAD onto a commit. Fails with `Resolution` exactly when the
    /// id does not resolve.
    pub fn detach(&mut self, id: usize) -> (r: Result<(), HistoryError>)
        requires
            old(self).wf(),
        ensures
            final(self).wf(),
            final(self).path == old(self).path,
            final(self).commits@ == old(self).commits@,
            final(self).backup == old(self).backup,
            r is Ok <==> (id as int) < old(self).commits@.len(),
            r is Ok ==> final(self).head == (Head::Detached { id }),
            r is Err ==> final(self).head == old(self).head && r->Err_0
                == HistoryError::Resolution,
    {
        if id < self.commits.len() {
            self.head = Head::Detached { id };
            Ok(())
        } else {
            Err(HistoryError::Resolution)
        }
    }
}

} // verus!
