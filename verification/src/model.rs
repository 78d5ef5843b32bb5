//! Shared data model of the history editor: signatures, commits, metadata
//! overrides, result records, and the error taxonomy.
//!
//! Object identity is modelled as a `usize`: the index of the commit in the
//! repository's append-only object arena. Content-addressed objects are
//! immutable, so a fresh object always receives a fresh id, and two distinct
//! ids never alias.

use vstd::prelude::*;

verus! {

/// Who authored or committed, and when: a name, an email, a timestamp in
/// seconds since the epoch, and a UTC offset in minutes.
#[derive(Debug)]
pub struct Signature {
    pub name: String,
    pub email: String,
    pub timestamp: i64,
    pub offset_minutes: i32,
}

impl Clone for Signature {
    fn clone(&self) -> (r: Self)
        ensures
            r == *self,
    {
        Signature {
            name: self.name.clone(),
            email: self.email.clone(),
            timestamp: self.timestamp,
            offset_minutes: self.offset_minutes,
        }
    }
}

/// An immutable commit object. Its id is its index in the repository arena
/// and is not stored in the record itself. `tree` is the opaque id of the
/// content snapshot; rewriting never alters it. Parents are ordered, and in a
/// well-formed arena every parent id is strictly smaller than the commit's
/// own id, which makes ascending id order a topological (oldest-first) order.
#[derive(Debug)]
pub struct Commit {
    pub tree: usize,
    pub parents: Vec<usize>,
    pub author: Signature,
    pub committer: Signature,
    pub message: String,
}

impl Clone for Commit {
    fn clone(&self) -> (r: Self)
        ensures
            r.tree == self.tree,
            r.parents@ == self.parents@,
            r.author == self.author,
            r.committer == self.committer,
            r.message == self.message,
    {
        let parents = self.parents.clone();
        proof {
            assert(parents@ =~= self.parents@);
        }
        Commit {
            tree: self.tree,
            parents,
            author: self.author.clone(),
            committer: self.committer.clone(),
            message: self.message.clone(),
        }
    }
}

/// Where the repository's HEAD points: nowhere yet (an empty repository on an
/// unborn branch), directly at a commit (detached), or at a named branch.
#[derive(Debug)]
pub enum Head {
    Unborn,
    Detached { id: usize },
    Branch { name: String, tip: usize },
}

/// The error taxonomy. `ReferenceUpdate` and `Restore` describe failures of a
/// real reference store and are produced by the surrounding application, not
/// by the model operations, whose reference updates cannot fail.
/// `IncompleteRewrite` guards an internal invariant that is proved to hold.
#[derive(Clone, Copy, Debug, PartialEq, Eq, Structural)]
pub enum HistoryError {
    /// An object id did not resolve to a commit in the store.
    Resolution,
    /// HEAD does not point at a branch, so there is no branch to rewrite.
    DetachedState,
    /// The requested commit is not in the current branch's ancestry.
    TargetNotFound,
    /// An override supplied an empty or malformed name or email.
    InvalidSignature,
    /// The branch tip was never rebuilt during a rewrite (defensive; unreachable).
    IncompleteRewrite,
    /// The final branch-pointer update failed in the external reference store.
    ReferenceUpdate,
    /// No backup reference exists for the current branch.
    NoBackup,
    /// The branch was restored but the backup reference could not be removed.
    Restore,
}

/// Requested metadata changes for the target commit. An absent field keeps
/// the original value.
#[derive(Debug)]
pub struct Overrides {
    pub author_name: Option<String>,
    pub author_email: Option<String>,
    pub author_date: Option<i64>,
    pub author_offset: Option<i32>,
    pub committer_name: Option<String>,
    pub committer_email: Option<String>,
    pub committer_date: Option<i64>,
    pub committer_offset: Option<i32>,
    pub message: Option<String>,
}

impl Overrides {
    /// An override set that changes nothing.
    pub fn none() -> (r: Overrides)
        ensures
            r.author_name is None,
            r.author_email is None,
            r.author_date is None,
            r.author_offset is None,
            r.committer_name is None,
            r.committer_email is None,
            r.committer_date is None,
            r.committer_offset is None,
            r.message is None,
    {
        Overrides {
            author_name: None,
            author_email: None,
            author_date: None,
            author_offset: None,
            committer_name: None,
            committer_email: None,
            committer_date: None,
            committer_offset: None,
            message: None,
        }
    }
}

/// Summary of an opened repository.
#[derive(Clone, Debug)]
pub struct RepoInfo {
    pub path: String,
    pub branch: String,
    pub commit_count: usize,
}

/// One row of the paginated commit list.
#[derive(Clone, Debug)]
pub struct CommitSummary {
    pub oid: usize,
    pub short_message: String,
    pub author_name: String,
    pub author_email: String,
    pub author_date: i64,
}

/// Full metadata of a single commit.
#[derive(Clone, Debug)]
pub struct CommitDetail {
    pub oid: usize,
    pub message: String,
    pub author_name: String,
    pub author_email: String,
    pub author_date: i64,
    pub author_offset: i32,
    pub committer_name: String,
    pub committer_email: String,
    pub committer_date: i64,
    pub committer_offset: i32,
    pub parent_oids: Vec<usize>,
    pub is_merge: bool,
}

/// A progress tick emitted while walking the history: `current` commits of
/// `total` have been processed.
#[derive(Clone, Copy, Debug, PartialEq, Eq, Structural)]
pub struct RewriteProgress {
    pub current: usize,
    pub total: usize,
}

/// Outcome of a rewrite: the target's old and new ids and how many commits
/// were rebuilt.
#[derive(Clone, Copy, Debug, PartialEq, Eq, Structural)]
pub struct RewriteResult {
    pub old_oid: usize,
    pub new_oid: usize,
    pub commits_rewritten: usize,
}

/// What `check_backup` reports: whether a backup reference exists for the
/// current branch, and if so which commit it records.
#[derive(Clone, Debug)]
pub struct BackupInfo {
    pub exists: bool,
    pub backup_oid: Option<usize>,
    pub branch: String,
}

/// The overriding rule for one field: take the override when present,
/// otherwise keep the original.
pub open spec fn overridden<T>(orig: T, ov: Option<T>) -> T {
    match ov {
        Some(v) => v,
        None => orig,
    }
}

/// The view of an optional owned string.
pub open spec fn opt_view(o: Option<String>) -> Option<Seq<char>> {
    match o {
        Some(s) => Some(s@),
        None => None,
    }
}

/// A signature has exactly these four fields.
pub open spec fn sig_matches(s: Signature, name: Seq<char>, email: Seq<char>, ts: i64, off: i32) -> bool {
    &&& s.name@ == name
    &&& s.email@ == email
    &&& s.timestamp == ts
    &&& s.offset_minutes == off
}

/// Two signatures agree field by field.
pub open spec fn sig_eq(a: Signature, b: Signature) -> bool {
    sig_matches(a, b.name@, b.email@, b.timestamp, b.offset_minutes)
}

/// The author signature a rebuilt target commit must carry: each override
/// field applied, the original kept where the override is absent.
pub open spec fn author_with_overrides(orig: Signature, ov: Overrides, s: Signature) -> bool {
    sig_matches(
        s,
        overridden(orig.name@, opt_view(ov.author_name)),
        overridden(orig.email@, opt_view(ov.author_email)),
        overridden(orig.timestamp, ov.author_date),
        overridden(orig.offset_minutes, ov.author_offset),
    )
}

/// The committer signature a rebuilt target commit must carry.
pub open spec fn committer_with_overrides(orig: Signature, ov: Overrides, s: Signature) -> bool {
    sig_matches(
        s,
        overridden(orig.name@, opt_view(ov.committer_name)),
        overridden(orig.email@, opt_view(ov.committer_email)),
        overridden(orig.timestamp, ov.committer_date),
        overridden(orig.offset_minutes, ov.committer_offset),
    )
}

/// A name or email supplied in an override must be non-empty and free of the
/// characters that would corrupt a serialized signature line.
pub open spec fn valid_component(s: Seq<char>) -> bool {
    &&& s.len() > 0
    &&& forall|i: int| 0 <= i < s.len() ==> s[i] != '<' && s[i] != '>' && s[i] != '\n'
}

/// An absent override component is always acceptable.
pub open spec fn valid_opt_component(o: Option<String>) -> bool {
    match o {
        Some(s) => valid_component(s@),
        None => true,
    }
}

/// Every name and email supplied in the override set is well formed.
pub open spec fn overrides_valid(ov: Overrides) -> bool {
    &&& valid_opt_component(ov.author_name)
    &&& valid_opt_component(ov.author_email)
    &&& valid_opt_component(ov.committer_name)
    &&& valid_opt_component(ov.committer_email)
}

/// Checks one signature component for the characters `valid_component` bans.
fn component_ok(s: &str) -> (b: bool)
    ensures
        b == valid_component(s@),
{
    let n: usize = s.unicode_len();
    if n == 0 {
        return false;
    }
    let mut i: usize = 0;
    while i < n
        invariant
            n == s@.len(),
            0 <= i <= n,
            forall|j: int| 0 <= j < i ==> s@[j] != '<' && s@[j] != '>' && s@[j] != '\n',
        decreases n - i,
    {
        let c = s.get_char(i);
        if c == '<' || c == '>' || c == '\n' {
            return false;
        }
        i = i + 1;
    }
    true
}

/// Checks an optional override component.
fn opt_component_ok(o: &Option<String>) -> (b: bool)
    ensures
        b == valid_opt_component(*o),
{
    match o {
        Some(s) => component_ok(s.as_str()),
        None => true,
    }
}

/// Checks every name and email in an override set, exactly as
/// `overrides_valid` states.
pub fn overrides_ok(ov: &Overrides) -> (b: bool)
    ensures
        b == overrides_valid(*ov),
{
    opt_component_ok(&ov.author_name) && opt_component_ok(&ov.author_email)
        && opt_component_ok(&ov.committer_name) && opt_component_ok(&ov.committer_email)
}

} // verus!
