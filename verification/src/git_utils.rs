//! What the assistant makes of a repository's state, once it was read.

use vstd::prelude::*;

verus! {

/// What can be wrong with the repository's state.
#[derive(Debug, Clone, Copy, PartialEq, Eq, Structural)]
pub enum GitError {
    /// No changes found to analyze.
    NoChanges,
    /// Not on any branch: the head is detached.
    DetachedHead,
}

/// The state of one file: how the index differs from the last commit, and
/// how the working tree differs from the index.
#[derive(Debug, Clone, Copy, PartialEq, Eq, Structural)]
pub struct FileStatus {
    pub index_new: bool,
    pub index_modified: bool,
    pub index_deleted: bool,
    pub index_renamed: bool,
    pub index_typechange: bool,
    pub wt_new: bool,
    pub wt_modified: bool,
    pub wt_deleted: bool,
    pub wt_renamed: bool,
    pub wt_typechange: bool,
}

impl FileStatus {
    /// Whether the index holds a change of the file.
    pub open spec fn is_staged(self) -> bool {
        self.index_new || self.index_modified || self.index_deleted || self.index_renamed
            || self.index_typechange
    }

    /// Whether the file is new in the working tree.
    pub open spec fn is_untracked(self) -> bool {
        self.wt_new
    }

    /// Whether the file is known and differs in the working tree.
    pub open spec fn is_modified(self) -> bool {
        !self.wt_new && (self.wt_modified || self.wt_deleted || self.wt_renamed
            || self.wt_typechange)
    }
}

/// What a summary counts.
#[derive(Debug, Clone, Copy, PartialEq, Eq, Structural)]
pub enum Aspect {
    Staged,
    Modified,
    Untracked,
}

impl FileStatus {
    /// Whether the file counts under `aspect`.
    pub open spec fn has(self, aspect: Aspect) -> bool {
        match aspect {
            Aspect::Staged => self.is_staged(),
            Aspect::Modified => self.is_modified(),
            Aspect::Untracked => self.is_untracked(),
        }
    }
}

/// How many of `files` count under `aspect`.
pub open spec fn count_of(files: Seq<FileStatus>, aspect: Aspect) -> nat
    decreases files.len(),
{
    if files.len() == 0 {
        0
    } else {
        count_of(files.drop_last(), aspect) + if files.last().has(aspect) {
            1nat
        } else {
            0nat
        }
    }
}

/// Mathematical value of a [`GitStatus`].
pub struct GitStatusView {
    pub staged: nat,
    pub modified: nat,
    pub untracked: nat,
    pub branch: Seq<char>,
}

/// A summary of the repository's state.
#[derive(Debug)]
pub struct GitStatus {
    pub staged: usize,
    pub modified: usize,
    pub untracked: usize,
    pub branch: String,
}

impl View for GitStatus {
    type V = GitStatusView;

    open spec fn view(&self) -> GitStatusView {
        GitStatusView {
            staged: self.staged as nat,
            modified: self.modified as nat,
            untracked: self.untracked as nat,
            branch: self.branch@,
        }
    }
}

impl GitStatus {
    /// The summary of the files `files` on the branch `branch`: how many are
    /// staged, how many modified, how many untracked. A file can be staged
    /// and, besides, modified or untracked.
    pub fn summarize(files: &Vec<FileStatus>, branch: String) -> (status: Self)
        ensures
            status@ == (GitStatusView {
                staged: count_of(files@, Aspect::Staged),
                modified: count_of(files@, Aspect::Modified),
                untracked: count_of(files@, Aspect::Untracked),
                branch: branch@,
            }),
    {
        let mut staged: usize = 0;
        let mut modified: usize = 0;
        let mut untracked: usize = 0;
        let mut i: usize = 0;
        assert(files@.take(0) =~= Seq::<FileStatus>::empty());
        while i < files.len()
            invariant
                i <= files.len(),
                staged <= i,
                modified <= i,
                untracked <= i,
                staged == count_of(files@.take(i as int), Aspect::Staged),
                modified == count_of(files@.take(i as int), Aspect::Modified),
                untracked == count_of(files@.take(i as int), Aspect::Untracked),
            decreases files.len() - i,
        {
            let f = files[i];
            proof {
                let next = files@.take(i + 1);
                assert(next.drop_last() =~= files@.take(i as int));
                assert(next.last() == f);
            }
            if f.index_new || f.index_modified || f.index_deleted || f.index_renamed
                || f.index_typechange {
                staged += 1;
            }
            if f.wt_new {
                untracked += 1;
            } else if f.wt_modified || f.wt_deleted || f.wt_renamed || f.wt_typechange {
                modified += 1;
            }
            i += 1;
        }
        assert(files@.take(i as int) =~= files@);
        GitStatus { staged, modified, untracked, branch }
    }
}

/// The pieces of a diff, one after the other.
pub open spec fn concatenated(pieces: Seq<Seq<char>>) -> Seq<char>
    decreases pieces.len(),
{
    if pieces.len() == 0 {
        Seq::<char>::empty()
    } else {
        concatenated(pieces.drop_last()) + pieces.last()
    }
}

/// Puts the lines of a diff together. A diff without text is an error:
/// there is nothing to analyze.
pub fn diff_to_string(pieces: &Vec<String>) -> (outcome: Result<String, GitError>)
    ensures
        concatenated(pieces.deep_view()).len() == 0 ==> outcome == Err::<String, GitError>(
            GitError::NoChanges,
        ),
        concatenated(pieces.deep_view()).len() > 0 ==> (outcome matches Ok(text) && text@
            == concatenated(pieces.deep_view())),
{
    let ghost all = pieces.deep_view();
    let mut text = String::new();
    let mut i: usize = 0;
    assert(all.take(0) =~= Seq::<Seq<char>>::empty());
    while i < pieces.len()
        invariant
            i <= pieces.len(),
            all == pieces.deep_view(),
            text@ == concatenated(all.take(i as int)),
        decreases pieces.len() - i,
    {
        proof {
            let next = all.take(i + 1);
            assert(next.drop_last() =~= all.take(i as int));
            assert(next.last() == pieces[i as int]@);
        }
        text.append(pieces[i].as_str());
        i += 1;
    }
    assert(all.take(i as int) =~= all);
    if text.as_str().unicode_len() == 0 {
        Err(GitError::NoChanges)
    } else {
        Ok(text)
    }
}

/// The name of the current branch, given the short name of the head, which
/// a detached head does not have.
pub fn get_current_branch(shorthand: Option<&str>) -> (outcome: Result<String, GitError>)
    ensures
        match shorthand {
            Some(name) => outcome matches Ok(branch) && branch@ == name@,
            None => outcome == Err::<String, GitError>(GitError::DetachedHead),
        },
{
    match shorthand {
        Some(name) => Ok(String::from_str(name)),
        None => Err(GitError::DetachedHead),
    }
}

} // verus!
