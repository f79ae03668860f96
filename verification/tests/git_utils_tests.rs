use ai_cli::git_utils::{diff_to_string, get_current_branch, FileStatus, GitError, GitStatus};

fn clean() -> FileStatus {
    FileStatus {
        index_new: false,
        index_modified: false,
        index_deleted: false,
        index_renamed: false,
        index_typechange: false,
        wt_new: false,
        wt_modified: false,
        wt_deleted: false,
        wt_renamed: false,
        wt_typechange: false,
    }
}

#[test]
fn git_utils_test_diff_to_string() {
    let pieces = vec!["+++ b/test.txt\n".to_string(), "+Hello, World!\n".to_string()];
    assert_eq!(diff_to_string(&pieces), Ok("+++ b/test.txt\n+Hello, World!\n".to_string()));
}

#[test]
fn empty_diff_is_an_error() {
    assert_eq!(diff_to_string(&Vec::new()), Err(GitError::NoChanges));
    assert_eq!(diff_to_string(&vec![String::new(), String::new()]), Err(GitError::NoChanges));
}

#[test]
fn branch_needs_a_head_with_a_name() {
    assert_eq!(get_current_branch(Some("main")), Ok("main".to_string()));
    assert_eq!(get_current_branch(None), Err(GitError::DetachedHead));
}

#[test]
fn status_counts_each_file_once_per_aspect() {
    let files = vec![
        FileStatus { index_new: true, ..clean() },
        FileStatus { index_modified: true, wt_modified: true, ..clean() },
        FileStatus { wt_new: true, ..clean() },
        FileStatus { wt_new: true, wt_modified: true, ..clean() },
        FileStatus { wt_deleted: true, ..clean() },
        FileStatus { index_renamed: true, index_typechange: true, ..clean() },
        clean(),
    ];
    let status = GitStatus::summarize(&files, "main".to_string());
    assert_eq!(status.staged, 3);
    assert_eq!(status.modified, 2);
    assert_eq!(status.untracked, 2);
    assert_eq!(status.branch, "main");
    let empty = GitStatus::summarize(&Vec::new(), "dev".to_string());
    assert_eq!((empty.staged, empty.modified, empty.untracked), (0, 0, 0));
}
