//! Telling a git repository from other directories, and the messages shown when a
//! directory is refused.
use vstd::prelude::*;
use crate::text::{chars_of, trim, trim_chars, has_prefix, starts_with_chars, extend_str, string_from_chars};

verus! {

/// Why a directory was refused.
#[derive(Debug, Clone)]
pub enum GitError {
    /// The path could not be read; the text says why.
    Io(String),
    /// The directory is not a git repository.
    NotARepository,
}

/// Whether the text of a `.git` file points to a git directory: once trimmed, it starts
/// with `gitdir:` (as in worktrees and bare-repository links).
pub open spec fn is_gitdir_reference(content: Seq<char>) -> bool {
    has_prefix(trim(content), "gitdir:"@)
}

/// Whether a `.git` file's text points to a git directory.
pub fn is_gitdir_file(content: &str) -> (r: bool)
    ensures
        r == is_gitdir_reference(content@),
{
    let v = chars_of(content);
    let t = trim_chars(&v);
    let p = chars_of("gitdir:");
    starts_with_chars(&t, &p)
}

/// Whether a path is a git repository, from what was found on disk: it exists, and its
/// `.git` is a directory, or a file whose text (when it could be read) points to a git
/// directory.
pub fn is_git_repository_from(exists: bool, git_is_dir: bool, git_file_content: Option<&str>) -> (r: bool)
    ensures
        r == (exists && (git_is_dir || (git_file_content matches Some(c) && is_gitdir_reference(c@)))),
{
    if !exists {
        return false;
    }
    if git_is_dir {
        return true;
    }
    match git_file_content {
        Some(c) => is_gitdir_file(c),
        None => false,
    }
}

/// Checks a path from what was found on disk: a missing path is an I/O error, a path
/// that is not a repository is refused.
pub fn validate_git_repository_from(exists: bool, is_repository: bool) -> (r: Result<(), GitError>)
    ensures
        !exists ==> (r matches Err(GitError::Io(m)) && m@ == "Path does not exist"@),
        exists && !is_repository ==> (r matches Err(GitError::NotARepository)),
        exists && is_repository ==> r is Ok,
{
    if !exists {
        let mut v: Vec<char> = Vec::new();
        extend_str(&mut v, "Path does not exist");
        return Err(GitError::Io(string_from_chars(&v)));
    }
    if !is_repository {
        return Err(GitError::NotARepository);
    }
    Ok(())
}

/// The message shown for a refused path.
pub open spec fn git_error_text(path: Seq<char>, e: GitError) -> Seq<char> {
    match e {
        GitError::NotARepository => "所选目录 '"@ + path + "' 不是 Git 仓库。\n\n请选择包含 .git 目录的文件夹。"@,
        GitError::Io(m) => "无法访问路径 '"@ + path + "': "@ + m@,
    }
}

/// The message shown for a refused path.
pub fn get_git_error_message(path: &str, error: &GitError) -> (r: String)
    ensures
        r@ == git_error_text(path@, *error),
{
    let mut v: Vec<char> = Vec::new();
    match error {
        GitError::NotARepository => {
            extend_str(&mut v, "所选目录 '");
            extend_str(&mut v, path);
            extend_str(&mut v, "' 不是 Git 仓库。\n\n请选择包含 .git 目录的文件夹。");
        },
        GitError::Io(m) => {
            extend_str(&mut v, "无法访问路径 '");
            extend_str(&mut v, path);
            extend_str(&mut v, "': ");
            extend_str(&mut v, m.as_str());
        },
    }
    string_from_chars(&v)
}

} // verus!
