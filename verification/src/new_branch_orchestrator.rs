//! The steps of creating a branch with its worktree and tmux session: which outside work
//! comes next, and the result once it is done.
use vstd::prelude::*;
use crate::new_branch_dialog::{ValidationError, validate_branch_name, branch_name_problem, generate_worktree_path,
    join_relative, slashes_to_dashes};
use crate::notification::NotificationType;
use crate::text::{extend_str, string_from_chars};

verus! {

/// Outcome of creating a branch.
#[derive(Debug, Clone)]
pub enum CreationResult {
    Success { worktree_path: String, branch_name: String },
    ValidationFailed { error: String },
    BranchExists { branch_name: String },
    GitFailed { error: String },
    TmuxFailed { worktree_path: String, branch_name: String, error: String },
}

/// What comes next in creating a branch.
#[derive(Debug, Clone)]
pub enum CreationStep {
    /// Find out whether the branch exists already.
    CheckBranch,
    /// Create the branch's worktree at this path.
    CreateWorktree { worktree_path: String },
    /// Start a tmux session for the worktree at this path.
    CreateSession { worktree_path: String },
    /// Done: the result, and the notification to send, if any.
    Finish { result: CreationResult, notification: Option<(NotificationType, String)> },
}

/// Creates branches of one repository.
#[derive(Debug, Clone)]
pub struct NewBranchOrchestrator {
    pub repo_path: String,
}

/// The worktree path of `branch` in the repository at `repo`.
pub open spec fn worktree_path_spec(repo: Seq<char>, branch: Seq<char>) -> Seq<char> {
    join_relative(repo, slashes_to_dashes(branch))
}

/// The notification text after a branch was created.
pub open spec fn created_text(branch: Seq<char>) -> Seq<char> {
    "Created branch '"@ + branch + "' and worktree"@
}

/// The error text after the tmux session could not be started.
pub open spec fn tmux_failed_text(e: Seq<char>) -> Seq<char> {
    "Failed to create tmux session: "@ + e
}

/// The error of starting the session named `session`.
pub open spec fn session_error_spec(session: Seq<char>, e: Seq<char>) -> Seq<char> {
    "Failed to create tmux session '"@ + session + "': "@ + e
}

impl NewBranchOrchestrator {
    /// An orchestrator for the repository at `repo_path`.
    pub fn new(repo_path: &str) -> (r: Self)
        ensures
            r.repo_path@ == repo_path@,
    {
        NewBranchOrchestrator { repo_path: repo_path.to_string() }
    }

    /// Checks a branch name against the naming rules.
    pub fn validate_branch_name(&self, name: &str) -> (r: Result<(), ValidationError>)
        ensures
            r is Ok <==> branch_name_problem(name@) is None,
            r matches Err(e) ==> branch_name_problem(name@) == Some(e.message@),
    {
        validate_branch_name(name)
    }

    /// The first step: a name that breaks the rules ends the work; else the branch is
    /// looked up.
    pub fn start(&self, branch_name: &str) -> (r: CreationStep)
        ensures
            match branch_name_problem(branch_name@) {
                Some(m) => r matches CreationStep::Finish { result: CreationResult::ValidationFailed { error }, notification: None } && error@ == m,
                None => r is CheckBranch,
            },
    {
        match self.validate_branch_name(branch_name) {
            Err(e) => CreationStep::Finish { result: CreationResult::ValidationFailed { error: e.message }, notification: None },
            Ok(()) => CreationStep::CheckBranch,
        }
    }

    /// After the lookup: an existing branch ends the work; else its worktree is created.
    pub fn after_branch_check(&self, branch_name: &str, exists: bool) -> (r: CreationStep)
        ensures
            exists ==> (r matches CreationStep::Finish { result: CreationResult::BranchExists { branch_name: b }, notification: None }
                && b@ == branch_name@),
            !exists ==> (r matches CreationStep::CreateWorktree { worktree_path: p }
                && p@ == worktree_path_spec(self.repo_path@, branch_name@)),
    {
        if exists {
            CreationStep::Finish { result: CreationResult::BranchExists { branch_name: branch_name.to_string() }, notification: None }
        } else {
            CreationStep::CreateWorktree { worktree_path: generate_worktree_path(self.repo_path.as_str(), branch_name) }
        }
    }

    /// After creating the worktree: on success its session is started; else the work
    /// ends with git's error (or "Unknown error").
    pub fn after_worktree(&self, branch_name: &str, success: bool, error: Option<&str>) -> (r: CreationStep)
        ensures
            success ==> (r matches CreationStep::CreateSession { worktree_path: p }
                && p@ == worktree_path_spec(self.repo_path@, branch_name@)),
            !success ==> (r matches CreationStep::Finish { result: CreationResult::GitFailed { error: e }, notification: None }
                && e@ == (match error { Some(m) => m@, None => "Unknown error"@ })),
    {
        if success {
            CreationStep::CreateSession { worktree_path: generate_worktree_path(self.repo_path.as_str(), branch_name) }
        } else {
            let e = match error {
                Some(m) => m.to_string(),
                None => "Unknown error".to_string(),
            };
            CreationStep::Finish { result: CreationResult::GitFailed { error: e }, notification: None }
        }
    }

    /// After starting the session: success, announced; or a tmux failure, reported.
    pub fn after_session(&self, branch_name: &str, session: Result<(), &str>) -> (r: CreationStep)
        ensures
            session is Ok ==> (r matches CreationStep::Finish {
                result: CreationResult::Success { worktree_path: p, branch_name: b },
                notification: Some((NotificationType::Info, n)),
            } && p@ == worktree_path_spec(self.repo_path@, branch_name@) && b@ == branch_name@ && n@ == created_text(branch_name@)),
            session matches Err(e) ==> (r matches CreationStep::Finish {
                result: CreationResult::TmuxFailed { worktree_path: p, branch_name: b, error: m },
                notification: Some((NotificationType::Error, n)),
            } && p@ == worktree_path_spec(self.repo_path@, branch_name@) && b@ == branch_name@
                && m@ == tmux_failed_text(e@) && n@ == tmux_failed_text(e@)),
    {
        let path = generate_worktree_path(self.repo_path.as_str(), branch_name);
        match session {
            Ok(()) => {
                let mut v: Vec<char> = Vec::new();
                extend_str(&mut v, "Created branch '");
                extend_str(&mut v, branch_name);
                extend_str(&mut v, "' and worktree");
                CreationStep::Finish {
                    result: CreationResult::Success { worktree_path: path, branch_name: branch_name.to_string() },
                    notification: Some((NotificationType::Info, string_from_chars(&v))),
                }
            },
            Err(e) => {
                let mut v: Vec<char> = Vec::new();
                extend_str(&mut v, "Failed to create tmux session: ");
                extend_str(&mut v, e);
                let msg = string_from_chars(&v);
                let msg2 = string_from_chars(&v);
                CreationStep::Finish {
                    result: CreationResult::TmuxFailed { worktree_path: path, branch_name: branch_name.to_string(), error: msg },
                    notification: Some((NotificationType::Error, msg2)),
                }
            },
        }
    }
}

/// The error of starting the session named `session_name`.
pub fn session_error_text(session_name: &str, error: &str) -> (r: String)
    ensures
        r@ == session_error_spec(session_name@, error@),
{
    let mut v: Vec<char> = Vec::new();
    extend_str(&mut v, "Failed to create tmux session '");
    extend_str(&mut v, session_name);
    extend_str(&mut v, "': ");
    extend_str(&mut v, error);
    string_from_chars(&v)
}

} // verus!
