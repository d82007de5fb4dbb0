//! The application's top-level state: the configuration, the open workspace and the
//! error shown to the user.
use vstd::prelude::*;
use crate::config::{Config, recent_workspace_spec, strs, workspace_saved};
use crate::git_utils::{GitError, get_git_error_message, git_error_text};

verus! {

/// The application.
#[derive(Debug, Clone)]
pub struct App {
    pub config: Config,
    /// The open workspace.
    pub workspace_path: Option<String>,
    /// The error to show, if any.
    pub error_message: Option<String>,
}

/// Text of an optional string.
pub open spec fn opt_view(o: Option<String>) -> Option<Seq<char>> {
    match o { Some(s) => Some(s@), None => None }
}

impl App {
    /// The application on a loaded configuration: its first workspace is open.
    pub fn from_config(config: Config) -> (r: Self)
        ensures
            r.config == config,
            opt_view(r.workspace_path) == recent_workspace_spec(config),
            r.error_message is None,
    {
        let workspace_path = config.get_recent_workspace();
        App { config, workspace_path, error_message: None }
    }

    /// Whether a workspace is open.
    pub fn has_workspace(&self) -> (r: bool)
        ensures
            r == (self.workspace_path is Some),
    {
        self.workspace_path.is_some()
    }

    /// The open workspace.
    pub fn get_workspace(&self) -> (r: Option<&String>)
        ensures
            r == (match &self.workspace_path { Some(p) => Some(p), None => None::<&String> }),
    {
        match &self.workspace_path {
            Some(p) => Some(p),
            None => None,
        }
    }

    /// The error to show.
    pub fn get_error(&self) -> (r: Option<&String>)
        ensures
            r == (match &self.error_message { Some(e) => Some(e), None => None::<&String> }),
    {
        match &self.error_message {
            Some(e) => Some(e),
            None => None,
        }
    }

    /// Forgets the error.
    pub fn clear_error(&mut self)
        ensures
            final(self).error_message is None,
            final(self).workspace_path == old(self).workspace_path,
            final(self).config == old(self).config,
    {
        self.error_message = None;
    }

    /// Takes the outcome of the folder picker: nothing (cancelled) changes nothing; a
    /// folder that is not a repository is refused with a message; a repository becomes
    /// the open workspace and is recorded in the configuration. Returns whether a
    /// workspace was opened.
    pub fn apply_selected_workspace(&mut self, selected: Option<&str>, is_repository: bool) -> (r: bool)
        requires
            old(self).config.wf(),
        ensures
            final(self).config.wf(),
            r == (selected is Some && is_repository),
            selected is None ==> *final(self) == *old(self),
            selected is Some && !is_repository ==> {
                &&& opt_view(final(self).error_message) == Some(git_error_text(selected->0@, GitError::NotARepository))
                &&& final(self).workspace_path == old(self).workspace_path
                &&& final(self).config == old(self).config
            },
            selected is Some && is_repository ==> {
                &&& opt_view(final(self).workspace_path) == Some(selected->0@)
                &&& final(self).error_message is None
                &&& workspace_saved(old(self).config, selected->0@, final(self).config)
                &&& !strs(old(self).config.workspace_paths@).contains(selected->0@) && selected->0@.len() > 0
                    ==> recent_workspace_spec(final(self).config) == Some(selected->0@)
            },
    {
        match selected {
            None => false,
            Some(path) => {
                if !is_repository {
                    self.error_message = Some(get_git_error_message(path, &GitError::NotARepository));
                    return false;
                }
                self.workspace_path = Some(path.to_string());
                self.config.save_workspace(path);
                proof {
                    if path@.len() > 0 && !strs(old(self).config.workspace_paths@).contains(path@) {
                        assert(strs(self.config.workspace_paths@).len() == 1);
                        assert(strs(self.config.workspace_paths@)[0] == self.config.workspace_paths@[0]@);
                    }
                }
                self.error_message = None;
                true
            },
        }
    }

    /// Closes the workspace and clears the recorded workspaces.
    pub fn reset_workspace(&mut self)
        requires
            old(self).config.wf(),
        ensures
            final(self).config.wf(),
            final(self).workspace_path is None,
            workspace_saved(old(self).config, Seq::empty(), final(self).config),
            final(self).error_message == old(self).error_message,
    {
        self.workspace_path = None;
        proof { reveal_strlit(""); }
        self.config.save_workspace("");
        proof { assert(""@ =~= Seq::<char>::empty()); }
    }
}

} // verus!
