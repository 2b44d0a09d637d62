//! The command line as plain values, and the search for the repository that a
//! session replays. What the file system says is handed in as a probe.

use crate::text::{from_chars, push_str_chars};
use vstd::prelude::*;

verus! {

/// The order in which commits are played.
#[derive(Debug, Clone, Copy, PartialEq, Eq, Structural)]
pub enum PlaybackOrder {
    Random,
    Asc,
    Desc,
}

impl Default for PlaybackOrder {
    fn default() -> (order: Self)
        ensures
            order == PlaybackOrder::Random,
    {
        PlaybackOrder::Random
    }
}

/// What to do with themes.
#[derive(Debug, Clone)]
pub enum ThemeCommands {
    /// List the themes there are.
    List,
    /// Make the theme of this name the default.
    Select { name: String },
}

/// The subcommands.
#[derive(Debug, Clone)]
pub enum Commands {
    /// Save the keys of the services and enable narration.
    Setup,
    /// Manage themes.
    Theme { command: ThemeCommands },
    /// Replay the changes of the working tree.
    Diff {
        unstaged: bool,
        speed: Option<u64>,
        theme: Option<String>,
        background: Option<bool>,
        loop_playback: Option<bool>,
        ignore: Vec<String>,
        speed_rule: Vec<String>,
    },
}

/// The arguments of the command line.
#[derive(Debug, Clone)]
pub struct Args {
    /// Where the repository is: the current directory where `None`.
    pub path: Option<String>,
    pub commit: Option<String>,
    /// Typing speed in milliseconds per character.
    pub speed: Option<u64>,
    pub theme: Option<String>,
    pub background: Option<bool>,
    pub order: Option<PlaybackOrder>,
    pub loop_playback: Option<bool>,
    pub license: bool,
    pub author: Option<String>,
    pub before: Option<String>,
    pub after: Option<String>,
    pub ignore: Vec<String>,
    pub ignore_file: Option<String>,
    pub speed_rule: Vec<String>,
    pub voiceover: Option<bool>,
    pub elevenlabs: bool,
    pub voiceover_provider: Option<String>,
    pub command: Option<Commands>,
}

/// A directory, and whether it holds an entry named `.git`.
#[derive(Debug, Clone)]
pub struct DirProbe {
    pub path: String,
    pub has_git: bool,
}

/// What the file system says of the path that a session starts from.
#[derive(Debug, Clone)]
pub struct PathProbe {
    /// Whether the path exists.
    pub exists: bool,
    /// Whether the path could be resolved to an absolute one.
    pub resolved: bool,
    /// The directory that the resolved path stands for (its parent, where it
    /// is a file) and each directory above it, nearest first.
    pub ancestors: Vec<DirProbe>,
}

/// Why the arguments name no repository.
#[derive(Debug, Clone, Copy, PartialEq, Eq, Structural)]
pub enum ArgsError {
    /// The path does not exist.
    PathMissing,
    /// The path could not be resolved.
    Unresolved,
    /// Neither the path nor a directory above it is a Git repository.
    NotARepository,
}

/// Whether `at` is the first position in `dirs` of a directory with a `.git`
/// entry.
pub open spec fn is_first_git_dir(dirs: Seq<DirProbe>, at: int) -> bool {
    &&& 0 <= at < dirs.len()
    &&& dirs[at].has_git
    &&& forall|j: int| 0 <= j < at ==> !dirs[j].has_git
}

/// Whether one of `dirs` has a `.git` entry.
pub open spec fn any_git_dir(dirs: Seq<DirProbe>) -> bool {
    exists|i: int| 0 <= i < dirs.len() && dirs[i].has_git
}

impl ArgsError {
    /// The message for this error, given the path that the session was to
    /// start from.
    pub open spec fn spec_message(self, start: Seq<char>) -> Seq<char> {
        match self {
            ArgsError::PathMissing => "Path does not exist: "@ + start,
            ArgsError::Unresolved => "Failed to resolve path"@,
            ArgsError::NotARepository => "Not a Git repository: "@ + start
                + " (or any parent directories)"@,
        }
    }

    /// The message for this error, given the path that the session was to
    /// start from.
    pub fn message(&self, start: &str) -> (text: String)
        ensures
            text@ == self.spec_message(start@),
    {
        let mut out: Vec<char> = Vec::new();
        match self {
            ArgsError::PathMissing => {
                push_str_chars(&mut out, "Path does not exist: ");
                push_str_chars(&mut out, start);
            },
            ArgsError::Unresolved => {
                push_str_chars(&mut out, "Failed to resolve path");
            },
            ArgsError::NotARepository => {
                push_str_chars(&mut out, "Not a Git repository: ");
                push_str_chars(&mut out, start);
                push_str_chars(&mut out, " (or any parent directories)");
            },
        }
        assert(out@ =~= self.spec_message(start@));
        from_chars(&out)
    }
}

impl Args {
    /// The path that the session starts from: the current directory where
    /// none was given.
    pub open spec fn spec_start_path(&self) -> Seq<char> {
        match self.path {
            Some(path) => path@,
            None => "."@,
        }
    }

    /// The path that the session starts from: the current directory where
    /// none was given.
    pub fn start_path(&self) -> (path: String)
        ensures
            path@ == self.spec_start_path(),
    {
        match &self.path {
            Some(path) => path.clone(),
            None => {
                let mut out: Vec<char> = Vec::new();
                push_str_chars(&mut out, ".");
                from_chars(&out)
            },
        }
    }

    /// The root of the repository that holds the start path: the nearest of
    /// `ancestors` with a `.git` entry. `None` where none of them has one.
    pub fn find_git_root(ancestors: &Vec<DirProbe>) -> (root: Option<String>)
        ensures
            root is Some <==> any_git_dir(ancestors@),
            root matches Some(path) ==> exists|at: int|
                is_first_git_dir(ancestors@, at) && path@ == ancestors@[at].path@,
    {
        let mut i: usize = 0;
        while i < ancestors.len()
            invariant
                i <= ancestors.len(),
                forall|j: int| 0 <= j < i ==> !ancestors@[j].has_git,
            decreases ancestors.len() - i,
        {
            if ancestors[i].has_git {
                assert(is_first_git_dir(ancestors@, i as int));
                return Some(ancestors[i].path.clone());
            }
            i += 1;
        }
        None
    }

    /// What `validate` gives for a probe of the start path.
    pub open spec fn spec_validate(probe: PathProbe) -> Result<int, ArgsError> {
        if !probe.exists {
            Err(ArgsError::PathMissing)
        } else if !probe.resolved {
            Err(ArgsError::Unresolved)
        } else if !any_git_dir(probe.ancestors@) {
            Err(ArgsError::NotARepository)
        } else {
            Ok(choose|at: int| is_first_git_dir(probe.ancestors@, at))
        }
    }

    /// The root of the repository that the arguments name, given what the
    /// file system says of the start path. The path must exist and resolve,
    /// and it or a directory above it must hold a `.git` entry: the nearest
    /// such directory is the root.
    pub fn validate(&self, probe: &PathProbe) -> (root: Result<String, ArgsError>)
        ensures
            match root {
                Ok(path) => Self::spec_validate(*probe) is Ok && exists|at: int|
                    is_first_git_dir(probe.ancestors@, at) && path@ == probe.ancestors@[at].path@,
                Err(error) => Self::spec_validate(*probe) == Err::<int, ArgsError>(error),
            },
    {
        if !probe.exists {
            return Err(ArgsError::PathMissing);
        }
        if !probe.resolved {
            return Err(ArgsError::Unresolved);
        }
        match Self::find_git_root(&probe.ancestors) {
            Some(path) => Ok(path),
            None => Err(ArgsError::NotARepository),
        }
    }
}

} // verus!
