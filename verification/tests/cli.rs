use torvax::cli::{Args, ArgsError, DirProbe, PathProbe, PlaybackOrder};

fn args(path: Option<&str>) -> Args {
    Args {
        path: path.map(|p| p.to_string()),
        commit: None,
        speed: None,
        theme: None,
        background: None,
        order: None,
        loop_playback: None,
        license: false,
        author: None,
        before: None,
        after: None,
        ignore: vec![],
        ignore_file: None,
        speed_rule: vec![],
        voiceover: None,
        elevenlabs: false,
        voiceover_provider: None,
        command: None,
    }
}

fn dir(path: &str, has_git: bool) -> DirProbe {
    DirProbe { path: path.to_string(), has_git }
}

#[test]
fn start_path_defaults_to_current_directory() {
    assert_eq!(args(None).start_path(), ".");
    assert_eq!(args(Some("/work/repo")).start_path(), "/work/repo");
    assert_eq!(PlaybackOrder::default(), PlaybackOrder::Random);
}

#[test]
fn git_root_is_nearest_directory_with_git() {
    let dirs = vec![dir("/a/b/c", false), dir("/a/b", true), dir("/a", true), dir("/", false)];
    assert_eq!(Args::find_git_root(&dirs), Some("/a/b".to_string()));
    assert_eq!(Args::find_git_root(&vec![dir("/a", true)]), Some("/a".to_string()));
    assert_eq!(Args::find_git_root(&vec![dir("/a", false), dir("/", false)]), None);
    assert_eq!(Args::find_git_root(&vec![]), None);
}

#[test]
fn validate_reports_each_failure() {
    let found = PathProbe { exists: true, resolved: true, ancestors: vec![dir("/r/src", false), dir("/r", true)] };
    assert_eq!(args(None).validate(&found), Ok("/r".to_string()));
    let missing = PathProbe { exists: false, resolved: true, ancestors: vec![dir("/r", true)] };
    assert_eq!(args(None).validate(&missing), Err(ArgsError::PathMissing));
    let unresolved = PathProbe { exists: true, resolved: false, ancestors: vec![dir("/r", true)] };
    assert_eq!(args(None).validate(&unresolved), Err(ArgsError::Unresolved));
    let bare = PathProbe { exists: true, resolved: true, ancestors: vec![dir("/r", false)] };
    assert_eq!(args(None).validate(&bare), Err(ArgsError::NotARepository));
}

#[test]
fn error_messages_name_the_path() {
    assert_eq!(ArgsError::PathMissing.message("x/y"), "Path does not exist: x/y");
    assert_eq!(ArgsError::Unresolved.message("x/y"), "Failed to resolve path");
    assert_eq!(ArgsError::NotARepository.message("."), "Not a Git repository: . (or any parent directories)");
}
