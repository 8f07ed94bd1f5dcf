use git_profile::{ConfigDirGitProfile, DefaultGitProfileDir, GitProfileDir, GitProfileError};

#[test]
fn directory_from_xdg_config_home() {
    let dir = DefaultGitProfileDir::new(Some("/x/config"), Some("/home/u")).unwrap();
    assert_eq!(dir.path(), "/x/config/git-profile");
}

#[test]
fn directory_from_home() {
    let dir = DefaultGitProfileDir::new(None, Some("/home/u")).unwrap();
    assert_eq!(dir.path(), "/home/u/.config/git-profile");
}

#[test]
fn directory_needs_home_or_xdg_config_home() {
    match ConfigDirGitProfile::new(None, None) {
        Err(GitProfileError::Environment { variable }) => assert_eq!(variable, "HOME"),
        other => panic!("unexpected result: {:?}", other),
    }
}

#[test]
fn directory_at_a_given_path() {
    let dir = DefaultGitProfileDir::from_path("/somewhere");
    assert_eq!(dir.path(), "/somewhere");
}
