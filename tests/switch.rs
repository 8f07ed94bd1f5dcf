use git_profile::{
    is_valid_profile_name, path_lies_under, plan_switch, profile_path, switch,
    validate_profile_name, DefaultGitProfileDir, GitConfig, GitProfileError, MemoryGitConfig,
};

fn store_with(paths: &[&str]) -> MemoryGitConfig {
    let mut config = MemoryGitConfig::new();
    for p in paths {
        config.include_paths.push(p.to_string());
    }
    config
}

#[test]
fn test_switch_with_mock_config() {
    let mut mock_config = MemoryGitConfig::new();
    let mock_profile_dir = DefaultGitProfileDir::from_path("/test/config/git-profile");
    let result = switch("testprofile", false, &mock_profile_dir, &mut mock_config);
    assert!(result.is_ok());
    assert_eq!(
        mock_config.include_paths.last(),
        Some(&"/test/config/git-profile/testprofile.gitconfig".to_string())
    );
}

#[test]
fn test_switch_global_flag() {
    let mut mock_config = MemoryGitConfig::new();
    let mock_profile_dir = DefaultGitProfileDir::from_path("/test/config/git-profile");
    let result = switch("globalprofile", true, &mock_profile_dir, &mut mock_config);
    assert!(result.is_ok());
    assert_eq!(
        mock_config.include_paths.last(),
        Some(&"/test/config/git-profile/globalprofile.gitconfig".to_string())
    );
}

#[test]
fn test_validate_profile_name() {
    // Valid profile names
    assert!(validate_profile_name("work").is_ok());
    assert!(validate_profile_name("personal").is_ok());
    assert!(validate_profile_name("project-123").is_ok());
    assert!(validate_profile_name("my_profile").is_ok());

    // Invalid profile names
    assert!(validate_profile_name("").is_err());
    assert!(validate_profile_name("invalid/profile").is_err());
    assert!(validate_profile_name("invalid\\profile").is_err());
    assert!(validate_profile_name("invalid\0profile").is_err());
    assert!(validate_profile_name(".").is_err());
    assert!(validate_profile_name("..").is_err());
}

#[test]
fn test_switch_preserves_other_includes() {
    let mut mock_config = MemoryGitConfig::new();
    let mock_profile_dir = DefaultGitProfileDir::from_path("/home/user/.config/git-profile");
    // Set up existing includes
    mock_config
        .include_paths
        .push("/path/to/delta.gitconfig".to_string());
    mock_config
        .include_paths
        .push("/another/config.gitconfig".to_string());
    let result = switch("work", false, &mock_profile_dir, &mut mock_config);
    assert!(result.is_ok());
    // Check that other includes are preserved
    let paths = mock_config.get_include_paths().unwrap();
    assert_eq!(paths.len(), 3);
    assert_eq!(paths[0], "/path/to/delta.gitconfig");
    assert_eq!(paths[1], "/another/config.gitconfig");
    assert_eq!(paths[2], "/home/user/.config/git-profile/work.gitconfig");
}

#[test]
fn test_switch_replaces_previous_git_profile() {
    let mut mock_config = MemoryGitConfig::new();
    let mock_profile_dir = DefaultGitProfileDir::from_path("/home/user/.config/git-profile");
    // Set up existing includes including a git-profile one
    mock_config
        .include_paths
        .push("/path/to/delta.gitconfig".to_string());
    mock_config
        .include_paths
        .push("/home/user/.config/git-profile/personal.gitconfig".to_string());
    let result = switch("work", false, &mock_profile_dir, &mut mock_config);
    assert!(result.is_ok());
    // Check that the old git-profile include is replaced
    let paths = mock_config.get_include_paths().unwrap();
    assert_eq!(paths.len(), 2);
    assert_eq!(paths[0], "/path/to/delta.gitconfig");
    assert_eq!(paths[1], "/home/user/.config/git-profile/work.gitconfig");
}

#[test]
fn test_switch_with_invalid_profile_names() {
    let mut mock_config = MemoryGitConfig::new();
    let mock_profile_dir = DefaultGitProfileDir::from_path("/test/config");

    // Test empty profile name
    let result = switch("", false, &mock_profile_dir, &mut mock_config);
    assert!(result.is_err());

    // Test profile name with forward slash
    let result = switch(
        "invalid/profile",
        false,
        &mock_profile_dir,
        &mut mock_config,
    );
    assert!(result.is_err());

    // Test profile name with backslash
    let result = switch(
        "invalid\\profile",
        false,
        &mock_profile_dir,
        &mut mock_config,
    );
    assert!(result.is_err());

    // Test profile name with null character
    let result = switch(
        "invalid\0profile",
        false,
        &mock_profile_dir,
        &mut mock_config,
    );
    assert!(result.is_err());

    // Test "." as profile name
    let result = switch(".", false, &mock_profile_dir, &mut mock_config);
    assert!(result.is_err());

    // Test ".." as profile name
    let result = switch("..", false, &mock_profile_dir, &mut mock_config);
    assert!(result.is_err());
}

#[test]
fn invalid_name_leaves_store_unchanged_and_names_the_input() {
    let mut config = store_with(&["/etc/a.gitconfig", "/p/x.gitconfig"]);
    let dir = DefaultGitProfileDir::from_path("/p");
    let result = switch("a/b", false, &dir, &mut config);
    match result {
        Err(GitProfileError::ProfilePath { path }) => assert_eq!(path, "a/b"),
        other => panic!("unexpected result: {:?}", other),
    }
    assert_eq!(config.include_paths, vec!["/etc/a.gitconfig", "/p/x.gitconfig"]);
}

#[test]
fn valid_and_invalid_names() {
    for name in ["", ".", "..", "a/b", "a\\b", "a\0b"] {
        assert!(!is_valid_profile_name(name), "{:?} should be refused", name);
    }
    for name in ["work", "my_profile", "project-123", "...", ".hidden", "a.b"] {
        assert!(is_valid_profile_name(name), "{:?} should be accepted", name);
    }
}

#[test]
fn switching_twice_is_the_same_as_once() {
    let dir = DefaultGitProfileDir::from_path("/home/u/.config/git-profile");
    let start = [
        "/etc/other.gitconfig",
        "/home/u/.config/git-profile/personal.gitconfig",
        "/opt/x.gitconfig",
        "/home/u/.config/git-profile/old.gitconfig",
    ];
    let mut once = store_with(&start);
    switch("work", false, &dir, &mut once).unwrap();
    let mut twice = store_with(&start);
    switch("work", false, &dir, &mut twice).unwrap();
    switch("work", false, &dir, &mut twice).unwrap();
    assert_eq!(once.include_paths, twice.include_paths);
    assert_eq!(
        once.include_paths,
        vec![
            "/etc/other.gitconfig",
            "/opt/x.gitconfig",
            "/home/u/.config/git-profile/work.gitconfig"
        ]
    );
}

#[test]
fn foreign_values_are_kept_in_order() {
    let dir = DefaultGitProfileDir::from_path("/home/u/.config/git-profile");
    let start = [
        "/z/last.gitconfig",
        "/home/u/.config/git-profile2/near.gitconfig",
        "relative.gitconfig",
        "/a/first.gitconfig",
    ];
    let mut config = store_with(&start);
    switch("home", true, &dir, &mut config).unwrap();
    let mut expected: Vec<String> = start.iter().map(|s| s.to_string()).collect();
    expected.push("/home/u/.config/git-profile/home.gitconfig".to_string());
    assert_eq!(config.include_paths, expected);
}

#[test]
fn at_most_one_managed_value_after_each_switch() {
    let dir = DefaultGitProfileDir::from_path("/p/profiles");
    let mut config = store_with(&[
        "/p/profiles/a.gitconfig",
        "/q/keep.gitconfig",
        "/p/profiles/b.gitconfig",
        "/p/profiles/sub/c.gitconfig",
    ]);
    for name in ["work", "personal", "work", "oss"] {
        switch(name, false, &dir, &mut config).unwrap();
        let managed: Vec<&String> = config
            .include_paths
            .iter()
            .filter(|p| path_lies_under(p, "/p/profiles"))
            .collect();
        assert_eq!(managed.len(), 1);
        assert_eq!(*managed[0], format!("/p/profiles/{}.gitconfig", name));
        assert_eq!(config.include_paths[0], "/q/keep.gitconfig");
    }
    assert_eq!(config.include_paths.len(), 2);
}

#[test]
fn end_to_end_switch_from_personal_to_work() {
    let dir = DefaultGitProfileDir::from_path("/home/u/.config/git-profile");
    let mut config = store_with(&[
        "/etc/other.gitconfig",
        "/home/u/.config/git-profile/personal.gitconfig",
    ]);
    let message = switch("work", false, &dir, &mut config).unwrap();
    assert_eq!(
        config.include_paths,
        vec![
            "/etc/other.gitconfig",
            "/home/u/.config/git-profile/work.gitconfig"
        ]
    );
    assert_eq!(message, "Local git profile switched to: work");
}

#[test]
fn switch_messages_name_the_scope() {
    let dir = DefaultGitProfileDir::from_path("/d");
    let mut config = MemoryGitConfig::new();
    assert_eq!(
        switch("me", true, &dir, &mut config).unwrap(),
        "Global git profile switched to: me"
    );
    assert_eq!(
        switch("me", false, &dir, &mut config).unwrap(),
        "Local git profile switched to: me"
    );
}

#[test]
fn lies_under_compares_whole_components() {
    assert!(path_lies_under("/home/u/.config/git-profile/a.gitconfig", "/home/u/.config/git-profile"));
    assert!(path_lies_under("/home/u/.config/git-profile/a.gitconfig", "/home/u/.config/git-profile/"));
    assert!(path_lies_under("/home/u/.config//git-profile/./a.gitconfig", "/home/u/.config/git-profile"));
    assert!(path_lies_under("/home/u/.config/git-profile", "/home/u/.config/git-profile"));
    assert!(!path_lies_under("/home/u/.config/git-profile2/a.gitconfig", "/home/u/.config/git-profile"));
    assert!(!path_lies_under("/home/u/.config/a.gitconfig", "/home/u/.config/git-profile"));
    assert!(!path_lies_under("home/u/.config/git-profile/a.gitconfig", "/home/u/.config/git-profile"));
    assert!(!path_lies_under("/a.gitconfig", "a"));
    assert!(path_lies_under("/anything", ""));
    assert!(path_lies_under("rel/x", "rel"));
}

#[test]
fn profile_path_joins_directory_name_and_extension() {
    assert_eq!(profile_path("/d", "work"), "/d/work.gitconfig");
    assert_eq!(profile_path("/d/", "work"), "/d//work.gitconfig");
    assert_eq!(profile_path("", "x"), "/x.gitconfig");
}

#[test]
fn plan_lists_managed_values_and_the_new_path() {
    let existing: Vec<String> = vec![
        "/p/a.gitconfig".to_string(),
        "/q/b.gitconfig".to_string(),
        "/p/a.gitconfig".to_string(),
        "/pp/c.gitconfig".to_string(),
    ];
    let plan = plan_switch("w", "/p", &existing).unwrap();
    assert_eq!(plan.remove, vec!["/p/a.gitconfig", "/p/a.gitconfig"]);
    assert_eq!(plan.add, "/p/w.gitconfig");
    match plan_switch("..", "/p", &existing) {
        Err(GitProfileError::ProfilePath { path }) => assert_eq!(path, ".."),
        other => panic!("unexpected result: {:?}", other),
    }
}

#[test]
fn switch_without_profile_directory_still_writes_the_path() {
    let dir = DefaultGitProfileDir::from_path("/does/not/exist");
    let mut config = MemoryGitConfig::new();
    switch("new", false, &dir, &mut config).unwrap();
    assert_eq!(config.include_paths, vec!["/does/not/exist/new.gitconfig"]);
}

#[test]
fn memory_store_removes_every_equal_value() {
    let mut config = store_with(&["/a", "/b", "/a", "/c"]);
    config.remove_include_path("/a").unwrap();
    assert_eq!(config.include_paths, vec!["/b", "/c"]);
    config.add_include_path("/a").unwrap();
    assert_eq!(config.get_include_paths().unwrap(), vec!["/b", "/c", "/a"]);
}

#[test]
fn exact_value_pattern_escapes_special_characters() {
    assert_eq!(
        git_profile::exact_value_pattern("/a/b.c+d"),
        "^/a/b\\.c\\+d$"
    );
    assert_eq!(
        git_profile::exact_value_pattern("x(1)[2]{3}|^$*?\\"),
        "^x\\(1\\)\\[2]\\{3}\\|\\^\\$\\*\\?\\\\$"
    );
    assert_eq!(git_profile::exact_value_pattern(""), "^$");
}
