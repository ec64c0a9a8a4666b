use igor_install::source::{
    classify_source, clone_plan, is_git_url, CloneAction, SourceKind,
};

#[test]
fn http_prefix_is_remote() {
    assert!(is_git_url("http://example.com/repo"));
    assert!(is_git_url("https://example.com/repo"));
    assert_eq!(
        classify_source("https://example.com/repo"),
        SourceKind::RemoteRepo
    );
}

#[test]
fn git_prefix_is_remote() {
    assert!(is_git_url("git@github.com:me/repo.git"));
    assert!(is_git_url("git://host/repo"));
    assert_eq!(classify_source("git@host:repo"), SourceKind::RemoteRepo);
}

#[test]
fn bare_prefix_alone_is_remote() {
    assert!(is_git_url("http"));
    assert!(is_git_url("git"));
}

#[test]
fn other_strings_are_local_paths() {
    assert!(!is_git_url("/home/me/procs"));
    assert!(!is_git_url("C:\\procs"));
    assert!(!is_git_url("relative/dir"));
    assert!(!is_git_url(""));
    assert!(!is_git_url("Git@host"));
    assert!(!is_git_url("HTTP://host"));
    assert_eq!(classify_source("/home/me/procs"), SourceKind::LocalPath);
}

#[test]
fn clone_plan_targets_cache_by_repo_name() {
    let plan = clone_plan("/home/me", "https://example.com/group/proj", false);
    assert_eq!(plan.repo_dir, "/home/me/.igor/proj");
    assert_eq!(plan.action, CloneAction::PerformClone);
}

#[test]
fn clone_plan_reuses_existing_directory() {
    // A first run clones; a second run over the now-present directory aims
    // at the same path and performs no clone.
    let first = clone_plan("/home/me", "https://example.com/group/proj", false);
    let second = clone_plan("/home/me", "https://example.com/group/proj", true);
    assert_eq!(first.repo_dir, second.repo_dir);
    assert_eq!(first.action, CloneAction::PerformClone);
    assert_eq!(second.action, CloneAction::Reuse);
}

#[test]
fn repo_name_without_slash_is_whole_string() {
    let plan = clone_plan("/h", "myrepo", true);
    assert_eq!(plan.repo_dir, "/h/.igor/myrepo");
}

#[test]
fn repo_name_falls_back_on_placeholder() {
    let plan = clone_plan("/h", "https://example.com/group/", false);
    assert_eq!(plan.repo_dir, "/h/.igor/repository");
    let empty = clone_plan("/h", "", false);
    assert_eq!(empty.repo_dir, "/h/.igor/repository");
}
