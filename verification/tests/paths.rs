use twine::paths::{join_path, repo_path, validate_segment, PathError, SegmentField};

#[test]
fn test_repo_path_uses_expected_layout() {
    let path = repo_path("/home/git", "alice", "myrepo").expect("path should resolve");
    assert_eq!(path, "/home/git/alice/myrepo");
}

#[test]
fn test_repo_path_rejects_traversal() {
    let error = repo_path("/home/git", "alice", "../repo").expect_err("traversal should fail");
    assert!(error
        .message()
        .contains("repo contains path traversal characters"));
}

#[test]
fn repo_path_rejects_empty_owner_first() {
    let error = repo_path("/home/git", "", "../repo").expect_err("empty owner should fail");
    assert_eq!(error, PathError::Empty(SegmentField::Owner));
    assert_eq!(error.message(), "owner cannot be empty");
}

#[test]
fn repo_path_rejects_slashes_and_backslashes() {
    assert_eq!(
        repo_path("/home/git", "al/ice", "demo"),
        Err(PathError::Traversal(SegmentField::Owner))
    );
    assert_eq!(
        repo_path("/home/git", "alice", "de\\mo"),
        Err(PathError::Traversal(SegmentField::Repo))
    );
    assert_eq!(
        repo_path("/home/git", "alice", ""),
        Err(PathError::Empty(SegmentField::Repo))
    );
}

#[test]
fn repo_path_accepts_single_dots() {
    assert_eq!(
        repo_path("/srv/", "a.b", "c.d.e").as_deref(),
        Ok("/srv/a.b/c.d.e")
    );
}

#[test]
fn join_path_follows_pathbuf_push() {
    assert_eq!(join_path("/home/git", "alice"), "/home/git/alice");
    assert_eq!(join_path("/home/git/", "alice"), "/home/git/alice");
    assert_eq!(join_path("", "alice"), "alice");
    assert_eq!(join_path("/home/git", "/etc"), "/etc");
}

#[test]
fn validate_segment_accepts_plain_names() {
    assert_eq!(validate_segment("demo", SegmentField::Repo), Ok(()));
    assert_eq!(
        validate_segment("x..y", SegmentField::Repo),
        Err(PathError::Traversal(SegmentField::Repo))
    );
}
