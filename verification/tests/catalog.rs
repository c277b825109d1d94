use twine::access::{Members, RepoRole};
use twine::catalog::{
    branch_listing, lookup_role, service_failed, tag_listing, ApiErrorKind, Repo, RepoCatalog,
};

fn catalog_with_demo() -> RepoCatalog {
    let mut catalog = RepoCatalog::new();
    catalog
        .create_repo(Some("alice"), "alice".to_owned(), "demo".to_owned(), None)
        .expect("create should succeed");
    catalog
}

#[test]
fn test_create_repo_requires_actor_header() {
    let mut catalog = RepoCatalog::new();
    let error = catalog
        .create_repo(None, "alice".to_owned(), "demo".to_owned(), None)
        .expect_err("no actor");
    assert_eq!(error.kind, ApiErrorKind::AuthRequired);
    assert_eq!(error.kind.status(), 401);
    assert_eq!(error.message, "x-actor-id header is required");
    assert_eq!(catalog.len(), 0);
}

#[test]
fn create_repo_for_someone_else_is_forbidden() {
    let mut catalog = RepoCatalog::new();
    let error = catalog
        .create_repo(Some("bob"), "alice".to_owned(), "demo".to_owned(), None)
        .expect_err("not own account");
    assert_eq!(error.kind, ApiErrorKind::Forbidden);
    assert_eq!(
        error.message,
        "actor can only create repositories for their own account"
    );
}

#[test]
fn created_repo_has_owner_main_branch_and_no_tags() {
    let mut catalog = RepoCatalog::new();
    let repo = catalog
        .create_repo(
            Some("alice"),
            "alice".to_owned(),
            "demo".to_owned(),
            Some("a demo".to_owned()),
        )
        .expect("create should succeed");
    assert_eq!(repo.owner, "alice");
    assert_eq!(repo.name, "demo");
    assert_eq!(repo.description.as_deref(), Some("a demo"));
    assert_eq!(repo.default_branch, "main");
    assert_eq!(repo.branches, vec!["main".to_owned()]);
    assert!(repo.tags.is_empty());
    assert_eq!(lookup_role(&repo, "alice"), Some(RepoRole::Owner));
    assert_eq!(lookup_role(&repo, "bob"), None);
    assert_eq!(catalog.len(), 1);
}

#[test]
fn creating_twice_conflicts() {
    let mut catalog = catalog_with_demo();
    let error = catalog
        .create_repo(Some("alice"), "alice".to_owned(), "demo".to_owned(), None)
        .expect_err("exists");
    assert_eq!(error.kind, ApiErrorKind::AlreadyExists);
    assert_eq!(error.kind.status(), 409);
    assert_eq!(catalog.len(), 1);
}

#[test]
fn test_collaborator_cannot_push() {
    let mut catalog = catalog_with_demo();
    let change = catalog
        .add_member(
            Some("alice"),
            "alice",
            "demo",
            "bob".to_owned(),
            RepoRole::Collaborator,
        )
        .expect("owner may add members");
    assert_eq!(change.previous, None);
    assert_eq!(lookup_role(&change.repo, "bob"), Some(RepoRole::Collaborator));

    assert!(catalog
        .authorize_info_refs(Some("bob"), "alice", "demo", "git-upload-pack")
        .is_ok());
    let push = catalog
        .authorize_service_post("bob", "alice", "demo", "git-receive-pack", b"")
        .expect_err("collaborator push");
    assert_eq!(push.kind, ApiErrorKind::Forbidden);
    assert_eq!(push.kind.status(), 403);
    assert_eq!(push.message, "service access denied");
    let advert = catalog
        .authorize_info_refs(Some("bob"), "alice", "demo", "git-receive-pack")
        .expect_err("collaborator receive-pack advertisement");
    assert_eq!(advert.kind, ApiErrorKind::Forbidden);
}

#[test]
fn owner_and_member_can_push() {
    let mut catalog = catalog_with_demo();
    catalog
        .add_member(Some("alice"), "alice", "demo", "carol".to_owned(), RepoRole::Member)
        .expect("owner may add members");
    assert!(catalog
        .authorize_service_post("alice", "alice", "demo", "git-receive-pack", b"0000")
        .is_ok());
    assert!(catalog
        .authorize_service_post("carol", "alice", "demo", "git-receive-pack", b"0000")
        .is_ok());
    assert!(catalog
        .authorize_service_post("carol", "alice", "demo", "git-upload-pack", b"")
        .is_ok());
}

#[test]
fn strangers_and_missing_repos_are_refused() {
    let catalog = catalog_with_demo();
    let stranger = catalog
        .authorize_service_post("mallory", "alice", "demo", "git-upload-pack", b"")
        .expect_err("no role");
    assert_eq!(stranger.message, "actor has no role in this repository");
    let missing = catalog
        .authorize_read(Some("alice"), "alice", "nope")
        .expect_err("missing");
    assert_eq!(missing.kind, ApiErrorKind::NotFound);
    assert_eq!(missing.kind.status(), 404);
}

#[test]
fn unknown_service_is_a_bad_request() {
    let catalog = catalog_with_demo();
    let error = catalog
        .authorize_info_refs(Some("alice"), "alice", "demo", "git-archive")
        .expect_err("bad service");
    assert_eq!(error.kind, ApiErrorKind::InvalidRequest);
    assert_eq!(error.kind.status(), 400);
    assert_eq!(
        error.message,
        "service must be git-upload-pack or git-receive-pack"
    );
}

#[test]
fn only_owners_manage_members_and_delete() {
    let mut catalog = catalog_with_demo();
    catalog
        .add_member(Some("alice"), "alice", "demo", "carol".to_owned(), RepoRole::Member)
        .expect("owner may add members");
    let error = catalog
        .add_member(Some("carol"), "alice", "demo", "dave".to_owned(), RepoRole::Member)
        .expect_err("member cannot manage");
    assert_eq!(error.message, "only owners may manage members");
    let error = catalog
        .delete_repo(Some("carol"), "alice", "demo")
        .expect_err("member cannot delete");
    assert_eq!(error.message, "only owners may delete repositories");
    assert_eq!(catalog.len(), 1);
}

#[test]
fn delete_and_restore() {
    let mut catalog = catalog_with_demo();
    let removed = catalog
        .delete_repo(Some("alice"), "alice", "demo")
        .expect("owner may delete");
    assert_eq!(removed.name, "demo");
    assert_eq!(catalog.len(), 0);
    assert!(catalog.get_repo(Some("alice"), "alice", "demo").is_err());
    catalog.restore_repo(removed);
    let back = catalog
        .get_repo(Some("alice"), "alice", "demo")
        .expect("restored");
    assert_eq!(back.default_branch, "main");
}

#[test]
fn revert_member_restores_previous_role() {
    let mut catalog = catalog_with_demo();
    catalog
        .add_member(Some("alice"), "alice", "demo", "bob".to_owned(), RepoRole::Member)
        .expect("add");
    let change = catalog
        .add_member(
            Some("alice"),
            "alice",
            "demo",
            "bob".to_owned(),
            RepoRole::Collaborator,
        )
        .expect("change role");
    assert_eq!(change.previous, Some(RepoRole::Member));
    catalog.revert_member("alice", "demo", "bob", change.previous);
    let repo = catalog.get_repo(Some("alice"), "alice", "demo").expect("get");
    assert_eq!(lookup_role(&repo, "bob"), Some(RepoRole::Member));

    let change = catalog
        .add_member(Some("alice"), "alice", "demo", "erin".to_owned(), RepoRole::Member)
        .expect("add erin");
    catalog.revert_member("alice", "demo", "erin", change.previous);
    let repo = catalog.get_repo(Some("alice"), "alice", "demo").expect("get");
    assert_eq!(lookup_role(&repo, "erin"), None);
}

#[test]
fn test_owner_can_list_branches() {
    let catalog = catalog_with_demo();
    let repo = catalog
        .authorize_read(Some("alice"), "alice", "demo")
        .expect("owner may read");
    let (branches, default_branch) = branch_listing(repo, None);
    assert_eq!(branches, vec!["main".to_owned()]);
    assert_eq!(default_branch, "main");
    let stored = (vec!["dev".to_owned(), "main".to_owned()], "dev".to_owned());
    let (branches, default_branch) = branch_listing(repo, Some(stored));
    assert_eq!(branches, vec!["dev".to_owned(), "main".to_owned()]);
    assert_eq!(default_branch, "dev");
    assert!(tag_listing(repo, None).is_empty());
    assert_eq!(tag_listing(repo, Some(vec!["v1".to_owned()])), vec!["v1".to_owned()]);
}

#[test]
fn catalog_round_trips_through_repo_list() {
    let mut catalog = catalog_with_demo();
    catalog
        .create_repo(Some("bob"), "bob".to_owned(), "tools".to_owned(), None)
        .expect("bob creates");
    let listed = catalog.to_repos();
    assert_eq!(listed.len(), 2);
    let rebuilt = RepoCatalog::from_repos(listed);
    assert_eq!(rebuilt.len(), 2);
    assert!(rebuilt.get_repo(Some("bob"), "bob", "tools").is_ok());
}

#[test]
fn later_repo_with_same_key_wins_when_loading() {
    let first = Repo::create("alice".to_owned(), "demo".to_owned(), Some("old".to_owned()));
    let second = Repo::create("alice".to_owned(), "demo".to_owned(), Some("new".to_owned()));
    let catalog = RepoCatalog::from_repos(vec![first, second]);
    assert_eq!(catalog.len(), 1);
    let repo = catalog.get_repo(Some("alice"), "alice", "demo").expect("get");
    assert_eq!(repo.description.as_deref(), Some("new"));
}

#[test]
fn members_insert_get_remove() {
    let mut members = Members::new();
    assert_eq!(members.insert("a".to_owned(), RepoRole::Owner), None);
    assert_eq!(members.insert("a".to_owned(), RepoRole::Member), Some(RepoRole::Owner));
    assert_eq!(members.get("a"), Some(RepoRole::Member));
    assert_eq!(members.remove("a"), Some(RepoRole::Member));
    assert_eq!(members.get("a"), None);
    let built = Members::from_entries(vec![
        ("x".to_owned(), RepoRole::Owner),
        ("x".to_owned(), RepoRole::Collaborator),
    ]);
    assert_eq!(built.to_entries(), vec![("x".to_owned(), RepoRole::Collaborator)]);
}

#[test]
fn roles_and_their_rights() {
    assert!(RepoRole::Owner.can_read() && RepoRole::Owner.can_write() && RepoRole::Owner.can_admin());
    assert!(RepoRole::Member.can_read() && RepoRole::Member.can_write() && !RepoRole::Member.can_admin());
    assert!(
        RepoRole::Collaborator.can_read()
            && !RepoRole::Collaborator.can_write()
            && !RepoRole::Collaborator.can_admin()
    );
}

#[test]
fn error_codes_and_statuses() {
    let e = service_failed("git-upload-pack");
    assert_eq!(e.kind.code(), "TransportError");
    assert_eq!(e.kind.status(), 502);
    assert_eq!(e.message, "failed to execute git-upload-pack");
    assert_eq!(ApiErrorKind::PayloadTooLarge.status(), 413);
    assert_eq!(ApiErrorKind::InternalError.status(), 500);
    assert_eq!(ApiErrorKind::PolicyDenied.status(), 403);
}
