use twine::indexer::{
    plan_from_records, plan_reindex, reindex_due, RefCategory, RefRecord, ReindexOutcome, ReindexPlan,
};
use twine::metadata::{
    index_state_key, now_unix_secs, refs_snapshot_key, secs_or_zero, HeadOids, IndexState, RefsSnapshot, RepoKey,
};

#[test]
fn repo_key_prefix_and_store_keys() {
    let key = RepoKey::new("alice", "demo");
    assert_eq!(key.owner, "alice");
    assert_eq!(key.repo, "demo");
    assert_eq!(key.as_prefix(), "alice/demo");
    assert_eq!(refs_snapshot_key(&key), "repo/alice/demo/refs");
    assert_eq!(index_state_key(&key), "repo/alice/demo/index-state");
}

#[test]
fn upserted_snapshot_sorts_branches_and_tags() {
    let snapshot = RefsSnapshot::sorted_snapshot(
        "main",
        vec!["main".to_owned(), "dev".to_owned()],
        vec!["v2".to_owned(), "v1.0.0".to_owned()],
        42,
    );
    assert_eq!(snapshot.default_branch, "main");
    assert_eq!(snapshot.branches, vec!["dev".to_owned(), "main".to_owned()]);
    assert_eq!(snapshot.tags, vec!["v1.0.0".to_owned(), "v2".to_owned()]);
    assert_eq!(snapshot.updated_at_unix_secs, 42);
}

#[test]
fn clock_reading_before_the_epoch_counts_as_zero() {
    assert_eq!(secs_or_zero(Some(1_700_000_000)), 1_700_000_000);
    assert_eq!(secs_or_zero(None), 0);
}

#[test]
fn clock_is_after_2020() {
    assert!(now_unix_secs() > 1_577_836_800);
}

#[test]
fn test_reindex_if_due_skips_when_interval_not_elapsed() {
    let now = now_unix_secs();
    let state = IndexState {
        last_indexed_at_unix_secs: now,
        head_oids: HeadOids::empty(),
    };
    assert!(!reindex_due(Some(&state), now, 300));
}

#[test]
fn reindex_is_due_when_never_indexed_or_interval_passed() {
    assert!(reindex_due(None, 10, 300));
    let state = IndexState {
        last_indexed_at_unix_secs: 100,
        head_oids: HeadOids::empty(),
    };
    assert!(reindex_due(Some(&state), 400, 300));
    assert!(!reindex_due(Some(&state), 399, 300));
    // A clock that went backwards counts as no time elapsed.
    assert!(!reindex_due(Some(&state), 50, 300));
    assert!(reindex_due(Some(&state), 50, 0));
}

fn record(full: &str, category: RefCategory, short: &str, oid: Option<&str>) -> RefRecord {
    RefRecord {
        full_name: full.to_owned(),
        category,
        short_name: short.to_owned(),
        peeled_oid: oid.map(|o| o.to_owned()),
    }
}

fn sample_refs() -> Vec<RefRecord> {
    vec![
        record("refs/heads/main", RefCategory::LocalBranch, "main", Some("aa")),
        record("refs/heads/dev", RefCategory::LocalBranch, "dev", Some("bb")),
        record("refs/tags/v1", RefCategory::Tag, "v1", Some("cc")),
        record("refs/notes/x", RefCategory::Other, "notes/x", None),
    ]
}

#[test]
fn first_reindex_records_branches_tags_and_default() {
    let plan = plan_from_records(sample_refs(), None, None, 7);
    assert_eq!(plan.outcome(), ReindexOutcome::Indexed);
    match plan {
        ReindexPlan::Indexed(snapshot, state) => {
            assert_eq!(snapshot.branches, vec!["main".to_owned(), "dev".to_owned()]);
            assert_eq!(snapshot.tags, vec!["v1".to_owned()]);
            assert_eq!(snapshot.default_branch, "main");
            assert_eq!(snapshot.updated_at_unix_secs, 7);
            assert_eq!(state.last_indexed_at_unix_secs, 7);
            let mut pairs = state.head_oids.pairs();
            pairs.sort();
            assert_eq!(
                pairs,
                vec![
                    ("refs/heads/dev".to_owned(), "bb".to_owned()),
                    ("refs/heads/main".to_owned(), "aa".to_owned()),
                    ("refs/tags/v1".to_owned(), "cc".to_owned()),
                ]
            );
        }
        ReindexPlan::Unchanged(_) => panic!("expected a new snapshot"),
    }
}

#[test]
fn head_branch_wins_and_main_is_the_last_resort() {
    match plan_from_records(sample_refs(), Some("dev".to_owned()), None, 1) {
        ReindexPlan::Indexed(snapshot, _) => assert_eq!(snapshot.default_branch, "dev"),
        ReindexPlan::Unchanged(_) => panic!("expected a new snapshot"),
    }
    match plan_from_records(Vec::new(), None, None, 1) {
        ReindexPlan::Indexed(snapshot, _) => {
            assert_eq!(snapshot.default_branch, "main");
            assert!(snapshot.branches.is_empty());
        }
        ReindexPlan::Unchanged(_) => panic!("expected a new snapshot"),
    }
}

#[test]
fn unchanged_refs_only_refresh_the_time() {
    let previous = IndexState {
        last_indexed_at_unix_secs: 3,
        head_oids: HeadOids::from_pairs(vec![
            ("refs/tags/v1".to_owned(), "cc".to_owned()),
            ("refs/heads/dev".to_owned(), "bb".to_owned()),
            ("refs/heads/main".to_owned(), "aa".to_owned()),
        ]),
    };
    let plan = plan_from_records(sample_refs(), None, Some(previous), 9);
    assert_eq!(plan.outcome(), ReindexOutcome::SkippedUnchanged);
    match plan {
        ReindexPlan::Unchanged(state) => {
            assert_eq!(state.last_indexed_at_unix_secs, 9);
            assert_eq!(state.head_oids.pairs().len(), 3);
        }
        ReindexPlan::Indexed(_, _) => panic!("expected unchanged"),
    }
}

#[test]
fn moved_ref_triggers_a_new_snapshot() {
    let previous = IndexState {
        last_indexed_at_unix_secs: 3,
        head_oids: HeadOids::from_pairs(vec![("refs/heads/main".to_owned(), "00".to_owned())]),
    };
    let plan = plan_from_records(sample_refs(), None, Some(previous), 9);
    assert_eq!(plan.outcome(), ReindexOutcome::Indexed);
}

#[test]
fn head_oids_equality_ignores_order() {
    let a = HeadOids::from_pairs(vec![
        ("x".to_owned(), "1".to_owned()),
        ("y".to_owned(), "2".to_owned()),
    ]);
    let b = HeadOids::from_pairs(vec![
        ("y".to_owned(), "2".to_owned()),
        ("x".to_owned(), "0".to_owned()),
        ("x".to_owned(), "1".to_owned()),
    ]);
    assert!(a.same_entries(&b));
    let mut c = HeadOids::empty();
    c.insert("x".to_owned(), "1".to_owned());
    assert!(!a.same_entries(&c));
}

#[test]
fn classify_strips_the_branch_and_tag_prefixes() {
    let branch = RefRecord::classify("refs/heads/feature/x".to_owned(), Some("aa".to_owned()));
    assert_eq!(branch.full_name, "refs/heads/feature/x");
    assert_eq!(branch.category, RefCategory::LocalBranch);
    assert_eq!(branch.short_name, "feature/x");
    assert_eq!(branch.peeled_oid, Some("aa".to_owned()));
    let tag = RefRecord::classify("refs/tags/v1.0".to_owned(), None);
    assert_eq!(tag.category, RefCategory::Tag);
    assert_eq!(tag.short_name, "v1.0");
    assert_eq!(tag.peeled_oid, None);
}

#[test]
fn classify_keeps_other_refs_out_of_branches_and_tags() {
    let remote = RefRecord::classify("refs/remotes/origin/main".to_owned(), None);
    assert_eq!(remote.category, RefCategory::Other);
    assert_eq!(remote.short_name, "origin/main");
    let invalid = RefRecord::classify("refs/heads/a b".to_owned(), None);
    assert_eq!(invalid.category, RefCategory::Other);
    assert_eq!(invalid.short_name, "refs/heads/a b");
}

fn raw_refs() -> Vec<(String, Option<String>)> {
    vec![
        ("refs/heads/main".to_owned(), Some("aa".to_owned())),
        ("refs/heads/dev".to_owned(), Some("bb".to_owned())),
        ("refs/tags/v1".to_owned(), Some("cc".to_owned())),
        ("refs/remotes/origin/main".to_owned(), Some("dd".to_owned())),
        ("refs/notes/x".to_owned(), None),
    ]
}

#[test]
fn reindex_classifies_the_refs_it_found() {
    let plan = plan_reindex(raw_refs(), Some("refs/heads/dev".to_owned()), None, 5);
    assert_eq!(plan.outcome(), ReindexOutcome::Indexed);
    match plan {
        ReindexPlan::Indexed(snapshot, state) => {
            assert_eq!(snapshot.branches, vec!["main".to_owned(), "dev".to_owned()]);
            assert_eq!(snapshot.tags, vec!["v1".to_owned()]);
            assert_eq!(snapshot.default_branch, "dev");
            assert_eq!(snapshot.updated_at_unix_secs, 5);
            let mut pairs = state.head_oids.pairs();
            pairs.sort();
            assert_eq!(
                pairs,
                vec![
                    ("refs/heads/dev".to_owned(), "bb".to_owned()),
                    ("refs/heads/main".to_owned(), "aa".to_owned()),
                    ("refs/remotes/origin/main".to_owned(), "dd".to_owned()),
                    ("refs/tags/v1".to_owned(), "cc".to_owned()),
                ]
            );
        }
        ReindexPlan::Unchanged(_) => panic!("expected a new snapshot"),
    }
}

#[test]
fn reindex_without_head_defaults_to_the_first_branch() {
    match plan_reindex(raw_refs(), None, None, 5) {
        ReindexPlan::Indexed(snapshot, _) => assert_eq!(snapshot.default_branch, "main"),
        ReindexPlan::Unchanged(_) => panic!("expected a new snapshot"),
    }
    let previous = IndexState {
        last_indexed_at_unix_secs: 1,
        head_oids: HeadOids::from_pairs(vec![
            ("refs/heads/main".to_owned(), "aa".to_owned()),
            ("refs/heads/dev".to_owned(), "bb".to_owned()),
            ("refs/tags/v1".to_owned(), "cc".to_owned()),
            ("refs/remotes/origin/main".to_owned(), "dd".to_owned()),
        ]),
    };
    let plan = plan_reindex(raw_refs(), Some("refs/heads/main".to_owned()), Some(previous), 6);
    assert_eq!(plan.outcome(), ReindexOutcome::SkippedUnchanged);
}
