use twine::protocol::{
    build_advertisement, capabilities_for_service, enforce_push_policy, pkt_line,
    service_content_type, service_subcommand, sort_refs_by_name,
};

#[test]
fn test_pkt_line_encodes_length_prefix() {
    let encoded = pkt_line("hello\n");
    assert_eq!(encoded, "000ahello\n");
}

#[test]
fn test_advertisement_includes_service_and_refs() {
    let refs = vec![
        (
            "1111111111111111111111111111111111111111".to_owned(),
            "refs/heads/main".to_owned(),
        ),
        (
            "2222222222222222222222222222222222222222".to_owned(),
            "refs/tags/v1.0.0".to_owned(),
        ),
    ];

    let advertisement = build_advertisement("git-upload-pack", &refs);
    assert!(advertisement.starts_with("001e# service=git-upload-pack\n0000"));
    assert!(advertisement.contains("refs/heads/main"));
    assert!(advertisement.contains("refs/tags/v1.0.0"));
    assert!(advertisement.ends_with("0000"));
}

#[test]
fn pkt_line_of_empty_payload_is_four_bytes() {
    assert_eq!(pkt_line(""), "0004");
}

#[test]
fn pkt_line_counts_bytes_not_characters() {
    // "é" is two bytes in UTF-8: 2 + 4 = 6.
    assert_eq!(pkt_line("é"), "0006é");
}

#[test]
fn pkt_line_of_long_payload_uses_more_digits() {
    let payload = "a".repeat(0x10000);
    let line = pkt_line(&payload);
    assert!(line.starts_with("10004a"));
    assert_eq!(line.len(), 5 + 0x10000);
}

#[test]
fn advertisement_exact_bytes() {
    let refs = vec![
        ("aaaa".to_owned(), "refs/heads/main".to_owned()),
        ("bbbb".to_owned(), "refs/tags/v1".to_owned()),
    ];
    let ad = build_advertisement("git-receive-pack", &refs);
    let caps = capabilities_for_service("git-receive-pack");
    let first = format!("aaaa refs/heads/main\0{caps}\n");
    let expected = format!(
        "001f# service=git-receive-pack\n0000{:04x}{first}0016bbbb refs/tags/v1\n0000",
        first.len() + 4
    );
    assert_eq!(ad, expected);
}

#[test]
fn advertisement_without_refs_is_header_and_flushes() {
    let ad = build_advertisement("git-upload-pack", &[]);
    assert_eq!(ad, "001e# service=git-upload-pack\n00000000");
}

#[test]
fn capabilities_depend_on_service() {
    assert!(capabilities_for_service("git-upload-pack").contains("symref=HEAD:refs/heads/main"));
    assert!(capabilities_for_service("git-receive-pack").starts_with("report-status"));
    assert_eq!(capabilities_for_service("other"), "agent=twine/0.1");
}

#[test]
fn refs_are_sorted_by_name() {
    let refs = vec![
        ("3".to_owned(), "refs/tags/v1".to_owned()),
        ("1".to_owned(), "refs/heads/main".to_owned()),
        ("2".to_owned(), "refs/heads/dev".to_owned()),
        ("4".to_owned(), "HEAD".to_owned()),
    ];
    let sorted = sort_refs_by_name(refs);
    let names: Vec<&str> = sorted.iter().map(|r| r.1.as_str()).collect();
    assert_eq!(
        names,
        vec!["HEAD", "refs/heads/dev", "refs/heads/main", "refs/tags/v1"]
    );
    assert_eq!(sorted[0].0, "4");
}

#[test]
fn refs_with_the_same_name_keep_their_order() {
    let refs = vec![
        ("b1".to_owned(), "refs/heads/b".to_owned()),
        ("a1".to_owned(), "refs/heads/a".to_owned()),
        ("b2".to_owned(), "refs/heads/b".to_owned()),
        ("a2".to_owned(), "refs/heads/a".to_owned()),
        ("b3".to_owned(), "refs/heads/b".to_owned()),
    ];
    let sorted = sort_refs_by_name(refs);
    let oids: Vec<&str> = sorted.iter().map(|r| r.0.as_str()).collect();
    assert_eq!(oids, vec!["a1", "a2", "b1", "b2", "b3"]);
}

#[test]
fn content_type_names_service_and_suffix() {
    assert_eq!(
        service_content_type("git-upload-pack", "advertisement"),
        "application/x-git-upload-pack-advertisement"
    );
    assert_eq!(
        service_content_type("git-receive-pack", "result"),
        "application/x-git-receive-pack-result"
    );
}

#[test]
fn content_type_falls_back_for_control_characters() {
    assert_eq!(
        service_content_type("bad\nservice", "result"),
        "application/octet-stream"
    );
}

#[test]
fn subcommands_of_services() {
    assert_eq!(service_subcommand("git-upload-pack"), Some("upload-pack"));
    assert_eq!(service_subcommand("git-receive-pack"), Some("receive-pack"));
    assert_eq!(service_subcommand("git-archive"), None);
}

#[test]
fn push_policy_admits_pushes() {
    assert_eq!(enforce_push_policy("alice", "demo", "bob", b"0000"), Ok(()));
}
