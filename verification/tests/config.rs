use twine::config::{default_readme_names, parse_u64, GitConfig};
use twine::reader::{diff_cache_key, readme_cache_key};
use twine::server_config;

#[test]
fn defaults_without_environment() {
    let config = GitConfig::from_environment(None, None, None);
    assert_eq!(config.repo_scan_path, "/home/git");
    assert_eq!(
        config.metadata_db_path,
        "/home/git/.twine-git-operations-metadata"
    );
    assert_eq!(config.metadata_reindex_interval, 300);
    assert_eq!(config.readme_names.len(), 14);
    assert_eq!(config.readme_names[0], "README.md");
    assert_eq!(config.readme_names[13], "readme.asciidoc");
    assert_eq!(config.readme_cache_capacity, 128);
    assert_eq!(config.diff_cache_capacity, 128);
    assert_eq!(config.cache_ttl, 300);
}

#[test]
fn environment_values_override_defaults() {
    let config = GitConfig::from_environment(
        Some("/srv/git".to_owned()),
        None,
        Some("60".to_owned()),
    );
    assert_eq!(config.repo_scan_path, "/srv/git");
    assert_eq!(config.metadata_db_path, "/srv/git/.twine-git-operations-metadata");
    assert_eq!(config.metadata_reindex_interval, 60);
    let config = GitConfig::from_environment(None, Some("/db".to_owned()), Some("soon".to_owned()));
    assert_eq!(config.metadata_db_path, "/db");
    assert_eq!(config.metadata_reindex_interval, 300);
}

#[test]
fn parse_u64_matches_std() {
    for text in [
        "0", "300", "+7", "", "+", "-1", "12a", " 1", "18446744073709551615",
        "18446744073709551616", "99999999999999999999", "007",
    ] {
        assert_eq!(parse_u64(text), text.parse::<u64>().ok(), "input {text:?}");
    }
}

#[test]
fn readme_names_in_order() {
    let names = default_readme_names();
    assert_eq!(names[1], "readme.md");
    assert_eq!(names[2], "README");
}

#[test]
fn server_settings_become_git_config() {
    let settings = server_config::GitConfig {
        repo_scan_path: "/a".to_owned(),
        metadata_db_path: "/b".to_owned(),
        metadata_reindex_interval_secs: 5,
        readme_cache_capacity: 1,
        diff_cache_capacity: 2,
        cache_ttl_secs: 3,
    };
    let config = settings.into_git_config();
    assert_eq!(config.repo_scan_path, "/a");
    assert_eq!(config.metadata_db_path, "/b");
    assert_eq!(config.metadata_reindex_interval, 5);
    assert_eq!(config.readme_cache_capacity, 1);
    assert_eq!(config.diff_cache_capacity, 2);
    assert_eq!(config.cache_ttl, 3);
    assert_eq!(config.readme_names, default_readme_names());
}

#[test]
fn cache_keys() {
    assert_eq!(readme_cache_key("alice", "demo", "main"), "alice:demo:main");
    assert_eq!(diff_cache_key("alice", "demo", "v1", "main"), "alice:demo:v1..main");
}
