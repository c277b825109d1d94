//! Configuration of the server process: where it listens, its log filter,
//! and the settings of the Git operations as the configuration file and
//! environment give them.

use vstd::prelude::*;
use crate::config::{default_readme_names, spec_readme_names};
use crate::text::texts;

verus! {

/// The Git settings of the server configuration.
#[derive(Debug)]
pub struct GitConfig {
    pub repo_scan_path: String,
    pub metadata_db_path: String,
    pub metadata_reindex_interval_secs: u64,
    pub readme_cache_capacity: u64,
    pub diff_cache_capacity: u64,
    pub cache_ttl_secs: u64,
}

/// The server configuration.
#[derive(Debug)]
pub struct AppConfig {
    pub bind_addr: String,
    pub log_filter: String,
    pub git: GitConfig,
}

impl GitConfig {
    /// The configuration of the Git operations that these settings give:
    /// the same paths, interval, capacities and lifetime, with the default
    /// README names.
    pub fn into_git_config(self) -> (r: crate::config::GitConfig)
        ensures
            r.repo_scan_path == self.repo_scan_path,
            r.metadata_db_path == self.metadata_db_path,
            r.metadata_reindex_interval == self.metadata_reindex_interval_secs,
            texts(r.readme_names@) == spec_readme_names(),
            r.readme_cache_capacity == self.readme_cache_capacity,
            r.diff_cache_capacity == self.diff_cache_capacity,
            r.cache_ttl == self.cache_ttl_secs,
    {
        crate::config::GitConfig {
            repo_scan_path: self.repo_scan_path,
            metadata_db_path: self.metadata_db_path,
            metadata_reindex_interval: self.metadata_reindex_interval_secs,
            readme_names: default_readme_names(),
            readme_cache_capacity: self.readme_cache_capacity,
            diff_cache_capacity: self.diff_cache_capacity,
            cache_ttl: self.cache_ttl_secs,
        }
    }
}

} // verus!
