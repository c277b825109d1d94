//! Configuration of the Git operations: where repositories and metadata
//! live, how often refs are reindexed, which files count as a README, and
//! the sizes and lifetime of the render caches.

use vstd::prelude::*;
use crate::paths::{join_path, path_join};
use crate::text::texts;

verus! {

/// Configuration of the Git operations. Paths are kept as text; durations
/// are in whole seconds.
#[derive(Clone, Debug)]
pub struct GitConfig {
    pub repo_scan_path: String,
    pub metadata_db_path: String,
    pub metadata_reindex_interval: u64,
    pub readme_names: Vec<String>,
    pub readme_cache_capacity: u64,
    pub diff_cache_capacity: u64,
    pub cache_ttl: u64,
}

/// A decimal digit.
pub open spec fn is_digit(c: char) -> bool {
    '0' <= c && c <= '9'
}

/// The number that the decimal digits `s` spell.
pub open spec fn decimal_value(s: Seq<char>) -> int
    decreases s.len(),
{
    if s.len() == 0 {
        0
    } else {
        decimal_value(s.drop_last()) * 10 + (s.last() as int - 48)
    }
}

/// Every character of `s` is a decimal digit.
pub open spec fn all_digits(s: Seq<char>) -> bool {
    forall|i: int| 0 <= i < s.len() ==> is_digit(#[trigger] s[i])
}

/// `s` without a leading `+`, if it has one.
pub open spec fn unsigned_part(s: Seq<char>) -> Seq<char> {
    if s.len() > 0 && s[0] == '+' {
        s.drop_first()
    } else {
        s
    }
}

/// What `str::parse::<u64>` gives: an optional `+` followed by at least
/// one decimal digit and nothing else, of a value that fits in a `u64`.
pub open spec fn spec_parse_u64(s: Seq<char>) -> Option<u64> {
    let digits = unsigned_part(s);
    if digits.len() > 0 && all_digits(digits) && decimal_value(digits) <= u64::MAX {
        Some(decimal_value(digits) as u64)
    } else {
        None
    }
}

proof fn lemma_decimal_grows(s: Seq<char>, k: int)
    requires
        0 <= k <= s.len(),
        all_digits(s),
    ensures
        decimal_value(s) >= decimal_value(s.subrange(0, k)),
        decimal_value(s) >= 0,
    decreases s.len(),
{
    if s.len() > 0 {
        lemma_decimal_grows(s.drop_last(), if k == s.len() { 0 } else { k });
        if k == s.len() {
            assert(s.subrange(0, k) =~= s);
        } else {
            assert(s.drop_last().subrange(0, k) =~= s.subrange(0, k));
        }
    } else {
        assert(s.subrange(0, k) =~= s);
    }
}

/// Reads a `u64` as `str::parse::<u64>` does (see `spec_parse_u64`).
pub fn parse_u64(s: &str) -> (r: Option<u64>)
    ensures
        r == spec_parse_u64(s@),
{
    let n = s.unicode_len();
    let start: usize = if n > 0 && s.get_char(0) == '+' {
        1
    } else {
        0
    };
    let ghost digits = s@.subrange(start as int, n as int);
    assert(digits =~= unsigned_part(s@));
    if start >= n {
        return None;
    }
    let mut value: u64 = 0;
    let mut i: usize = start;
    while i < n
        invariant
            start <= i <= n,
            n == s@.len(),
            digits == s@.subrange(start as int, n as int),
            digits == unsigned_part(s@),
            digits.len() > 0,
            forall|j: int| 0 <= j < i - start ==> is_digit(#[trigger] digits[j]),
            value == decimal_value(digits.subrange(0, i - start)),
        decreases n - i,
    {
        let c = s.get_char(i);
        assert(digits[i - start] == c);
        if !('0' <= c && c <= '9') {
            assert(!is_digit(digits[i - start]));
            return None;
        }
        let d = (c as u32 - 48) as u64;
        assert(digits.subrange(0, i + 1 - start).drop_last() =~= digits.subrange(0, i - start));
        if value > (u64::MAX - d) / 10 {
            proof {
                assert(decimal_value(digits.subrange(0, i + 1 - start)) == value * 10 + d);
                assert(value * 10 + d > u64::MAX) by (nonlinear_arith)
                    requires
                        value > (u64::MAX - d) / 10,
                        d <= 9,
                ;
                if all_digits(digits) {
                    lemma_decimal_grows(digits, i + 1 - start);
                }
            }
            return None;
        }
        proof {
            assert(value * 10 + d <= u64::MAX) by (nonlinear_arith)
                requires
                    value <= (u64::MAX - d) / 10,
                    d <= 9,
            ;
        }
        value = value * 10 + d;
        i = i + 1;
    }
    assert(digits.subrange(0, n - start) =~= digits);
    Some(value)
}

/// The file names that count as a README, in the order they are tried.
pub open spec fn spec_readme_names() -> Seq<Seq<char>> {
    seq![
        "README.md"@,
        "readme.md"@,
        "README"@,
        "readme"@,
        "README.markdown"@,
        "readme.markdown"@,
        "README.txt"@,
        "readme.txt"@,
        "README.rst"@,
        "readme.rst"@,
        "README.org"@,
        "readme.org"@,
        "README.asciidoc"@,
        "readme.asciidoc"@,
    ]
}

/// The file names that count as a README, in the order they are tried.
pub fn default_readme_names() -> (r: Vec<String>)
    ensures
        texts(r@) == spec_readme_names(),
{
    let mut names: Vec<String> = Vec::new();
    names.push("README.md".to_owned());
    names.push("readme.md".to_owned());
    names.push("README".to_owned());
    names.push("readme".to_owned());
    names.push("README.markdown".to_owned());
    names.push("readme.markdown".to_owned());
    names.push("README.txt".to_owned());
    names.push("readme.txt".to_owned());
    names.push("README.rst".to_owned());
    names.push("readme.rst".to_owned());
    names.push("README.org".to_owned());
    names.push("readme.org".to_owned());
    names.push("README.asciidoc".to_owned());
    names.push("readme.asciidoc".to_owned());
    assert(texts(names@) =~= spec_readme_names());
    names
}

impl GitConfig {
    /// The configuration given the values of `TWINE_REPO_SCAN_PATH`,
    /// `TWINE_METADATA_DB_PATH` and `TWINE_METADATA_REINDEX_INTERVAL_SECS`
    /// (each where it is set): the scan path defaults to `/home/git`, the
    /// metadata database to `.twine-git-operations-metadata` below the scan
    /// path, and the interval (also where it does not read as a `u64`) to
    /// 300 seconds; both caches hold 128 entries for 300 seconds.
    pub fn from_environment(
        repo_scan_path: Option<String>,
        metadata_db_path: Option<String>,
        metadata_reindex_interval_secs: Option<String>,
    ) -> (r: GitConfig)
        ensures
            r.repo_scan_path@ == (match repo_scan_path {
                Some(p) => p@,
                None => "/home/git"@,
            }),
            r.metadata_db_path@ == (match metadata_db_path {
                Some(p) => p@,
                None => path_join(r.repo_scan_path@, ".twine-git-operations-metadata"@),
            }),
            r.metadata_reindex_interval == (match metadata_reindex_interval_secs {
                Some(v) => match spec_parse_u64(v@) {
                    Some(secs) => secs,
                    None => 300,
                },
                None => 300,
            }),
            texts(r.readme_names@) == spec_readme_names(),
            r.readme_cache_capacity == 128,
            r.diff_cache_capacity == 128,
            r.cache_ttl == 300,
    {
        let repo_scan_path = match repo_scan_path {
            Some(p) => p,
            None => "/home/git".to_owned(),
        };
        let metadata_db_path = match metadata_db_path {
            Some(p) => p,
            None => join_path(repo_scan_path.as_str(), ".twine-git-operations-metadata"),
        };
        let metadata_reindex_interval = match metadata_reindex_interval_secs {
            Some(v) => match parse_u64(v.as_str()) {
                Some(secs) => secs,
                None => 300,
            },
            None => 300,
        };
        GitConfig {
            repo_scan_path,
            metadata_db_path,
            metadata_reindex_interval,
            readme_names: default_readme_names(),
            readme_cache_capacity: 128,
            diff_cache_capacity: 128,
            cache_ttl: 300,
        }
    }
}

/// The README names tried, in order: `README.md`, `readme.md`, `README`,
/// `readme`, then the upper- and lower-case `.markdown`, `.txt`, `.rst`,
/// `.org` and `.asciidoc` names, fourteen in all.
pub proof fn lemma_readme_names_listed()
    ensures
        spec_readme_names().len() == 14,
        spec_readme_names()[0] == "README.md"@,
        spec_readme_names()[1] == "readme.md"@,
        spec_readme_names()[2] == "README"@,
        spec_readme_names()[3] == "readme"@,
        spec_readme_names()[4] == "README.markdown"@,
        spec_readme_names()[5] == "readme.markdown"@,
        spec_readme_names()[6] == "README.txt"@,
        spec_readme_names()[7] == "readme.txt"@,
        spec_readme_names()[8] == "README.rst"@,
        spec_readme_names()[9] == "readme.rst"@,
        spec_readme_names()[10] == "README.org"@,
        spec_readme_names()[11] == "readme.org"@,
        spec_readme_names()[12] == "README.asciidoc"@,
        spec_readme_names()[13] == "readme.asciidoc"@,
{
}

} // verus!
