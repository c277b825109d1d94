//! Keys of the render caches for READMEs and diffs.

use vstd::prelude::*;
use crate::text::concat3;

verus! {

/// `owner:repo:rev`, the cache key of the README of `rev`.
pub open spec fn spec_readme_cache_key(owner: Seq<char>, repo: Seq<char>, rev: Seq<char>) -> Seq<char> {
    owner + ":"@ + repo + ":"@ + rev
}

/// `owner:repo:base..head`, the cache key of the diff from `base` to `head`.
pub open spec fn spec_diff_cache_key(owner: Seq<char>, repo: Seq<char>, base: Seq<char>, head: Seq<char>) -> Seq<char> {
    owner + ":"@ + repo + ":"@ + base + ".."@ + head
}

/// The cache key of the rendered README of revision `rev`.
pub fn readme_cache_key(owner: &str, repo: &str, rev: &str) -> (r: String)
    ensures
        r@ == spec_readme_cache_key(owner@, repo@, rev@),
{
    let mut key = concat3(owner, ":", repo);
    key.append(":");
    key.append(rev);
    key
}

/// The cache key of the rendered diff from `base` to `head`.
pub fn diff_cache_key(owner: &str, repo: &str, base: &str, head: &str) -> (r: String)
    ensures
        r@ == spec_diff_cache_key(owner@, repo@, base@, head@),
{
    let mut key = concat3(owner, ":", repo);
    key.append(":");
    key.append(base);
    key.append("..");
    key.append(head);
    key
}

} // verus!
