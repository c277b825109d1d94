//! Ref metadata of a repository: the keys it is stored under, the ref
//! snapshot, and the state of the last indexing run.

use vstd::prelude::*;
use crate::assoc::{assoc_map, keys_unique};
use crate::text::{concat3, has_char, text_le};

verus! {

broadcast use vstd::seq_lib::group_to_multiset_ensures;

/// A repository as the metadata store knows it: owner and name.
#[derive(Debug)]
pub struct RepoKey {
    pub owner: String,
    pub repo: String,
}

impl RepoKey {
    /// The key of repository `repo` of `owner`.
    pub fn new(owner: &str, repo: &str) -> (r: RepoKey)
        ensures
            r.owner@ == owner@,
            r.repo@ == repo@,
    {
        RepoKey { owner: owner.to_owned(), repo: repo.to_owned() }
    }

    /// `owner/repo`.
    pub open spec fn spec_prefix(&self) -> Seq<char> {
        self.owner@ + "/"@ + self.repo@
    }

    /// `owner/repo`, the part of every store key that names the repository.
    pub fn as_prefix(&self) -> (r: String)
        ensures
            r@ == self.spec_prefix(),
    {
        concat3(self.owner.as_str(), "/", self.repo.as_str())
    }
}

/// The store key of the ref snapshot: `repo/owner/repo/refs`.
pub open spec fn spec_refs_snapshot_key(k: &RepoKey) -> Seq<char> {
    "repo/"@ + k.spec_prefix() + "/refs"@
}

/// The store key of the index state: `repo/owner/repo/index-state`.
pub open spec fn spec_index_state_key(k: &RepoKey) -> Seq<char> {
    "repo/"@ + k.spec_prefix() + "/index-state"@
}

/// The store key of the ref snapshot of `repo`.
pub fn refs_snapshot_key(repo: &RepoKey) -> (r: String)
    ensures
        r@ == spec_refs_snapshot_key(repo),
{
    let prefix = repo.as_prefix();
    concat3("repo/", prefix.as_str(), "/refs")
}

/// The store key of the index state of `repo`.
pub fn index_state_key(repo: &RepoKey) -> (r: String)
    ensures
        r@ == spec_index_state_key(repo),
{
    let prefix = repo.as_prefix();
    concat3("repo/", prefix.as_str(), "/index-state")
}

proof fn lemma_slash_split(o1: Seq<char>, r1: Seq<char>, o2: Seq<char>, r2: Seq<char>)
    requires
        !has_char(o1, '/'),
        !has_char(o2, '/'),
        o1 + "/"@ + r1 == o2 + "/"@ + r2,
    ensures
        o1 == o2,
        r1 == r2,
{
    reveal_strlit("/");
    let k1 = o1 + "/"@ + r1;
    let k2 = o2 + "/"@ + r2;
    if o1.len() < o2.len() {
        assert(k1[o1.len() as int] == '/');
        assert(k2[o1.len() as int] == o2[o1.len() as int]);
        assert(false);
    } else if o2.len() < o1.len() {
        assert(k2[o2.len() as int] == '/');
        assert(k1[o2.len() as int] == o1[o2.len() as int]);
        assert(false);
    }
    assert(o1 =~= k1.subrange(0, o1.len() as int));
    assert(o2 =~= k2.subrange(0, o2.len() as int));
    assert(r1 =~= k1.subrange(o1.len() + 1int, k1.len() as int));
    assert(r2 =~= k2.subrange(o2.len() + 1int, k2.len() as int));
}

/// Store keys of one kind never collide: where owner names hold no `/`,
/// two repositories share a snapshot key (or an index-state key) only if
/// they are the same repository.
pub proof fn lemma_store_keys_distinct(a: &RepoKey, b: &RepoKey)
    requires
        !has_char(a.owner@, '/'),
        !has_char(b.owner@, '/'),
    ensures
        spec_refs_snapshot_key(a) == spec_refs_snapshot_key(b) ==> a.owner@ == b.owner@ && a.repo@
            == b.repo@,
        spec_index_state_key(a) == spec_index_state_key(b) ==> a.owner@ == b.owner@ && a.repo@
            == b.repo@,
{
    reveal_strlit("repo/");
    reveal_strlit("/refs");
    reveal_strlit("/index-state");
    if spec_refs_snapshot_key(a) == spec_refs_snapshot_key(b) {
        let mid_a = a.spec_prefix();
        let mid_b = b.spec_prefix();
        assert(spec_refs_snapshot_key(a).len() == mid_a.len() + 10);
        assert(spec_refs_snapshot_key(b).len() == mid_b.len() + 10);
        assert(mid_a =~= spec_refs_snapshot_key(a).subrange(5, 5 + mid_a.len() as int));
        assert(mid_b =~= spec_refs_snapshot_key(b).subrange(5, 5 + mid_b.len() as int));
        lemma_slash_split(a.owner@, a.repo@, b.owner@, b.repo@);
    }
    if spec_index_state_key(a) == spec_index_state_key(b) {
        let mid_a = a.spec_prefix();
        let mid_b = b.spec_prefix();
        assert(spec_index_state_key(a).len() == mid_a.len() + 17);
        assert(spec_index_state_key(b).len() == mid_b.len() + 17);
        assert(mid_a =~= spec_index_state_key(a).subrange(5, 5 + mid_a.len() as int));
        assert(mid_b =~= spec_index_state_key(b).subrange(5, 5 + mid_b.len() as int));
        lemma_slash_split(a.owner@, a.repo@, b.owner@, b.repo@);
    }
}

/// No snapshot key is an index-state key, whatever the two repositories.
pub proof fn lemma_snapshot_key_is_not_index_key(a: &RepoKey, b: &RepoKey)
    ensures
        spec_refs_snapshot_key(a) != spec_index_state_key(b),
{
    reveal_strlit("/refs");
    reveal_strlit("/index-state");
    let ka = spec_refs_snapshot_key(a);
    let kb = spec_index_state_key(b);
    assert(ka[ka.len() - 1] == 's');
    assert(kb[kb.len() - 1] == 'e');
}

/// The strings are in ascending order, the order of `String`.
pub open spec fn strings_sorted(s: Seq<String>) -> bool {
    forall|i: int, j: int| 0 <= i < j < s.len() ==> text_le(#[trigger] s[i]@, #[trigger] s[j]@)
}

/// Calls `itertools::Itertools::sorted` on the strings and collects the
/// result. `sorted` collects the items into a `Vec` and sorts it with
/// `sort`, by `Ord`: the result holds the same strings, in ascending order.
#[verifier::external_body]
fn sorted_strings(v: Vec<String>) -> (r: Vec<String>)
    ensures
        r@.to_multiset() == v@.to_multiset(),
        strings_sorted(r@),
{
    itertools::Itertools::sorted(v.into_iter()).collect()
}

/// The refs of a repository as last recorded: default branch, branch and
/// tag names (short names, such as `main` and `v1.0.0`), and when.
#[derive(Debug)]
pub struct RefsSnapshot {
    pub default_branch: String,
    pub branches: Vec<String>,
    pub tags: Vec<String>,
    pub updated_at_unix_secs: u64,
}

impl RefsSnapshot {
    /// The snapshot that an upsert records: the branches and the tags are
    /// sorted; the names are kept as given.
    pub fn sorted_snapshot(default_branch: &str, branches: Vec<String>, tags: Vec<String>, now: u64) -> (r:
        RefsSnapshot)
        ensures
            r.default_branch@ == default_branch@,
            r.branches@.to_multiset() == branches@.to_multiset(),
            strings_sorted(r.branches@),
            r.tags@.to_multiset() == tags@.to_multiset(),
            strings_sorted(r.tags@),
            r.updated_at_unix_secs == now,
    {
        RefsSnapshot {
            default_branch: default_branch.to_owned(),
            branches: sorted_strings(branches),
            tags: sorted_strings(tags),
            updated_at_unix_secs: now,
        }
    }
}

} // verus!

verus! {

/// The object id of each ref that peels to one, by full ref name. The
/// entries are kept in a `hashbrown::HashMap`, reached only through the
/// trusted functions below.
#[verifier::external_body]
#[derive(Debug)]
pub struct HeadOids {
    map: hashbrown::HashMap<String, String>,
}

/// The (full ref name, object id) entries of a `HeadOids`.
pub uninterp spec fn head_oid_entries(oids: HeadOids) -> Map<Seq<char>, Seq<char>>;

/// The map with no entries.
pub open spec fn no_oids() -> Map<Seq<char>, Seq<char>> {
    Map::empty()
}

/// The views of a list of string pairs.
pub open spec fn pair_texts(s: Seq<(String, String)>) -> Seq<(Seq<char>, Seq<char>)> {
    s.map_values(|p: (String, String)| (p.0@, p.1@))
}

impl HeadOids {
    /// Calls `hashbrown::HashMap::new`, which makes a map with no entries.
    #[verifier::external_body]
    fn map_new() -> (r: HeadOids)
        ensures
            head_oid_entries(r) == no_oids(),
    {
        HeadOids { map: hashbrown::HashMap::new() }
    }

    /// Calls `hashbrown::HashMap::insert`, which maps `name` to `oid` and
    /// keeps every other entry.
    #[verifier::external_body]
    fn map_insert(&mut self, name: String, oid: String)
        ensures
            head_oid_entries(*final(self)) == head_oid_entries(*old(self)).insert(name@, oid@),
    {
        self.map.insert(name, oid);
    }

    /// Calls `PartialEq::eq` of `hashbrown::HashMap`, which holds when both
    /// maps have as many entries and each key of one maps to an equal value
    /// in the other: the two maps are equal.
    #[verifier::external_body]
    fn map_eq(&self, other: &HeadOids) -> (r: bool)
        ensures
            r == (head_oid_entries(*self) == head_oid_entries(*other)),
    {
        self.map == other.map
    }

    /// Walks the entries with `hashbrown::HashMap::iter`, which visits each
    /// entry once, in an order that the map does not promise; each key and
    /// value is copied.
    #[verifier::external_body]
    fn map_pairs(&self) -> (r: Vec<(String, String)>)
        ensures
            keys_unique(pair_texts(r@)),
            assoc_map(pair_texts(r@)) == head_oid_entries(*self),
    {
        self.map.iter().map(|(name, oid)| (name.clone(), oid.clone())).collect()
    }

    /// A map with no entries.
    pub fn empty() -> (r: HeadOids)
        ensures
            head_oid_entries(r) == no_oids(),
    {
        HeadOids::map_new()
    }

    /// Maps `name` to `oid`.
    pub fn insert(&mut self, name: String, oid: String)
        ensures
            head_oid_entries(*final(self)) == head_oid_entries(*old(self)).insert(name@, oid@),
    {
        self.map_insert(name, oid);
    }

    /// The map of the given (full ref name, object id) pairs; a later pair
    /// for the same name overrides an earlier one.
    pub fn from_pairs(pairs: Vec<(String, String)>) -> (r: HeadOids)
        ensures
            head_oid_entries(r) == assoc_map(pair_texts(pairs@)),
    {
        let mut m = HeadOids::map_new();
        let n = pairs.len();
        let mut i: usize = 0;
        while i < n
            invariant
                i <= n,
                n == pairs@.len(),
                head_oid_entries(m) == assoc_map(pair_texts(pairs@.subrange(0, i as int))),
            decreases n - i,
        {
            m.map_insert(pairs[i].0.clone(), pairs[i].1.clone());
            assert(pair_texts(pairs@.subrange(0, i + 1)).drop_last() =~= pair_texts(
                pairs@.subrange(0, i as int),
            ));
            i = i + 1;
        }
        assert(pairs@.subrange(0, n as int) =~= pairs@);
        m
    }

    /// The entries as (full ref name, object id) pairs, each name once, in
    /// no promised order.
    pub fn pairs(&self) -> (r: Vec<(String, String)>)
        ensures
            keys_unique(pair_texts(r@)),
            assoc_map(pair_texts(r@)) == head_oid_entries(*self),
    {
        self.map_pairs()
    }

    /// Whether both maps hold the same entries.
    pub fn same_entries(&self, other: &HeadOids) -> (r: bool)
        ensures
            r == (head_oid_entries(*self) == head_oid_entries(*other)),
    {
        self.map_eq(other)
    }
}

/// What the indexer recorded when it last looked at a repository.
#[derive(Debug)]
pub struct IndexState {
    pub last_indexed_at_unix_secs: u64,
    pub head_oids: HeadOids,
}

#[verifier::external_type_specification]
#[verifier::external_body]
pub struct ExSystemTime(std::time::SystemTime);

/// Calls `std::time::SystemTime::now`: the current time of the system clock.
#[verifier::external_body]
fn system_time_now() -> std::time::SystemTime {
    std::time::SystemTime::now()
}

/// Calls `SystemTime::duration_since` with `UNIX_EPOCH`: the time elapsed
/// since the epoch, or `None` where `t` lies before it. What it returns
/// depends on the clock reading, so nothing is stated of it.
#[verifier::external_body]
fn duration_since_epoch(t: &std::time::SystemTime) -> Option<core::time::Duration> {
    match t.duration_since(std::time::UNIX_EPOCH) {
        Ok(d) => Some(d),
        Err(_) => None,
    }
}

/// Calls `Duration::as_secs`: the whole seconds of `d`, the fraction cut
/// off. The duration is opaque here, so nothing is stated of the result.
#[verifier::external_body]
fn whole_secs(d: &core::time::Duration) -> u64 {
    d.as_secs()
}

/// The reading in whole seconds since the Unix epoch, or 0 for a clock that
/// stands before the epoch (`None`).
pub fn secs_or_zero(since_epoch: Option<u64>) -> (r: u64)
    ensures
        r == match since_epoch {
            Some(s) => s,
            None => 0,
        },
{
    match since_epoch {
        Some(s) => s,
        None => 0,
    }
}

/// The current time in whole seconds since the Unix epoch, or 0 where the
/// clock stands before the epoch. The clock's reading is not known here, so
/// the contract is that of `secs_or_zero` over whatever was read.
pub fn now_unix_secs() -> u64 {
    let now = system_time_now();
    let since_epoch = match duration_since_epoch(&now) {
        Some(d) => Some(whole_secs(&d)),
        None => None,
    };
    secs_or_zero(since_epoch)
}

} // verus!
