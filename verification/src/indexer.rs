//! The decisions of the metadata indexer: when a repository is due for
//! reindexing, and what a run records from the refs it found.

use vstd::prelude::*;
use crate::metadata::{head_oid_entries, HeadOids, IndexState, RefsSnapshot};
use crate::catalog::opt_text;
use crate::text::texts;

verus! {

/// What a reindex request came to.
#[derive(Clone, Copy, Debug, PartialEq, Eq, Structural)]
pub enum ReindexOutcome {
    /// The last run is more recent than the reindex interval.
    SkippedNotDue,
    /// The refs point where they pointed at the last run.
    SkippedUnchanged,
    /// A new ref snapshot was recorded.
    Indexed,
}

/// `now - then`, or 0 where `then` lies after `now`.
pub open spec fn elapsed_secs(now: u64, then: u64) -> nat {
    if now >= then {
        (now - then) as nat
    } else {
        0
    }
}

/// A repository is due when it was never indexed, or when at least
/// `interval_secs` have passed since its last run.
pub open spec fn spec_reindex_due(last_indexed: Option<u64>, now: u64, interval_secs: u64) -> bool {
    match last_indexed {
        None => true,
        Some(t) => elapsed_secs(now, t) >= interval_secs,
    }
}

/// Whether a repository whose index state is `previous` is due for
/// reindexing at `now` under the reindex interval `interval_secs`.
pub fn reindex_due(previous: Option<&IndexState>, now: u64, interval_secs: u64) -> (r: bool)
    ensures
        r == spec_reindex_due(
            match previous {
                Some(s) => Some(s.last_indexed_at_unix_secs),
                None => None,
            },
            now,
            interval_secs,
        ),
{
    match previous {
        Some(state) => {
            let elapsed = now.saturating_sub(state.last_indexed_at_unix_secs);
            elapsed >= interval_secs
        },
        None => true,
    }
}

/// A repository indexed at `now` is not due again before the interval has
/// passed.
pub proof fn lemma_fresh_state_not_due(now: u64, later: u64, interval_secs: u64)
    requires
        now <= later,
        later - now < interval_secs,
    ensures
        !spec_reindex_due(Some(now), later, interval_secs),
{
}

/// The kind of a ref, as gix classifies its full name.
#[derive(Clone, Copy, Debug, PartialEq, Eq, Structural)]
pub enum RefCategory {
    /// A local branch, under `refs/heads/`.
    LocalBranch,
    /// A tag, under `refs/tags/`.
    Tag,
    /// Any other ref, and any name that is not a valid full ref name.
    Other,
}

/// `refs/heads/`, where the local branches live.
pub open spec fn heads_prefix() -> Seq<char> {
    seq!['r', 'e', 'f', 's', '/', 'h', 'e', 'a', 'd', 's', '/']
}

/// `refs/tags/`, where the tags live.
pub open spec fn tags_prefix() -> Seq<char> {
    seq!['r', 'e', 'f', 's', '/', 't', 'a', 'g', 's', '/']
}

/// Whether `s` begins with `p`.
pub open spec fn starts_with(s: Seq<char>, p: Seq<char>) -> bool {
    p.len() <= s.len() && s.subrange(0, p.len() as int) == p
}

/// Whether gix takes `name` as a valid full ref name (the conversion of a
/// `&str` into a `&gix::refs::FullNameRef`).
pub uninterp spec fn gix_accepts_full_ref_name(name: Seq<char>) -> bool;

/// What `gix::refs::FullNameRef::shorten` makes of the valid full ref name
/// `name`.
pub uninterp spec fn gix_shortened_ref_name(name: Seq<char>) -> Seq<char>;

/// The kind of the ref named `name`.
pub open spec fn spec_ref_category(name: Seq<char>) -> RefCategory {
    if !gix_accepts_full_ref_name(name) {
        RefCategory::Other
    } else if starts_with(name, tags_prefix()) {
        RefCategory::Tag
    } else if starts_with(name, heads_prefix()) {
        RefCategory::LocalBranch
    } else {
        RefCategory::Other
    }
}

/// The short name of the ref named `name`: a tag without `refs/tags/`, a
/// local branch without `refs/heads/`, any other valid name as gix shortens
/// it, and a name that gix refuses as it stands.
pub open spec fn spec_short_name(name: Seq<char>) -> Seq<char> {
    if !gix_accepts_full_ref_name(name) {
        name
    } else if starts_with(name, tags_prefix()) {
        name.skip(10)
    } else if starts_with(name, heads_prefix()) {
        name.skip(11)
    } else {
        gix_shortened_ref_name(name)
    }
}

/// Parses `full_name` as a `&gix::refs::FullNameRef` and classifies and
/// shortens it with `FullNameRef::category` and `FullNameRef::shorten`;
/// `None` where gix refuses the name. gix tries the prefix `refs/tags/`
/// first, then `refs/heads/`, and strips the prefix that matches. What the
/// other kinds of name shorten to is left to the name
/// `gix_shortened_ref_name`.
#[verifier::external_body]
fn gix_classify_ref_name(full_name: &str) -> (r: Option<(RefCategory, String)>)
    ensures
        r is Some <==> gix_accepts_full_ref_name(full_name@),
        r matches Some((c, short)) ==> short@ == gix_shortened_ref_name(full_name@),
        r matches Some((c, short)) ==> (c is Tag <==> starts_with(full_name@, tags_prefix())),
        r matches Some((c, short)) ==> (c is LocalBranch <==> starts_with(
            full_name@,
            heads_prefix(),
        )),
        r matches Some((c, short)) ==> (c is Tag ==> short@ == full_name@.skip(10)),
        r matches Some((c, short)) ==> (c is LocalBranch ==> short@ == full_name@.skip(11)),
{
    let name: &gix::refs::FullNameRef = match full_name.try_into() {
        Ok(name) => name,
        Err(_) => return None,
    };
    let category = match name.category() {
        Some(gix::refs::Category::LocalBranch) => RefCategory::LocalBranch,
        Some(gix::refs::Category::Tag) => RefCategory::Tag,
        _ => RefCategory::Other,
    };
    Some((category, name.shorten().to_string()))
}

/// What the indexer reads of a ref: (full name, kind, short name, the
/// object it peels to).
pub type RefView = (Seq<char>, RefCategory, Seq<char>, Option<Seq<char>>);

/// One ref of a repository: its full name, its kind, its short name, and
/// the object it peels to, where it peels.
#[derive(Debug)]
pub struct RefRecord {
    pub full_name: String,
    pub category: RefCategory,
    pub short_name: String,
    pub peeled_oid: Option<String>,
}

impl View for RefRecord {
    type V = RefView;

    open spec fn view(&self) -> RefView {
        (self.full_name@, self.category, self.short_name@, opt_text(self.peeled_oid))
    }
}

/// The view of the ref named `full_name` that peels to `peeled_oid`, kind
/// and short name as gix gives them.
pub open spec fn classified_view(full_name: Seq<char>, peeled_oid: Option<Seq<char>>) -> RefView {
    (full_name, spec_ref_category(full_name), spec_short_name(full_name), peeled_oid)
}

/// The views of a list of refs.
pub open spec fn record_views(records: Seq<RefRecord>) -> Seq<RefView> {
    records.map_values(|r: RefRecord| r@)
}

/// The classified views of a list of (full name, peeled object) pairs.
pub open spec fn raw_ref_views(refs: Seq<(String, Option<String>)>) -> Seq<RefView> {
    refs.map_values(|p: (String, Option<String>)| classified_view(p.0@, opt_text(p.1)))
}

impl RefRecord {
    /// The ref named `full_name` that peels to `peeled_oid`, with the kind
    /// and short name that gix gives its name.
    pub fn classify(full_name: String, peeled_oid: Option<String>) -> (r: RefRecord)
        ensures
            r@ == classified_view(full_name@, opt_text(peeled_oid)),
    {
        match gix_classify_ref_name(full_name.as_str()) {
            Some((category, short_name)) => {
                proof {
                    let name = full_name@;
                    if starts_with(name, tags_prefix()) && starts_with(name, heads_prefix()) {
                        assert(name[5] == tags_prefix()[5]);
                        assert(name[5] == heads_prefix()[5]);
                    }
                }
                RefRecord { full_name, category, short_name, peeled_oid }
            },
            None => {
                let short_name = full_name.clone();
                RefRecord { full_name, category: RefCategory::Other, short_name, peeled_oid }
            },
        }
    }
}

/// The short names of the local branches among `refs`, in order.
pub open spec fn branch_names(refs: Seq<RefView>) -> Seq<Seq<char>>
    decreases refs.len(),
{
    if refs.len() == 0 {
        Seq::empty()
    } else if refs.last().1 is LocalBranch {
        branch_names(refs.drop_last()).push(refs.last().2)
    } else {
        branch_names(refs.drop_last())
    }
}

/// The short names of the tags among `refs`, in order.
pub open spec fn tag_names(refs: Seq<RefView>) -> Seq<Seq<char>>
    decreases refs.len(),
{
    if refs.len() == 0 {
        Seq::empty()
    } else if refs.last().1 is Tag {
        tag_names(refs.drop_last()).push(refs.last().2)
    } else {
        tag_names(refs.drop_last())
    }
}

/// The object id of each ref of `refs` that peels, by full name.
pub open spec fn peeled_oids(refs: Seq<RefView>) -> Map<Seq<char>, Seq<char>>
    decreases refs.len(),
{
    if refs.len() == 0 {
        Map::empty()
    } else {
        match refs.last().3 {
            Some(oid) => peeled_oids(refs.drop_last()).insert(refs.last().0, oid),
            None => peeled_oids(refs.drop_last()),
        }
    }
}

/// The default branch: the branch `HEAD` names, else the first branch,
/// else `main`.
pub open spec fn spec_default_branch(head: Option<Seq<char>>, branches: Seq<Seq<char>>) -> Seq<char> {
    match head {
        Some(h) => h,
        None => if branches.len() > 0 {
            branches[0]
        } else {
            "main"@
        },
    }
}

/// The short name of the ref that `HEAD` names, where it names one.
pub open spec fn spec_head_branch(head_name: Option<Seq<char>>) -> Option<Seq<char>> {
    match head_name {
        Some(h) => Some(spec_short_name(h)),
        None => None,
    }
}

/// What a reindex run records.
#[derive(Debug)]
pub enum ReindexPlan {
    /// The refs are unchanged: only the time of the run is refreshed.
    Unchanged(IndexState),
    /// The refs changed (or were never indexed): a new snapshot and state
    /// are written together.
    Indexed(RefsSnapshot, IndexState),
}

impl ReindexPlan {
    /// The outcome that this plan reports.
    pub open spec fn spec_outcome(&self) -> ReindexOutcome {
        match self {
            ReindexPlan::Unchanged(_) => ReindexOutcome::SkippedUnchanged,
            ReindexPlan::Indexed(_, _) => ReindexOutcome::Indexed,
        }
    }

    /// The outcome that this plan reports.
    pub fn outcome(&self) -> (r: ReindexOutcome)
        ensures
            r == self.spec_outcome(),
    {
        match self {
            ReindexPlan::Unchanged(_) => ReindexOutcome::SkippedUnchanged,
            ReindexPlan::Indexed(_, _) => ReindexOutcome::Indexed,
        }
    }
}

/// Whether the peeled refs are those that `previous` recorded.
pub open spec fn refs_unchanged(previous: Option<IndexState>, refs: Seq<RefView>) -> bool {
    match previous {
        Some(p) => head_oid_entries(p.head_oids) == peeled_oids(refs),
        None => false,
    }
}

/// `plan` is what a run at `now` records for `refs`, with `head_branch` the
/// branch `HEAD` names and `previous` the last index state: where the
/// peeled refs are unchanged, the previous entries at the new time;
/// otherwise a snapshot of the branches, tags and default branch, and the
/// peeled refs, both at the new time.
pub open spec fn plans(
    plan: ReindexPlan,
    refs: Seq<RefView>,
    head_branch: Option<Seq<char>>,
    previous: Option<IndexState>,
    now: u64,
) -> bool {
    match plan {
        ReindexPlan::Unchanged(state) => {
            &&& refs_unchanged(previous, refs)
            &&& state.last_indexed_at_unix_secs == now
            &&& head_oid_entries(state.head_oids) == peeled_oids(refs)
        },
        ReindexPlan::Indexed(snapshot, state) => {
            &&& !refs_unchanged(previous, refs)
            &&& texts(snapshot.branches@) == branch_names(refs)
            &&& texts(snapshot.tags@) == tag_names(refs)
            &&& snapshot.default_branch@ == spec_default_branch(head_branch, branch_names(refs))
            &&& snapshot.updated_at_unix_secs == now
            &&& state.last_indexed_at_unix_secs == now
            &&& head_oid_entries(state.head_oids) == peeled_oids(refs)
        },
    }
}

/// Decides what a reindex run at `now` records, given the classified refs
/// (in the order the repository lists them), the branch `HEAD` names (if
/// any) and the previous index state (if any).
pub fn plan_from_records(
    records: Vec<RefRecord>,
    head_branch: Option<String>,
    previous: Option<IndexState>,
    now: u64,
) -> (r: ReindexPlan)
    ensures
        plans(r, record_views(records@), opt_text(head_branch), previous, now),
{
    let ghost views = record_views(records@);
    let mut branches: Vec<String> = Vec::new();
    let mut tags: Vec<String> = Vec::new();
    let mut oids = HeadOids::empty();
    let n = records.len();
    let mut i: usize = 0;
    while i < n
        invariant
            i <= n,
            n == records@.len(),
            views == record_views(records@),
            texts(branches@) == branch_names(views.subrange(0, i as int)),
            texts(tags@) == tag_names(views.subrange(0, i as int)),
            head_oid_entries(oids) == peeled_oids(views.subrange(0, i as int)),
        decreases n - i,
    {
        let ghost prefix = views.subrange(0, i + 1);
        assert(prefix.drop_last() =~= views.subrange(0, i as int));
        assert(prefix.last() == records@[i as int]@);
        let record = &records[i];
        match &record.peeled_oid {
            Some(oid) => {
                oids.insert(record.full_name.clone(), oid.clone());
            },
            None => {},
        }
        match record.category {
            RefCategory::LocalBranch => {
                let ghost before = branches@;
                branches.push(record.short_name.clone());
                assert(texts(branches@) =~= texts(before).push(record.short_name@));
            },
            RefCategory::Tag => {
                let ghost before = tags@;
                tags.push(record.short_name.clone());
                assert(texts(tags@) =~= texts(before).push(record.short_name@));
            },
            RefCategory::Other => {},
        }
        i = i + 1;
    }
    assert(views.subrange(0, n as int) =~= views);
    let default_branch = match head_branch {
        Some(h) => h,
        None => if branches.len() > 0 {
            branches[0].clone()
        } else {
            "main".to_owned()
        },
    };
    if let Some(p) = previous {
        if p.head_oids.same_entries(&oids) {
            return ReindexPlan::Unchanged(
                IndexState { last_indexed_at_unix_secs: now, head_oids: p.head_oids },
            );
        }
    }
    ReindexPlan::Indexed(
        RefsSnapshot { default_branch, branches, tags, updated_at_unix_secs: now },
        IndexState { last_indexed_at_unix_secs: now, head_oids: oids },
    )
}

/// Decides what a reindex run at `now` records, given the refs it found as
/// (full name, object it peels to) pairs in the order the repository lists
/// them, the full name of the ref `HEAD` points to (if any) and the
/// previous index state (if any). Each name is classified and shortened by
/// gix; the rest is `plan_from_records`.
pub fn plan_reindex(
    refs: Vec<(String, Option<String>)>,
    head_name: Option<String>,
    previous: Option<IndexState>,
    now: u64,
) -> (r: ReindexPlan)
    ensures
        plans(r, raw_ref_views(refs@), spec_head_branch(opt_text(head_name)), previous, now),
{
    let mut records: Vec<RefRecord> = Vec::new();
    let n = refs.len();
    let mut i: usize = 0;
    while i < n
        invariant
            i <= n,
            n == refs@.len(),
            record_views(records@) == raw_ref_views(refs@.subrange(0, i as int)),
        decreases n - i,
    {
        let full_name = refs[i].0.clone();
        let peeled_oid = match &refs[i].1 {
            Some(oid) => Some(oid.clone()),
            None => None,
        };
        let ghost before = records@;
        records.push(RefRecord::classify(full_name, peeled_oid));
        assert(record_views(records@) =~= record_views(before).push(records@[i as int]@));
        assert(raw_ref_views(refs@.subrange(0, i + 1)) =~= raw_ref_views(
            refs@.subrange(0, i as int),
        ).push(classified_view(refs@[i as int].0@, opt_text(refs@[i as int].1))));
        i = i + 1;
    }
    assert(refs@.subrange(0, n as int) =~= refs@);
    let head_branch = match head_name {
        Some(h) => Some(RefRecord::classify(h, None).short_name),
        None => None,
    };
    plan_from_records(records, head_branch, previous, now)
}

/// The default branch that a new snapshot records is the branch `HEAD`
/// names; without one it is the first branch the snapshot lists (so always
/// one of its branches when there is any), and `main` only when the
/// snapshot lists no branch at all.
pub proof fn lemma_default_branch_choice(
    plan: ReindexPlan,
    refs: Seq<RefView>,
    head_branch: Option<Seq<char>>,
    previous: Option<IndexState>,
    now: u64,
)
    requires
        plans(plan, refs, head_branch, previous, now),
        plan is Indexed,
    ensures
        ({
            let snapshot = plan->Indexed_0;
            &&& head_branch matches Some(h) ==> snapshot.default_branch@ == h
            &&& head_branch is None && snapshot.branches@.len() > 0 ==> snapshot.default_branch@
                == snapshot.branches@[0]@
            &&& head_branch is None && snapshot.branches@.len() > 0 ==> texts(
                snapshot.branches@,
            ).contains(snapshot.default_branch@)
            &&& head_branch is None && branch_names(refs).len() > 0 ==> snapshot.default_branch@
                == branch_names(refs)[0]
            &&& head_branch is None && snapshot.branches@.len() == 0 ==> snapshot.default_branch@
                == "main"@
        }),
{
    if let ReindexPlan::Indexed(snapshot, _) = plan {
        if head_branch is None && snapshot.branches@.len() > 0 {
            assert(texts(snapshot.branches@)[0] == snapshot.branches@[0]@);
            assert(texts(snapshot.branches@).len() > 0);
        }
    }
}

/// Branches are listed ref by ref: the branches of `a + b` are those of
/// `a` followed by those of `b`, and a single ref contributes its short
/// name exactly when it is a local branch.
pub proof fn lemma_branch_names_concat(a: Seq<RefView>, b: Seq<RefView>)
    ensures
        branch_names(a + b) == branch_names(a) + branch_names(b),
    decreases b.len(),
{
    if b.len() == 0 {
        assert(a + b =~= a);
        assert(branch_names(a) + branch_names(b) =~= branch_names(a));
    } else {
        assert((a + b).drop_last() =~= a + b.drop_last());
        lemma_branch_names_concat(a, b.drop_last());
        if b.last().1 is LocalBranch {
            assert(branch_names(a) + branch_names(b.drop_last()).push(b.last().2) =~= (branch_names(a)
                + branch_names(b.drop_last())).push(b.last().2));
        }
    }
}

/// Tags are listed ref by ref, as branches are.
pub proof fn lemma_tag_names_concat(a: Seq<RefView>, b: Seq<RefView>)
    ensures
        tag_names(a + b) == tag_names(a) + tag_names(b),
    decreases b.len(),
{
    if b.len() == 0 {
        assert(a + b =~= a);
        assert(tag_names(a) + tag_names(b) =~= tag_names(a));
    } else {
        assert((a + b).drop_last() =~= a + b.drop_last());
        lemma_tag_names_concat(a, b.drop_last());
        if b.last().1 is Tag {
            assert(tag_names(a) + tag_names(b.drop_last()).push(b.last().2) =~= (tag_names(a)
                + tag_names(b.drop_last())).push(b.last().2));
        }
    }
}

/// A single ref is listed among the branches exactly when it is a local
/// branch, among the tags exactly when it is a tag, and among the peeled
/// objects exactly when it peels.
pub proof fn lemma_single_ref_listing(r: RefView)
    ensures
        branch_names(seq![r]) == (if r.1 is LocalBranch {
            seq![r.2]
        } else {
            Seq::<Seq<char>>::empty()
        }),
        tag_names(seq![r]) == (if r.1 is Tag {
            seq![r.2]
        } else {
            Seq::<Seq<char>>::empty()
        }),
        peeled_oids(seq![r]) == (match r.3 {
            Some(oid) => map![r.0 => oid],
            None => Map::<Seq<char>, Seq<char>>::empty(),
        }),
{
    let s = seq![r];
    assert(s.drop_last() =~= Seq::<RefView>::empty());
    assert(s.last() == r);
    assert(branch_names(s.drop_last()) =~= Seq::<Seq<char>>::empty());
    assert(tag_names(s.drop_last()) =~= Seq::<Seq<char>>::empty());
    assert(peeled_oids(s.drop_last()) =~= Map::<Seq<char>, Seq<char>>::empty());
    assert(Seq::<Seq<char>>::empty().push(r.2) =~= seq![r.2]);
    if let Some(oid) = r.3 {
        assert(Map::<Seq<char>, Seq<char>>::empty().insert(r.0, oid) =~= map![r.0 => oid]);
    }
}

/// Peeled objects are recorded ref by ref, a later ref of the same name
/// overriding an earlier one: those of `a + b` are those of `a` updated by
/// those of `b`.
pub proof fn lemma_peeled_oids_concat(a: Seq<RefView>, b: Seq<RefView>)
    ensures
        peeled_oids(a + b) == peeled_oids(a).union_prefer_right(peeled_oids(b)),
    decreases b.len(),
{
    if b.len() == 0 {
        assert(a + b =~= a);
        assert(peeled_oids(a).union_prefer_right(peeled_oids(b)) =~= peeled_oids(a));
    } else {
        assert((a + b).drop_last() =~= a + b.drop_last());
        lemma_peeled_oids_concat(a, b.drop_last());
        if let Some(oid) = b.last().3 {
            assert(peeled_oids(a).union_prefer_right(peeled_oids(b.drop_last())).insert(b.last().0, oid)
                =~= peeled_oids(a).union_prefer_right(peeled_oids(b.drop_last()).insert(b.last().0, oid)));
        }
    }
}

} // verus!
