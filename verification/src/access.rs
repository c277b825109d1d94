//! Roles in a repository, what each may do, and the member list.

use vstd::prelude::*;
use crate::assoc::{assoc_map, keys_unique, lemma_assoc_dom, lemma_assoc_index, lemma_assoc_push};
use crate::assoc::{lemma_assoc_remove, lemma_assoc_update, lemma_keys_unique_push};
use crate::text::str_equal;

verus! {

/// The role of an actor in a repository.
#[derive(Clone, Copy, Debug, PartialEq, Eq, Structural)]
pub enum RepoRole {
    Owner,
    Member,
    Collaborator,
}

impl RepoRole {
    /// Every role may read (clone and fetch).
    pub open spec fn spec_can_read(self) -> bool {
        true
    }

    /// Owners and members may write (push); collaborators may not.
    pub open spec fn spec_can_write(self) -> bool {
        self is Owner || self is Member
    }

    /// Only owners may administer: manage members and delete.
    pub open spec fn spec_can_admin(self) -> bool {
        self is Owner
    }

    /// Whether this role may read.
    pub fn can_read(self) -> (r: bool)
        ensures
            r == self.spec_can_read(),
    {
        true
    }

    /// Whether this role may write.
    pub fn can_write(self) -> (r: bool)
        ensures
            r == self.spec_can_write(),
    {
        match self {
            RepoRole::Owner | RepoRole::Member => true,
            RepoRole::Collaborator => false,
        }
    }

    /// Whether this role may administer.
    pub fn can_admin(self) -> (r: bool)
        ensures
            r == self.spec_can_admin(),
    {
        match self {
            RepoRole::Owner => true,
            _ => false,
        }
    }
}

/// The (name, role) pairs of a member list, by view.
pub open spec fn member_entries(s: Seq<(String, RepoRole)>) -> Seq<(Seq<char>, RepoRole)> {
    s.map_values(|p: (String, RepoRole)| (p.0@, p.1))
}

/// The role that `m` gives to `name`, if any.
pub open spec fn role_in(m: Map<Seq<char>, RepoRole>, name: Seq<char>) -> Option<RepoRole> {
    if m.dom().contains(name) {
        Some(m[name])
    } else {
        None
    }
}

/// The members of a repository: each actor name with one role.
///
/// The entries are kept as a list of (name, role) pairs with distinct
/// names rather than a `HashMap<String, RepoRole>`: vstd states nothing
/// usable about a map keyed by `String` (a lookup after an insert is not
/// known to find it), so the map that the contracts speak of is the view of
/// this list, and each operation is proved against it.
#[derive(Debug)]
pub struct Members {
    entries: Vec<(String, RepoRole)>,
}

impl View for Members {
    type V = Map<Seq<char>, RepoRole>;

    closed spec fn view(&self) -> Map<Seq<char>, RepoRole> {
        assoc_map(member_entries(self.entries@))
    }
}

impl Members {
    /// No actor appears twice.
    #[verifier::type_invariant]
    spec fn inv(self) -> bool {
        keys_unique(member_entries(self.entries@))
    }

    /// An empty member list.
    pub fn new() -> (r: Members)
        ensures
            r@ == Map::<Seq<char>, RepoRole>::empty(),
    {
        let entries: Vec<(String, RepoRole)> = Vec::new();
        assert(member_entries(entries@) =~= Seq::<(Seq<char>, RepoRole)>::empty());
        Members { entries }
    }

    fn find_in(entries: &Vec<(String, RepoRole)>, name: &str) -> (r: Option<usize>)
        requires
            keys_unique(member_entries(entries@)),
        ensures
            r matches Some(i) ==> i < entries@.len() && entries@[i as int].0@ == name@,
            r is None <==> !assoc_map(member_entries(entries@)).dom().contains(name@),
    {
        let ghost es = member_entries(entries@);
        let n = entries.len();
        let mut i: usize = 0;
        while i < n
            invariant
                n == entries@.len(),
                es == member_entries(entries@),
                i <= n,
                forall|j: int| 0 <= j < i ==> #[trigger] es[j].0 != name@,
            decreases n - i,
        {
            if str_equal(entries[i].0.as_str(), name) {
                proof {
                    assert(es[i as int].0 == name@);
                    lemma_assoc_dom(es, name@);
                }
                return Some(i);
            }
            i = i + 1;
        }
        proof {
            lemma_assoc_dom(es, name@);
        }
        None
    }

    /// The role of `name`, if `name` is a member.
    pub fn get(&self, name: &str) -> (r: Option<RepoRole>)
        ensures
            r == role_in(self@, name@),
    {
        proof {
            use_type_invariant(self);
        }
        match Self::find_in(&self.entries, name) {
            Some(i) => {
                proof {
                    lemma_assoc_index(member_entries(self.entries@), i as int);
                }
                Some(self.entries[i].1)
            },
            None => None,
        }
    }

    /// Gives `name` the role `role` and answers the role it had before.
    pub fn insert(&mut self, name: String, role: RepoRole) -> (r: Option<RepoRole>)
        ensures
            final(self)@ == old(self)@.insert(name@, role),
            r == role_in(old(self)@, name@),
    {
        proof {
            use_type_invariant(&*self);
        }
        let ghost es = member_entries(self.entries@);
        let mut entries: Vec<(String, RepoRole)> = Vec::new();
        proof {
            assert(member_entries(entries@) =~= Seq::<(Seq<char>, RepoRole)>::empty());
        }
        std::mem::swap(&mut entries, &mut self.entries);
        let result = match Self::find_in(&entries, name.as_str()) {
            Some(i) => {
                let previous = entries[i].1;
                proof {
                    lemma_assoc_index(es, i as int);
                    lemma_assoc_update(es, i as int, role);
                }
                entries.set(i, (name, role));
                assert(member_entries(entries@) =~= es.update(i as int, (es[i as int].0, role)));
                Some(previous)
            },
            None => {
                let ghost key = name@;
                proof {
                    lemma_assoc_push(es, (key, role));
                    lemma_keys_unique_push(es, (key, role));
                }
                entries.push((name, role));
                assert(member_entries(entries@) =~= es.push((key, role)));
                None
            },
        };
        self.entries = entries;
        result
    }

    /// Takes `name` off the list and answers the role it had.
    pub fn remove(&mut self, name: &str) -> (r: Option<RepoRole>)
        ensures
            final(self)@ == old(self)@.remove(name@),
            r == role_in(old(self)@, name@),
    {
        proof {
            use_type_invariant(&*self);
        }
        let ghost es = member_entries(self.entries@);
        let mut entries: Vec<(String, RepoRole)> = Vec::new();
        proof {
            assert(member_entries(entries@) =~= Seq::<(Seq<char>, RepoRole)>::empty());
        }
        std::mem::swap(&mut entries, &mut self.entries);
        let result = match Self::find_in(&entries, name) {
            Some(i) => {
                proof {
                    lemma_assoc_index(es, i as int);
                    lemma_assoc_remove(es, i as int);
                }
                let removed = entries.remove(i);
                assert(member_entries(entries@) =~= es.remove(i as int));
                Some(removed.1)
            },
            None => {
                assert(assoc_map(es) =~= assoc_map(es).remove(name@));
                None
            },
        };
        self.entries = entries;
        result
    }

    /// A member list built from (name, role) pairs; a later pair for the
    /// same name overrides an earlier one.
    pub fn from_entries(entries: Vec<(String, RepoRole)>) -> (r: Members)
        ensures
            r@ == assoc_map(member_entries(entries@)),
    {
        let mut m = Members::new();
        let n = entries.len();
        let mut i: usize = 0;
        while i < n
            invariant
                i <= n,
                n == entries@.len(),
                m@ == assoc_map(member_entries(entries@.subrange(0, i as int))),
            decreases n - i,
        {
            let name = entries[i].0.clone();
            m.insert(name, entries[i].1);
            assert(member_entries(entries@.subrange(0, i + 1)).drop_last() =~= member_entries(
                entries@.subrange(0, i as int),
            ));
            i = i + 1;
        }
        assert(entries@.subrange(0, n as int) =~= entries@);
        m
    }

    /// The (name, role) pairs, each name once.
    pub fn to_entries(&self) -> (r: Vec<(String, RepoRole)>)
        ensures
            keys_unique(member_entries(r@)),
            assoc_map(member_entries(r@)) == self@,
    {
        proof {
            use_type_invariant(self);
        }
        let mut out: Vec<(String, RepoRole)> = Vec::new();
        let n = self.entries.len();
        let mut i: usize = 0;
        while i < n
            invariant
                i <= n,
                n == self.entries@.len(),
                out@ == self.entries@.subrange(0, i as int),
            decreases n - i,
        {
            out.push((self.entries[i].0.clone(), self.entries[i].1));
            assert(out@ =~= self.entries@.subrange(0, i + 1));
            i = i + 1;
        }
        assert(self.entries@.subrange(0, n as int) =~= self.entries@);
        out
    }

    /// A copy of this member list.
    pub fn duplicate(&self) -> (r: Members)
        ensures
            r@ == self@,
    {
        let entries = self.to_entries();
        Members { entries }
    }
}

} // verus!
