//! The repository catalog that the HTTP API serves, and the decisions of
//! its endpoints: who may create, read, delete and manage a repository,
//! and who may use the Git services on it.

use vstd::prelude::*;
use crate::access::{role_in, Members, RepoRole};
use crate::assoc::{assoc_map, keys_unique, lemma_assoc_dom, lemma_assoc_index, lemma_assoc_push};
use crate::assoc::{lemma_assoc_remove, lemma_assoc_update, lemma_keys_unique_push};
use crate::protocol::enforce_push_policy;
use crate::text::{concat2, str_equal, texts};

verus! {

/// The view of an optional string.
pub open spec fn opt_text(s: Option<String>) -> Option<Seq<char>> {
    match s {
        Some(t) => Some(t@),
        None => None,
    }
}

/// A repository as the API shows it.
#[derive(Debug)]
pub struct Repo {
    pub owner: String,
    pub name: String,
    pub description: Option<String>,
    pub default_branch: String,
    pub branches: Vec<String>,
    pub tags: Vec<String>,
    pub members: Members,
}

/// The mathematical value of a `Repo`.
pub struct RepoView {
    pub owner: Seq<char>,
    pub name: Seq<char>,
    pub description: Option<Seq<char>>,
    pub default_branch: Seq<char>,
    pub branches: Seq<Seq<char>>,
    pub tags: Seq<Seq<char>>,
    pub members: Map<Seq<char>, RepoRole>,
}

impl View for Repo {
    type V = RepoView;

    open spec fn view(&self) -> RepoView {
        RepoView {
            owner: self.owner@,
            name: self.name@,
            description: opt_text(self.description),
            default_branch: self.default_branch@,
            branches: texts(self.branches@),
            tags: texts(self.tags@),
            members: self.members@,
        }
    }
}

/// A copy of a list of strings.
pub fn copy_strings(v: &Vec<String>) -> (r: Vec<String>)
    ensures
        r@ == v@,
{
    let mut out: Vec<String> = Vec::new();
    let n = v.len();
    let mut i: usize = 0;
    while i < n
        invariant
            i <= n,
            n == v@.len(),
            out@ == v@.subrange(0, i as int),
        decreases n - i,
    {
        out.push(v[i].clone());
        assert(out@ =~= v@.subrange(0, i + 1));
        i = i + 1;
    }
    assert(v@.subrange(0, n as int) =~= v@);
    out
}

fn copy_opt_string(s: &Option<String>) -> (r: Option<String>)
    ensures
        r == *s,
{
    match s {
        Some(t) => Some(t.clone()),
        None => None,
    }
}

/// The repository that `owner` creates under `name`: `owner` is its only
/// member, as owner; its default branch is `main`, its only branch, and it
/// has no tags.
pub open spec fn new_repo_view(owner: Seq<char>, name: Seq<char>, description: Option<Seq<char>>) -> RepoView {
    RepoView {
        owner,
        name,
        description,
        default_branch: "main"@,
        branches: seq!["main"@],
        tags: Seq::empty(),
        members: Map::empty().insert(owner, RepoRole::Owner),
    }
}

impl Repo {
    /// A fresh repository of `owner` named `name` (see `new_repo_view`).
    pub fn create(owner: String, name: String, description: Option<String>) -> (r: Repo)
        ensures
            r@ == new_repo_view(owner@, name@, opt_text(description)),
    {
        let mut members = Members::new();
        members.insert(owner.clone(), RepoRole::Owner);
        let mut branches: Vec<String> = Vec::new();
        branches.push("main".to_owned());
        let r = Repo {
            owner,
            name,
            description,
            default_branch: "main".to_owned(),
            branches,
            tags: Vec::new(),
            members,
        };
        assert(texts(r.branches@) =~= seq!["main"@]);
        assert(texts(r.tags@) =~= Seq::<Seq<char>>::empty());
        r
    }

    /// A copy of this repository.
    pub fn duplicate(&self) -> (r: Repo)
        ensures
            r@ == self@,
    {
        Repo {
            owner: self.owner.clone(),
            name: self.name.clone(),
            description: copy_opt_string(&self.description),
            default_branch: self.default_branch.clone(),
            branches: copy_strings(&self.branches),
            tags: copy_strings(&self.tags),
            members: self.members.duplicate(),
        }
    }
}

/// The role of `actor` in `repo`, if any.
pub fn lookup_role(repo: &Repo, actor: &str) -> (r: Option<RepoRole>)
    ensures
        r == role_in(repo@.members, actor@),
{
    repo.members.get(actor)
}

/// The kinds of error the API answers, each with its HTTP status.
#[derive(Clone, Copy, Debug, PartialEq, Eq, Structural)]
pub enum ApiErrorKind {
    AuthRequired,
    Forbidden,
    NotFound,
    AlreadyExists,
    InvalidRequest,
    PolicyDenied,
    PayloadTooLarge,
    TransportError,
    InternalError,
}

impl ApiErrorKind {
    /// The HTTP status code of this kind of error.
    pub open spec fn spec_status(self) -> u16 {
        match self {
            ApiErrorKind::AuthRequired => 401,
            ApiErrorKind::Forbidden => 403,
            ApiErrorKind::NotFound => 404,
            ApiErrorKind::AlreadyExists => 409,
            ApiErrorKind::InvalidRequest => 400,
            ApiErrorKind::PolicyDenied => 403,
            ApiErrorKind::PayloadTooLarge => 413,
            ApiErrorKind::TransportError => 502,
            ApiErrorKind::InternalError => 500,
        }
    }

    /// The HTTP status code of this kind of error.
    pub fn status(self) -> (r: u16)
        ensures
            r == self.spec_status(),
    {
        match self {
            ApiErrorKind::AuthRequired => 401,
            ApiErrorKind::Forbidden => 403,
            ApiErrorKind::NotFound => 404,
            ApiErrorKind::AlreadyExists => 409,
            ApiErrorKind::InvalidRequest => 400,
            ApiErrorKind::PolicyDenied => 403,
            ApiErrorKind::PayloadTooLarge => 413,
            ApiErrorKind::TransportError => 502,
            ApiErrorKind::InternalError => 500,
        }
    }

    /// The error code that the JSON error envelope carries.
    pub open spec fn spec_code(self) -> Seq<char> {
        match self {
            ApiErrorKind::AuthRequired => "AuthRequired"@,
            ApiErrorKind::Forbidden => "Forbidden"@,
            ApiErrorKind::NotFound => "NotFound"@,
            ApiErrorKind::AlreadyExists => "AlreadyExists"@,
            ApiErrorKind::InvalidRequest => "InvalidRequest"@,
            ApiErrorKind::PolicyDenied => "PolicyDenied"@,
            ApiErrorKind::PayloadTooLarge => "PayloadTooLarge"@,
            ApiErrorKind::TransportError => "TransportError"@,
            ApiErrorKind::InternalError => "InternalError"@,
        }
    }

    /// The error code that the JSON error envelope carries.
    pub fn code(self) -> (r: &'static str)
        ensures
            r@ == self.spec_code(),
    {
        match self {
            ApiErrorKind::AuthRequired => "AuthRequired",
            ApiErrorKind::Forbidden => "Forbidden",
            ApiErrorKind::NotFound => "NotFound",
            ApiErrorKind::AlreadyExists => "AlreadyExists",
            ApiErrorKind::InvalidRequest => "InvalidRequest",
            ApiErrorKind::PolicyDenied => "PolicyDenied",
            ApiErrorKind::PayloadTooLarge => "PayloadTooLarge",
            ApiErrorKind::TransportError => "TransportError",
            ApiErrorKind::InternalError => "InternalError",
        }
    }
}

/// An error answer of the API: its kind and a human-readable message.
#[derive(Debug)]
pub struct ApiError {
    pub kind: ApiErrorKind,
    pub message: String,
}

impl View for ApiError {
    type V = (ApiErrorKind, Seq<char>);

    open spec fn view(&self) -> (ApiErrorKind, Seq<char>) {
        (self.kind, self.message@)
    }
}

/// An error answer of kind `kind` with message `message`.
pub fn api_error(kind: ApiErrorKind, message: &str) -> (r: ApiError)
    ensures
        r@ == (kind, message@),
{
    ApiError { kind, message: message.to_owned() }
}

/// The answer to a request without the `x-actor-id` header.
pub open spec fn auth_required() -> (ApiErrorKind, Seq<char>) {
    (ApiErrorKind::AuthRequired, "x-actor-id header is required"@)
}

/// The answer about a repository that the catalog does not hold.
pub open spec fn not_found() -> (ApiErrorKind, Seq<char>) {
    (ApiErrorKind::NotFound, "repository not found"@)
}

/// The answer to an actor who has no role in the repository.
pub open spec fn no_role() -> (ApiErrorKind, Seq<char>) {
    (ApiErrorKind::Forbidden, "actor has no role in this repository"@)
}

/// Gives the actor of a request, or the answer to a request without one.
pub fn require_actor(actor: Option<&str>) -> (r: Result<&str, ApiError>)
    ensures
        match actor {
            None => r matches Err(e) && e@ == auth_required(),
            Some(a) => r == Ok::<&str, ApiError>(a),
        },
{
    match actor {
        Some(a) => Ok(a),
        None => Err(api_error(ApiErrorKind::AuthRequired, "x-actor-id header is required")),
    }
}

/// The answer to a Git service request whose body is too large.
pub fn payload_too_large() -> (r: ApiError)
    ensures
        r@ == (ApiErrorKind::PayloadTooLarge, "request body is too large"@),
{
    api_error(ApiErrorKind::PayloadTooLarge, "request body is too large")
}

/// The answer when running the Git service `service` failed.
pub fn service_failed(service: &str) -> (r: ApiError)
    ensures
        r@ == (ApiErrorKind::TransportError, "failed to execute "@ + service@),
{
    ApiError { kind: ApiErrorKind::TransportError, message: concat2("failed to execute ", service) }
}

/// The answer when the repository catalog could not be written.
pub fn catalog_persist_failed() -> (r: ApiError)
    ensures
        r@ == (ApiErrorKind::InternalError, "failed to persist repository catalog"@),
{
    api_error(ApiErrorKind::InternalError, "failed to persist repository catalog")
}

/// The answer when the ref metadata of a new repository could not be written.
pub fn metadata_persist_failed() -> (r: ApiError)
    ensures
        r@ == (ApiErrorKind::InternalError, "failed to persist repository metadata"@),
{
    api_error(ApiErrorKind::InternalError, "failed to persist repository metadata")
}

} // verus!

verus! {

/// The key of a repository in the catalog: its owner and name.
pub open spec fn repo_key(r: RepoView) -> (Seq<char>, Seq<char>) {
    (r.owner, r.name)
}

/// The catalog pairs of a list of repositories.
pub open spec fn catalog_entries(s: Seq<Repo>) -> Seq<((Seq<char>, Seq<char>), RepoView)> {
    s.map_values(|r: Repo| ((r.owner@, r.name@), r@))
}

/// The view of an optional actor name.
pub open spec fn opt_actor(a: Option<&str>) -> Option<Seq<char>> {
    match a {
        Some(s) => Some(s@),
        None => None,
    }
}

/// `v` with its members replaced by `m`.
pub open spec fn with_members(v: RepoView, m: Map<Seq<char>, RepoRole>) -> RepoView {
    RepoView { members: m, ..v }
}

/// The answer, if any, that refuses `actor` reading `(owner, name)`.
pub open spec fn read_denial(
    c: Map<(Seq<char>, Seq<char>), RepoView>,
    actor: Option<Seq<char>>,
    owner: Seq<char>,
    name: Seq<char>,
) -> Option<(ApiErrorKind, Seq<char>)> {
    match actor {
        None => Some(auth_required()),
        Some(a) => if !c.dom().contains((owner, name)) {
            Some(not_found())
        } else {
            match role_in(c[(owner, name)].members, a) {
                None => Some(no_role()),
                Some(role) => if !role.spec_can_read() {
                    Some((ApiErrorKind::Forbidden, "read access denied"@))
                } else {
                    None
                },
            }
        },
    }
}

/// The answer, if any, that refuses `actor` an owner-only action on
/// `(owner, name)`; `refusal` is the message for an actor who is no owner.
pub open spec fn admin_denial(
    c: Map<(Seq<char>, Seq<char>), RepoView>,
    actor: Option<Seq<char>>,
    owner: Seq<char>,
    name: Seq<char>,
    refusal: Seq<char>,
) -> Option<(ApiErrorKind, Seq<char>)> {
    match actor {
        None => Some(auth_required()),
        Some(a) => if !c.dom().contains((owner, name)) {
            Some(not_found())
        } else {
            match role_in(c[(owner, name)].members, a) {
                None => Some(no_role()),
                Some(role) => if !role.spec_can_admin() {
                    Some((ApiErrorKind::Forbidden, refusal))
                } else {
                    None
                },
            }
        },
    }
}

/// The answer, if any, that refuses `actor` creating `(owner, name)`.
pub open spec fn create_denial(
    c: Map<(Seq<char>, Seq<char>), RepoView>,
    actor: Option<Seq<char>>,
    owner: Seq<char>,
    name: Seq<char>,
) -> Option<(ApiErrorKind, Seq<char>)> {
    match actor {
        None => Some(auth_required()),
        Some(a) => if a != owner {
            Some(
                (
                    ApiErrorKind::Forbidden,
                    "actor can only create repositories for their own account"@,
                ),
            )
        } else if c.dom().contains((owner, name)) {
            Some((ApiErrorKind::AlreadyExists, "repository already exists"@))
        } else {
            None
        },
    }
}

/// The answer, if any, that refuses `actor` the ref advertisement of
/// `service` on `(owner, name)`.
pub open spec fn info_refs_denial(
    c: Map<(Seq<char>, Seq<char>), RepoView>,
    actor: Option<Seq<char>>,
    owner: Seq<char>,
    name: Seq<char>,
    service: Seq<char>,
) -> Option<(ApiErrorKind, Seq<char>)> {
    match actor {
        None => Some(auth_required()),
        Some(a) => if !c.dom().contains((owner, name)) {
            Some(not_found())
        } else {
            match role_in(c[(owner, name)].members, a) {
                None => Some(no_role()),
                Some(role) => if service != "git-upload-pack"@ && service != "git-receive-pack"@ {
                    Some(
                        (
                            ApiErrorKind::InvalidRequest,
                            "service must be git-upload-pack or git-receive-pack"@,
                        ),
                    )
                } else if (service == "git-upload-pack"@ && !role.spec_can_read()) || (service
                    == "git-receive-pack"@ && !role.spec_can_write()) {
                    Some((ApiErrorKind::Forbidden, "service access denied"@))
                } else {
                    None
                },
            }
        },
    }
}

/// The answer, if any, that refuses `actor` running `service` on
/// `(owner, name)`: `git-upload-pack` needs the right to read, any other
/// service the right to write.
pub open spec fn service_post_denial(
    c: Map<(Seq<char>, Seq<char>), RepoView>,
    actor: Seq<char>,
    owner: Seq<char>,
    name: Seq<char>,
    service: Seq<char>,
) -> Option<(ApiErrorKind, Seq<char>)> {
    if !c.dom().contains((owner, name)) {
        Some(not_found())
    } else {
        match role_in(c[(owner, name)].members, actor) {
            None => Some(no_role()),
            Some(role) => if (service == "git-upload-pack"@ && !role.spec_can_read()) || (service
                != "git-upload-pack"@ && !role.spec_can_write()) {
                Some((ApiErrorKind::Forbidden, "service access denied"@))
            } else {
                None
            },
        }
    }
}

/// The outcome of adding a member: the repository as it now stands and the
/// role the member had before, if any.
#[derive(Debug)]
pub struct MemberChange {
    pub repo: Repo,
    pub previous: Option<RepoRole>,
}

/// The repositories the API knows, each under its owner and name.
///
/// They are kept as a list with distinct (owner, name) keys rather than a
/// `HashMap` keyed by strings: vstd states nothing usable about such a map
/// (a lookup after an insert is not known to find it), so the map that the
/// contracts speak of is the view of this list, and each operation is
/// proved against it.
#[derive(Debug)]
pub struct RepoCatalog {
    repos: Vec<Repo>,
}

impl View for RepoCatalog {
    type V = Map<(Seq<char>, Seq<char>), RepoView>;

    closed spec fn view(&self) -> Map<(Seq<char>, Seq<char>), RepoView> {
        assoc_map(catalog_entries(self.repos@))
    }
}

proof fn lemma_entries_keyed(s: Seq<Repo>, key: (Seq<char>, Seq<char>))
    requires
        assoc_map(catalog_entries(s)).dom().contains(key),
    ensures
        repo_key(assoc_map(catalog_entries(s))[key]) == key,
    decreases s.len(),
{
    if s.len() > 0 {
        assert(catalog_entries(s).drop_last() =~= catalog_entries(s.drop_last()));
        if catalog_entries(s).last().0 != key {
            lemma_entries_keyed(s.drop_last(), key);
        }
    }
}

fn find_repo(repos: &Vec<Repo>, owner: &str, name: &str) -> (r: Option<usize>)
    requires
        keys_unique(catalog_entries(repos@)),
    ensures
        r matches Some(i) ==> i < repos@.len() && repos@[i as int].owner@ == owner@
            && repos@[i as int].name@ == name@,
        r is None <==> !assoc_map(catalog_entries(repos@)).dom().contains((owner@, name@)),
{
    let ghost es = catalog_entries(repos@);
    let n = repos.len();
    let mut i: usize = 0;
    while i < n
        invariant
            n == repos@.len(),
            es == catalog_entries(repos@),
            i <= n,
            forall|j: int| 0 <= j < i ==> #[trigger] es[j].0 != (owner@, name@),
        decreases n - i,
    {
        if str_equal(repos[i].owner.as_str(), owner) && str_equal(repos[i].name.as_str(), name) {
            proof {
                assert(es[i as int].0 == (owner@, name@));
                lemma_assoc_dom(es, (owner@, name@));
            }
            return Some(i);
        }
        i = i + 1;
    }
    proof {
        lemma_assoc_dom(es, (owner@, name@));
    }
    None
}

impl RepoCatalog {
    /// No two repositories share an owner and a name.
    #[verifier::type_invariant]
    spec fn inv(self) -> bool {
        keys_unique(catalog_entries(self.repos@))
    }

    /// A repository in the catalog is stored under its own owner and name.
    pub proof fn lemma_keyed_by_owner_and_name(&self, key: (Seq<char>, Seq<char>))
        requires
            self@.dom().contains(key),
        ensures
            repo_key(self@[key]) == key,
    {
        lemma_entries_keyed(self.repos@, key);
    }

    /// An empty catalog.
    pub fn new() -> (r: RepoCatalog)
        ensures
            r@ == Map::<(Seq<char>, Seq<char>), RepoView>::empty(),
    {
        let repos: Vec<Repo> = Vec::new();
        assert(catalog_entries(repos@) =~= Seq::<((Seq<char>, Seq<char>), RepoView)>::empty());
        RepoCatalog { repos }
    }

    /// The number of repositories.
    pub fn len(&self) -> (r: usize)
        ensures
            r == self@.len(),
    {
        proof {
            use_type_invariant(self);
            crate::assoc::lemma_assoc_len(catalog_entries(self.repos@));
        }
        self.repos.len()
    }

    /// Stores `repo` under its owner and name, replacing any repository
    /// stored there.
    pub fn put(&mut self, repo: Repo)
        ensures
            final(self)@ == old(self)@.insert((repo@.owner, repo@.name), repo@),
    {
        proof {
            use_type_invariant(&*self);
        }
        let ghost es = catalog_entries(self.repos@);
        let ghost key = (repo@.owner, repo@.name);
        let ghost val = repo@;
        let mut repos: Vec<Repo> = Vec::new();
        proof {
            assert(catalog_entries(repos@) =~= Seq::<((Seq<char>, Seq<char>), RepoView)>::empty());
        }
        std::mem::swap(&mut repos, &mut self.repos);
        match find_repo(&repos, repo.owner.as_str(), repo.name.as_str()) {
            Some(i) => {
                proof {
                    lemma_assoc_update(es, i as int, val);
                }
                repos.set(i, repo);
                assert(catalog_entries(repos@) =~= es.update(i as int, (es[i as int].0, val)));
            },
            None => {
                proof {
                    lemma_assoc_push(es, (key, val));
                    lemma_keys_unique_push(es, (key, val));
                }
                repos.push(repo);
                assert(catalog_entries(repos@) =~= es.push((key, val)));
            },
        }
        self.repos = repos;
    }

    /// Takes the repository `(owner, name)` out of the catalog.
    pub fn take(&mut self, owner: &str, name: &str) -> (r: Option<Repo>)
        ensures
            final(self)@ == old(self)@.remove((owner@, name@)),
            match r {
                Some(repo) => old(self)@.dom().contains((owner@, name@)) && repo@ == old(
                    self,
                )@[(owner@, name@)],
                None => !old(self)@.dom().contains((owner@, name@)),
            },
    {
        proof {
            use_type_invariant(&*self);
        }
        let ghost es = catalog_entries(self.repos@);
        let mut repos: Vec<Repo> = Vec::new();
        proof {
            assert(catalog_entries(repos@) =~= Seq::<((Seq<char>, Seq<char>), RepoView)>::empty());
        }
        std::mem::swap(&mut repos, &mut self.repos);
        let result = match find_repo(&repos, owner, name) {
            Some(i) => {
                proof {
                    lemma_assoc_index(es, i as int);
                    lemma_assoc_remove(es, i as int);
                }
                let removed = repos.remove(i);
                assert(catalog_entries(repos@) =~= es.remove(i as int));
                Some(removed)
            },
            None => {
                assert(assoc_map(es) =~= assoc_map(es).remove((owner@, name@)));
                None
            },
        };
        self.repos = repos;
        result
    }

    /// The repository `(owner, name)`, if the catalog holds it.
    pub fn get(&self, owner: &str, name: &str) -> (r: Option<&Repo>)
        ensures
            match r {
                Some(repo) => self@.dom().contains((owner@, name@)) && repo@ == self@[(owner@, name@)],
                None => !self@.dom().contains((owner@, name@)),
            },
    {
        proof {
            use_type_invariant(self);
        }
        match find_repo(&self.repos, owner, name) {
            Some(i) => {
                proof {
                    lemma_assoc_index(catalog_entries(self.repos@), i as int);
                }
                Some(&self.repos[i])
            },
            None => None,
        }
    }

    /// A catalog of `repos`; a later repository with the same owner and
    /// name replaces an earlier one.
    pub fn from_repos(repos: Vec<Repo>) -> (r: RepoCatalog)
        ensures
            r@ == assoc_map(catalog_entries(repos@)),
    {
        let mut catalog = RepoCatalog::new();
        let mut rest = repos;
        let ghost all = rest@;
        let n = rest.len();
        let mut i: usize = 0;
        while i < n
            invariant
                i <= n,
                n == all.len(),
                rest@ == all.subrange(i as int, n as int),
                catalog@ == assoc_map(catalog_entries(all.subrange(0, i as int))),
            decreases n - i,
        {
            let repo = rest.remove(0);
            proof {
                assert(repo == all[i as int]);
                assert(catalog_entries(all.subrange(0, i + 1)) =~= catalog_entries(
                    all.subrange(0, i as int),
                ).push(((repo@.owner, repo@.name), repo@)));
                lemma_assoc_push(
                    catalog_entries(all.subrange(0, i as int)),
                    ((repo@.owner, repo@.name), repo@),
                );
            }
            catalog.put(repo);
            assert(rest@ =~= all.subrange(i + 1, n as int));
            i = i + 1;
        }
        assert(all.subrange(0, n as int) =~= all);
        catalog
    }

    /// Copies of all repositories, each owner and name once (the list that
    /// is written to the catalog file).
    pub fn to_repos(&self) -> (r: Vec<Repo>)
        ensures
            keys_unique(catalog_entries(r@)),
            assoc_map(catalog_entries(r@)) == self@,
    {
        proof {
            use_type_invariant(self);
        }
        let mut out: Vec<Repo> = Vec::new();
        let n = self.repos.len();
        let mut i: usize = 0;
        while i < n
            invariant
                i <= n,
                n == self.repos@.len(),
                catalog_entries(out@) == catalog_entries(self.repos@.subrange(0, i as int)),
            decreases n - i,
        {
            let ghost before = out@;
            let copy = self.repos[i].duplicate();
            out.push(copy);
            assert(catalog_entries(out@) =~= catalog_entries(before).push(
                ((self.repos@[i as int].owner@, self.repos@[i as int].name@), self.repos@[i as int]@),
            ));
            assert(catalog_entries(self.repos@.subrange(0, i + 1)) =~= catalog_entries(
                self.repos@.subrange(0, i as int),
            ).push(
                ((self.repos@[i as int].owner@, self.repos@[i as int].name@), self.repos@[i as int]@),
            ));
            i = i + 1;
        }
        assert(self.repos@.subrange(0, n as int) =~= self.repos@);
        out
    }
}

} // verus!

verus! {

/// The members of `v` after `member` got `role`.
pub open spec fn after_add_member(v: RepoView, member: Seq<char>, role: RepoRole) -> RepoView {
    with_members(v, v.members.insert(member, role))
}

/// The members of `v` after putting back the role `previous` of `member`
/// (or taking `member` off the list where it had none).
pub open spec fn after_revert_member(v: RepoView, member: Seq<char>, previous: Option<RepoRole>) -> RepoView {
    match previous {
        Some(p) => with_members(v, v.members.insert(member, p)),
        None => with_members(v, v.members.remove(member)),
    }
}

impl RepoCatalog {
    /// `POST /api/repos`: `actor` creates the repository `name` of `owner`.
    /// An actor may only create repositories of its own, and not one that
    /// exists already. On success the catalog holds the new repository,
    /// which is also answered; otherwise the catalog is unchanged.
    pub fn create_repo(
        &mut self,
        actor: Option<&str>,
        owner: String,
        name: String,
        description: Option<String>,
    ) -> (r: Result<Repo, ApiError>)
        ensures
            match r {
                Ok(repo) => create_denial(old(self)@, opt_actor(actor), owner@, name@) is None
                    && repo@ == new_repo_view(owner@, name@, opt_text(description))
                    && final(self)@ == old(self)@.insert((owner@, name@), repo@),
                Err(e) => create_denial(old(self)@, opt_actor(actor), owner@, name@) == Some(e@)
                    && final(self)@ == old(self)@,
            },
    {
        let a = require_actor(actor)?;
        if !str_equal(a, owner.as_str()) {
            return Err(
                api_error(
                    ApiErrorKind::Forbidden,
                    "actor can only create repositories for their own account",
                ),
            );
        }
        if self.get(owner.as_str(), name.as_str()).is_some() {
            return Err(api_error(ApiErrorKind::AlreadyExists, "repository already exists"));
        }
        let repo = Repo::create(owner, name, description);
        let stored = repo.duplicate();
        self.put(stored);
        Ok(repo)
    }

    /// The check shared by the reading endpoints (`GET /api/repos`, the
    /// branch and tag listings): answers the repository `(owner, name)` if
    /// `actor` may read it.
    pub fn authorize_read(&self, actor: Option<&str>, owner: &str, name: &str) -> (r: Result<
        &Repo,
        ApiError,
    >)
        ensures
            match r {
                Ok(repo) => read_denial(self@, opt_actor(actor), owner@, name@) is None
                    && repo@ == self@[(owner@, name@)],
                Err(e) => read_denial(self@, opt_actor(actor), owner@, name@) == Some(e@),
            },
    {
        let a = require_actor(actor)?;
        let repo = match self.get(owner, name) {
            Some(repo) => repo,
            None => return Err(api_error(ApiErrorKind::NotFound, "repository not found")),
        };
        let role = match lookup_role(repo, a) {
            Some(role) => role,
            None => return Err(
                api_error(ApiErrorKind::Forbidden, "actor has no role in this repository"),
            ),
        };
        if !role.can_read() {
            return Err(api_error(ApiErrorKind::Forbidden, "read access denied"));
        }
        Ok(repo)
    }

    /// `GET /api/repos`: a copy of the repository `(owner, name)` if `actor`
    /// may read it.
    pub fn get_repo(&self, actor: Option<&str>, owner: &str, name: &str) -> (r: Result<
        Repo,
        ApiError,
    >)
        ensures
            match r {
                Ok(repo) => read_denial(self@, opt_actor(actor), owner@, name@) is None
                    && repo@ == self@[(owner@, name@)],
                Err(e) => read_denial(self@, opt_actor(actor), owner@, name@) == Some(e@),
            },
    {
        let repo = self.authorize_read(actor, owner, name)?;
        Ok(repo.duplicate())
    }

    /// `DELETE /api/repos`: an owner of `(owner, name)` deletes it. On
    /// success the repository leaves the catalog and is answered (so that it
    /// can be put back should writing the catalog fail).
    pub fn delete_repo(&mut self, actor: Option<&str>, owner: &str, name: &str) -> (r: Result<
        Repo,
        ApiError,
    >)
        ensures
            match r {
                Ok(repo) => admin_denial(
                    old(self)@,
                    opt_actor(actor),
                    owner@,
                    name@,
                    "only owners may delete repositories"@,
                ) is None && repo@ == old(self)@[(owner@, name@)] && final(self)@ == old(
                    self,
                )@.remove((owner@, name@)),
                Err(e) => admin_denial(
                    old(self)@,
                    opt_actor(actor),
                    owner@,
                    name@,
                    "only owners may delete repositories"@,
                ) == Some(e@) && final(self)@ == old(self)@,
            },
    {
        let a = require_actor(actor)?;
        let role = match self.get(owner, name) {
            Some(repo) => lookup_role(repo, a),
            None => return Err(api_error(ApiErrorKind::NotFound, "repository not found")),
        };
        let role = match role {
            Some(role) => role,
            None => return Err(
                api_error(ApiErrorKind::Forbidden, "actor has no role in this repository"),
            ),
        };
        if !role.can_admin() {
            return Err(api_error(ApiErrorKind::Forbidden, "only owners may delete repositories"));
        }
        match self.take(owner, name) {
            Some(repo) => Ok(repo),
            None => Err(api_error(ApiErrorKind::NotFound, "repository not found")),
        }
    }

    /// Puts back a repository that `delete_repo` took out.
    pub fn restore_repo(&mut self, repo: Repo)
        ensures
            final(self)@ == old(self)@.insert((repo@.owner, repo@.name), repo@),
    {
        self.put(repo);
    }

    /// `POST /api/repos/members`: an owner of `(owner, name)` gives
    /// `member_id` the role `role`. On success the repository as it now
    /// stands and the member's previous role are answered.
    pub fn add_member(
        &mut self,
        actor: Option<&str>,
        owner: &str,
        name: &str,
        member_id: String,
        role: RepoRole,
    ) -> (r: Result<MemberChange, ApiError>)
        ensures
            match r {
                Ok(change) => admin_denial(
                    old(self)@,
                    opt_actor(actor),
                    owner@,
                    name@,
                    "only owners may manage members"@,
                ) is None && change.previous == role_in(
                    old(self)@[(owner@, name@)].members,
                    member_id@,
                ) && change.repo@ == after_add_member(old(self)@[(owner@, name@)], member_id@, role)
                    && final(self)@ == old(self)@.insert((owner@, name@), change.repo@),
                Err(e) => admin_denial(
                    old(self)@,
                    opt_actor(actor),
                    owner@,
                    name@,
                    "only owners may manage members"@,
                ) == Some(e@) && final(self)@ == old(self)@,
            },
    {
        let a = require_actor(actor)?;
        let mut updated = match self.get(owner, name) {
            Some(repo) => {
                let role_of_actor = match lookup_role(repo, a) {
                    Some(r) => r,
                    None => return Err(
                        api_error(ApiErrorKind::Forbidden, "actor has no role in this repository"),
                    ),
                };
                if !role_of_actor.can_admin() {
                    return Err(api_error(ApiErrorKind::Forbidden, "only owners may manage members"));
                }
                repo.duplicate()
            },
            None => return Err(api_error(ApiErrorKind::NotFound, "repository not found")),
        };
        proof {
            self.lemma_keyed_by_owner_and_name((owner@, name@));
        }
        let previous = updated.members.insert(member_id, role);
        let snapshot = updated.duplicate();
        self.put(updated);
        Ok(MemberChange { repo: snapshot, previous })
    }

    /// Undoes `add_member` for `member_id` of `(owner, name)` should writing
    /// the catalog fail: the member gets back the role `previous`, or leaves
    /// the list where it had none. A repository that is gone is left alone.
    pub fn revert_member(&mut self, owner: &str, name: &str, member_id: &str, previous: Option<RepoRole>)
        ensures
            old(self)@.dom().contains((owner@, name@)) ==> final(self)@ == old(self)@.insert(
                (owner@, name@),
                after_revert_member(old(self)@[(owner@, name@)], member_id@, previous),
            ),
            !old(self)@.dom().contains((owner@, name@)) ==> final(self)@ == old(self)@,
    {
        let mut updated = match self.get(owner, name) {
            Some(repo) => repo.duplicate(),
            None => return ,
        };
        proof {
            self.lemma_keyed_by_owner_and_name((owner@, name@));
        }
        match previous {
            Some(p) => {
                updated.members.insert(member_id.to_owned(), p);
            },
            None => {
                updated.members.remove(member_id);
            },
        }
        self.put(updated);
    }

    /// `GET /{owner}/{repo}/info/refs`: whether `actor` may have the ref
    /// advertisement of `service` (`git-upload-pack` to read,
    /// `git-receive-pack` to write) for `(owner, name)`.
    pub fn authorize_info_refs(&self, actor: Option<&str>, owner: &str, name: &str, service: &str) -> (r:
        Result<(), ApiError>)
        ensures
            match r {
                Ok(_) => info_refs_denial(self@, opt_actor(actor), owner@, name@, service@) is None,
                Err(e) => info_refs_denial(self@, opt_actor(actor), owner@, name@, service@) == Some(
                    e@,
                ),
            },
    {
        proof {
            reveal_strlit("git-upload-pack");
            reveal_strlit("git-receive-pack");
            assert("git-upload-pack"@[4] != "git-receive-pack"@[4]);
        }
        let a = require_actor(actor)?;
        let repo = match self.get(owner, name) {
            Some(repo) => repo,
            None => return Err(api_error(ApiErrorKind::NotFound, "repository not found")),
        };
        let role = match lookup_role(repo, a) {
            Some(role) => role,
            None => return Err(
                api_error(ApiErrorKind::Forbidden, "actor has no role in this repository"),
            ),
        };
        let allowed = if str_equal(service, "git-upload-pack") {
            role.can_read()
        } else if str_equal(service, "git-receive-pack") {
            role.can_write()
        } else {
            return Err(
                api_error(
                    ApiErrorKind::InvalidRequest,
                    "service must be git-upload-pack or git-receive-pack",
                ),
            );
        };
        if !allowed {
            return Err(api_error(ApiErrorKind::Forbidden, "service access denied"));
        }
        Ok(())
    }

    /// `POST /{owner}/{repo}/git-upload-pack` and `.../git-receive-pack`,
    /// once the actor is known and the body was read: whether `actor` may run
    /// `service` on `(owner, name)`; a push must also pass the push policy.
    pub fn authorize_service_post(
        &self,
        actor: &str,
        owner: &str,
        name: &str,
        service: &str,
        body: &[u8],
    ) -> (r: Result<(), ApiError>)
        ensures
            match r {
                Ok(_) => service_post_denial(self@, actor@, owner@, name@, service@) is None,
                Err(e) => service_post_denial(self@, actor@, owner@, name@, service@) == Some(e@),
            },
    {
        let repo = match self.get(owner, name) {
            Some(repo) => repo,
            None => return Err(api_error(ApiErrorKind::NotFound, "repository not found")),
        };
        let role = match lookup_role(repo, actor) {
            Some(role) => role,
            None => return Err(
                api_error(ApiErrorKind::Forbidden, "actor has no role in this repository"),
            ),
        };
        let allowed = if str_equal(service, "git-upload-pack") {
            role.can_read()
        } else {
            role.can_write()
        };
        if !allowed {
            return Err(api_error(ApiErrorKind::Forbidden, "service access denied"));
        }
        if str_equal(service, "git-receive-pack") {
            if let Err(message) = enforce_push_policy(owner, name, actor, body) {
                return Err(api_error(ApiErrorKind::PolicyDenied, message));
            }
        }
        Ok(())
    }
}

/// The branch listing of `repo`: the stored ref snapshot (branches, default
/// branch) where there is one, else what the catalog holds.
pub fn branch_listing(repo: &Repo, stored: Option<(Vec<String>, String)>) -> (r: (Vec<String>, String))
    ensures
        match stored {
            Some(s) => r == s,
            None => texts(r.0@) == repo@.branches && r.1@ == repo@.default_branch,
        },
{
    match stored {
        Some(s) => s,
        None => (copy_strings(&repo.branches), repo.default_branch.clone()),
    }
}

/// The tag listing of `repo`: the stored tags where there is a snapshot,
/// else what the catalog holds.
pub fn tag_listing(repo: &Repo, stored: Option<Vec<String>>) -> (r: Vec<String>)
    ensures
        match stored {
            Some(s) => r == s,
            None => texts(r@) == repo@.tags,
        },
{
    match stored {
        Some(s) => s,
        None => copy_strings(&repo.tags),
    }
}

} // verus!

verus! {

/// A request without an actor is refused with `401 AuthRequired` by every
/// endpoint that names one, whatever the catalog holds.
pub proof fn lemma_actor_required(
    c: Map<(Seq<char>, Seq<char>), RepoView>,
    owner: Seq<char>,
    name: Seq<char>,
    service: Seq<char>,
    refusal: Seq<char>,
)
    ensures
        create_denial(c, None, owner, name) == Some(auth_required()),
        read_denial(c, None, owner, name) == Some(auth_required()),
        admin_denial(c, None, owner, name, refusal) == Some(auth_required()),
        info_refs_denial(c, None, owner, name, service) == Some(auth_required()),
        auth_required().0.spec_status() == 401,
{
}

/// A collaborator may fetch but not push: both the advertisement and the
/// service call of `git-receive-pack` are refused with `403`, while
/// `git-upload-pack` is allowed.
pub proof fn lemma_collaborator_cannot_push(
    c: Map<(Seq<char>, Seq<char>), RepoView>,
    actor: Seq<char>,
    owner: Seq<char>,
    name: Seq<char>,
)
    requires
        c.dom().contains((owner, name)),
        role_in(c[(owner, name)].members, actor) == Some(RepoRole::Collaborator),
    ensures
        service_post_denial(c, actor, owner, name, "git-receive-pack"@) == Some(
            (ApiErrorKind::Forbidden, "service access denied"@),
        ),
        info_refs_denial(c, Some(actor), owner, name, "git-receive-pack"@) == Some(
            (ApiErrorKind::Forbidden, "service access denied"@),
        ),
        service_post_denial(c, actor, owner, name, "git-upload-pack"@) is None,
        info_refs_denial(c, Some(actor), owner, name, "git-upload-pack"@) is None,
        ApiErrorKind::Forbidden.spec_status() == 403,
{
    reveal_strlit("git-upload-pack");
    reveal_strlit("git-receive-pack");
    assert("git-upload-pack"@[4] != "git-receive-pack"@[4]);
}

/// Owners and members may push and fetch.
pub proof fn lemma_writers_can_push(
    c: Map<(Seq<char>, Seq<char>), RepoView>,
    actor: Seq<char>,
    owner: Seq<char>,
    name: Seq<char>,
)
    requires
        c.dom().contains((owner, name)),
        role_in(c[(owner, name)].members, actor) == Some(RepoRole::Owner) || role_in(
            c[(owner, name)].members,
            actor,
        ) == Some(RepoRole::Member),
    ensures
        service_post_denial(c, actor, owner, name, "git-receive-pack"@) is None,
        service_post_denial(c, actor, owner, name, "git-upload-pack"@) is None,
        info_refs_denial(c, Some(actor), owner, name, "git-receive-pack"@) is None,
        info_refs_denial(c, Some(actor), owner, name, "git-upload-pack"@) is None,
{
}

/// Once `owner` has created a repository, `owner` may read and administer
/// it, and creating it again is refused with `409 AlreadyExists`.
pub proof fn lemma_created_repo_belongs_to_creator(
    c: Map<(Seq<char>, Seq<char>), RepoView>,
    owner: Seq<char>,
    name: Seq<char>,
    description: Option<Seq<char>>,
    refusal: Seq<char>,
)
    requires
        create_denial(c, Some(owner), owner, name) is None,
    ensures
        ({
            let after = c.insert((owner, name), new_repo_view(owner, name, description));
            &&& read_denial(after, Some(owner), owner, name) is None
            &&& admin_denial(after, Some(owner), owner, name, refusal) is None
            &&& create_denial(after, Some(owner), owner, name) == Some(
                (ApiErrorKind::AlreadyExists, "repository already exists"@),
            )
        }),
{
}

impl RepoCatalog {
    /// Putting back a deleted repository restores the catalog as it was.
    pub proof fn lemma_restore_undoes_delete(&self, key: (Seq<char>, Seq<char>))
        requires
            self@.dom().contains(key),
        ensures
            ({
                let removed = self@[key];
                self@.remove(key).insert((removed.owner, removed.name), removed) == self@
            }),
    {
        self.lemma_keyed_by_owner_and_name(key);
        assert(self@.remove(key).insert(key, self@[key]) =~= self@);
    }

    /// Reverting an added member with the role it had before restores the
    /// catalog as it was.
    pub proof fn lemma_revert_undoes_add_member(
        &self,
        key: (Seq<char>, Seq<char>),
        member: Seq<char>,
        role: RepoRole,
    )
        requires
            self@.dom().contains(key),
        ensures
            ({
                let v = self@[key];
                let added = self@.insert(key, after_add_member(v, member, role));
                let reverted = added.insert(
                    key,
                    after_revert_member(added[key], member, role_in(v.members, member)),
                );
                reverted == self@
            }),
    {
        let v = self@[key];
        let added = self@.insert(key, after_add_member(v, member, role));
        let back = after_revert_member(added[key], member, role_in(v.members, member));
        match role_in(v.members, member) {
            Some(p) => {
                assert(v.members.insert(member, role).insert(member, p) =~= v.members);
            },
            None => {
                assert(v.members.insert(member, role).remove(member) =~= v.members);
            },
        }
        assert(back == v);
        assert(added.insert(key, back) =~= self@);
    }
}

} // verus!

verus! {

/// Reading is open to every role: an actor holding any role in an existing
/// repository (owner, member or collaborator) is never refused a read, and
/// an actor is refused a read of an existing repository only for holding
/// no role in it.
pub proof fn lemma_every_role_may_read(
    c: Map<(Seq<char>, Seq<char>), RepoView>,
    actor: Seq<char>,
    owner: Seq<char>,
    name: Seq<char>,
)
    requires
        c.dom().contains((owner, name)),
    ensures
        role_in(c[(owner, name)].members, actor) is Some ==> read_denial(c, Some(actor), owner, name)
            is None,
        role_in(c[(owner, name)].members, actor) == Some(RepoRole::Collaborator) ==> read_denial(
            c,
            Some(actor),
            owner,
            name,
        ) is None,
        role_in(c[(owner, name)].members, actor) is None ==> read_denial(c, Some(actor), owner, name)
            == Some((ApiErrorKind::Forbidden, "actor has no role in this repository"@)),
{
}

/// Owner-only actions (deleting, managing members) are allowed to owners
/// alone: an actor with a role other than `Owner` is refused with `403`
/// and the action's own message, and an owner is not refused.
pub proof fn lemma_only_owners_administer(
    c: Map<(Seq<char>, Seq<char>), RepoView>,
    actor: Seq<char>,
    owner: Seq<char>,
    name: Seq<char>,
    refusal: Seq<char>,
)
    requires
        c.dom().contains((owner, name)),
    ensures
        role_in(c[(owner, name)].members, actor) == Some(RepoRole::Owner) ==> admin_denial(
            c,
            Some(actor),
            owner,
            name,
            refusal,
        ) is None,
        role_in(c[(owner, name)].members, actor) == Some(RepoRole::Member) ==> admin_denial(
            c,
            Some(actor),
            owner,
            name,
            refusal,
        ) == Some((ApiErrorKind::Forbidden, refusal)),
        role_in(c[(owner, name)].members, actor) == Some(RepoRole::Collaborator) ==> admin_denial(
            c,
            Some(actor),
            owner,
            name,
            refusal,
        ) == Some((ApiErrorKind::Forbidden, refusal)),
        admin_denial(c, Some(actor), owner, name, refusal) is None ==> role_in(
            c[(owner, name)].members,
            actor,
        ) == Some(RepoRole::Owner),
{
}

} // verus!
