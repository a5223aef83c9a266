//! The tenants a page server looks after: which there are, what state each
//! is in, and what attaching, creating, detaching and shutting down do to
//! them.

use vstd::prelude::*;
use crate::strmap::StrMap;
use crate::text::{concat, owned};

verus! {

/// The state of a tenant.
#[derive(Clone, Copy, PartialEq, Eq, Structural, Debug)]
pub enum TenantState {
    /// Found on disk and being read in.
    Loading,
    /// Being fetched from remote storage.
    Attaching,
    /// Up and serving.
    Active,
    /// On its way down.
    Stopping,
    /// Unusable until someone looks at it.
    Broken,
}

/// How waiting for a tenant to become active ended.
pub enum WaitOutcome {
    Active,
    /// The wait itself failed. Holds the reason.
    Failed(String),
    TimedOut,
}

/// The tenants of one page server, by the text of their identifier, each
/// with the repository that holds its data.
pub struct Tenants<R> {
    repos: StrMap<R>,
    states: StrMap<TenantState>,
}

/// The state a tenant is in once shutdown has begun: a broken tenant stays
/// broken, every other is stopping.
pub open spec fn shutdown_state(s: TenantState) -> TenantState {
    if s == TenantState::Broken {
        TenantState::Broken
    } else {
        TenantState::Stopping
    }
}

/// The refusal given to an attach of a tenant that is there already, in
/// state `s`.
pub open spec fn attach_refusal_spec(id: Seq<char>, s: TenantState) -> Seq<char> {
    "tenant "@ + id + match s {
        TenantState::Loading => " already exists"@,
        TenantState::Active => " already exists"@,
        TenantState::Attaching => " attach is already in progress"@,
        TenantState::Stopping => " is being shut down"@,
        TenantState::Broken => " is marked as broken"@,
    }
}

pub open spec fn not_found_spec(id: Seq<char>) -> Seq<char> {
    "Tenant "@ + id + " not found"@
}

pub open spec fn wait_timeout_spec(id: Seq<char>) -> Seq<char> {
    "timeout waiting for tenant "@ + id + " to become active"@
}

/// The identifiers among the first `n` of `ids` whose tenant is not broken.
pub open spec fn stopping_upto(
    ids: Seq<Seq<char>>,
    states: Map<Seq<char>, TenantState>,
    n: nat,
) -> Seq<Seq<char>>
    decreases n,
{
    if n == 0 {
        Seq::empty()
    } else {
        let before = stopping_upto(ids, states, (n - 1) as nat);
        if states[ids[n - 1]] == TenantState::Broken {
            before
        } else {
            before.push(ids[n - 1])
        }
    }
}

pub open spec fn ids_view(ids: Seq<String>) -> Seq<Seq<char>> {
    Seq::new(ids.len(), |i: int| ids[i]@)
}

pub open spec fn listing_view(list: Seq<(String, TenantState)>) -> Seq<(Seq<char>, TenantState)> {
    Seq::new(list.len(), |i: int| (list[i].0@, list[i].1))
}

impl<R> Tenants<R> {
    /// The repository of each tenant.
    pub closed spec fn repos(&self) -> Map<Seq<char>, R> {
        self.repos@
    }

    /// The state of each tenant.
    pub closed spec fn states(&self) -> Map<Seq<char>, TenantState> {
        self.states@
    }

    /// The tenants in the order they came.
    pub closed spec fn ids(&self) -> Seq<Seq<char>> {
        self.repos.key_seq()
    }

    /// Every tenant has a repository and a state.
    pub closed spec fn wf(&self) -> bool {
        &&& self.repos.wf()
        &&& self.states.wf()
        &&& self.repos@.dom() == self.states@.dom()
    }

    /// The listing holds every tenant once.
    pub proof fn lemma_ids(&self)
        requires
            self.wf(),
        ensures
            self.repos().dom() == self.states().dom(),
            self.ids().no_duplicates(),
            forall|i: int| 0 <= i < self.ids().len() ==> self.states().contains_key(#[trigger] self.ids()[i]),
            forall|id: Seq<char>| self.states().contains_key(id) ==> self.ids().contains(id),
    {
        self.repos.lemma_listing();
        assert forall|id: Seq<char>| self.states().contains_key(id) implies self.ids().contains(
            id,
        ) by {
            assert(self.repos@.dom().contains(id));
        }
        assert forall|i: int| 0 <= i < self.ids().len() implies self.states().contains_key(
            #[trigger] self.ids()[i],
        ) by {
            assert(self.repos@.dom().contains(self.ids()[i]));
        }
    }

    pub fn new() -> (r: Tenants<R>)
        ensures
            r.wf(),
            r.repos() == Map::<Seq<char>, R>::empty(),
            r.states() == Map::<Seq<char>, TenantState>::empty(),
    {
        let r = Tenants { repos: StrMap::new(), states: StrMap::new() };
        assert(r.repos@.dom() =~= r.states@.dom());
        r
    }

    /// Puts a tenant in, in place of one of the same identifier.
    fn put(&mut self, id: &str, repo: R, state: TenantState)
        requires
            old(self).wf(),
        ensures
            final(self).wf(),
            final(self).repos() == old(self).repos().insert(id@, repo),
            final(self).states() == old(self).states().insert(id@, state),
            old(self).states().contains_key(id@) ==> final(self).ids() == old(self).ids(),
            !old(self).states().contains_key(id@) ==> final(self).ids() == old(self).ids().push(id@),
    {
        assert(old(self).repos@.dom().contains(id@) == old(self).states@.dom().contains(id@));
        let _a = self.repos.insert(id, repo);
        let _b = self.states.insert(id, state);
        assert(self.repos@.dom() =~= self.states@.dom());
    }

    /// Records the state that a tenant has moved to. Tells whether there
    /// is such a tenant.
    pub fn set_state(&mut self, id: &str, state: TenantState) -> (r: bool)
        requires
            old(self).wf(),
        ensures
            final(self).wf(),
            r == old(self).states().contains_key(id@),
            final(self).repos() == old(self).repos(),
            final(self).ids() == old(self).ids(),
            final(self).states() == if r {
                old(self).states().insert(id@, state)
            } else {
                old(self).states()
            },
    {
        if self.states.contains_key(id) {
            let _b = self.states.insert(id, state);
            assert(old(self).repos@.dom().contains(id@));
            assert(self.repos@.dom() =~= self.states@.dom());
            true
        } else {
            false
        }
    }
}

/// The states once the first `n` of `found` are taken in as loading.
pub open spec fn loaded_states<R>(
    states: Map<Seq<char>, TenantState>,
    found: Seq<(String, R)>,
    n: nat,
) -> Map<Seq<char>, TenantState>
    decreases n,
{
    if n == 0 {
        states
    } else {
        loaded_states(states, found, (n - 1) as nat).insert(found[n - 1].0@, TenantState::Loading)
    }
}

/// The repositories once the first `n` of `found` are taken in.
pub open spec fn loaded_repos<R>(repos: Map<Seq<char>, R>, found: Seq<(String, R)>, n: nat) -> Map<
    Seq<char>,
    R,
>
    decreases n,
{
    if n == 0 {
        repos
    } else {
        loaded_repos(repos, found, (n - 1) as nat).insert(found[n - 1].0@, found[n - 1].1)
    }
}

/// The listing once the first `n` of `found` are taken in: a tenant that
/// is new comes last, one that was there keeps its place.
pub open spec fn loaded_ids<R>(
    ids: Seq<Seq<char>>,
    states: Map<Seq<char>, TenantState>,
    found: Seq<(String, R)>,
    n: nat,
) -> Seq<Seq<char>>
    decreases n,
{
    if n == 0 {
        ids
    } else {
        let before = loaded_ids(ids, states, found, (n - 1) as nat);
        if loaded_states(states, found, (n - 1) as nat).contains_key(found[n - 1].0@) {
            before
        } else {
            before.push(found[n - 1].0@)
        }
    }
}

/// Takes in the tenants that were found on disk, one after the other, each
/// in state `Loading`. One that was there already is replaced.
pub fn init_tenant_mgr<R>(tenants: &mut Tenants<R>, found: Vec<(String, R)>)
    requires
        old(tenants).wf(),
    ensures
        final(tenants).wf(),
        final(tenants).states() == loaded_states(old(tenants).states(), found@, found@.len()),
        final(tenants).repos() == loaded_repos(old(tenants).repos(), found@, found@.len()),
        final(tenants).ids() == loaded_ids(
            old(tenants).ids(),
            old(tenants).states(),
            found@,
            found@.len(),
        ),
{
    let ghost all = found@;
    let mut rest = found;
    let mut k: usize = 0;
    let n = rest.len();
    while rest.len() > 0
        invariant
            tenants.wf(),
            k <= all.len() == n,
            rest@ == all.subrange(k as int, all.len() as int),
            tenants.states() == loaded_states(old(tenants).states(), all, k as nat),
            tenants.repos() == loaded_repos(old(tenants).repos(), all, k as nat),
            tenants.ids() == loaded_ids(old(tenants).ids(), old(tenants).states(), all, k as nat),
        decreases rest.len(),
    {
        assert(rest@[0] == all[k as int]);
        let (id, repo) = rest.remove(0);
        tenants.put(id.as_str(), repo, TenantState::Loading);
        k = k + 1;
        assert(rest@ =~= all.subrange(k as int, all.len() as int));
    }
}

/// Begins the shutdown: every tenant that is not broken is marked as
/// stopping. Returns those tenants, in the order they came; it is their
/// data that still has to be flushed.
pub fn shutdown_all_tenants<R>(tenants: &mut Tenants<R>) -> (r: Vec<String>)
    requires
        old(tenants).wf(),
    ensures
        final(tenants).wf(),
        final(tenants).repos() == old(tenants).repos(),
        final(tenants).ids() == old(tenants).ids(),
        final(tenants).states().dom() == old(tenants).states().dom(),
        forall|id: Seq<char>|
            old(tenants).states().contains_key(id) ==> final(tenants).states()[id]
                == shutdown_state(old(tenants).states()[id]),
        ids_view(r@) == stopping_upto(
            old(tenants).ids(),
            old(tenants).states(),
            old(tenants).ids().len(),
        ),
{
    let ghost ids = tenants.ids();
    let ghost before = tenants.states();
    let mut out: Vec<String> = Vec::new();
    let mut i: usize = 0;
    let n = tenants.repos.len();
    proof {
        tenants.lemma_ids();
        assert(ids_view(out@) =~= stopping_upto(ids, before, 0));
    }
    while i < n
        invariant
            tenants.wf(),
            tenants.repos() == old(tenants).repos(),
            tenants.ids() == ids,
            ids == old(tenants).ids(),
            before == old(tenants).states(),
            ids.no_duplicates(),
            n == ids.len(),
            i <= n,
            tenants.states().dom() == before.dom(),
            forall|id: Seq<char>| before.contains_key(id) ==> ids.contains(id),
            forall|j: int| 0 <= j < ids.len() ==> before.contains_key(#[trigger] ids[j]),
            forall|j: int| 0 <= j < i ==> tenants.states()[#[trigger] ids[j]] == shutdown_state(before[ids[j]]),
            forall|j: int| i <= j < ids.len() ==> tenants.states()[#[trigger] ids[j]] == before[ids[j]],
            ids_view(out@) == stopping_upto(ids, before, i as nat),
        decreases n - i,
    {
        let id = tenants.repos.key_at(i).clone();
        assert(id@ == ids[i as int]);
        assert(before.contains_key(ids[i as int]));
        let state = match tenants.states.get(id.as_str()) {
            Some(s) => *s,
            None => TenantState::Broken,
        };
        assert(state == before[ids[i as int]]);
        let ghost prev_out = out@;
        match state {
            TenantState::Broken => {},
            _ => {
                let ghost mid = tenants.states();
                let changed = tenants.set_state(id.as_str(), TenantState::Stopping);
                assert forall|j: int| 0 <= j < ids.len() && j != i implies tenants.states()[#[trigger] ids[j]]
                    == mid[ids[j]] by {
                    assert(ids[j] != ids[i as int]);
                }
                assert(tenants.states().dom() =~= before.dom());
                out.push(id);
                assert(ids_view(out@) =~= ids_view(prev_out).push(ids[i as int]));
            },
        }
        i = i + 1;
    }
    proof {
        assert forall|id: Seq<char>| before.contains_key(id) implies tenants.states()[id]
            == shutdown_state(before[id]) by {
            assert(ids.contains(id));
            let j = choose|j: int| 0 <= j < ids.len() && ids[j] == id;
            assert(tenants.states()[ids[j]] == shutdown_state(before[ids[j]]));
        }
    }
    out
}

/// Whether there is a tenant `tenant_id`.
pub fn tenant_exists<R>(tenants: &Tenants<R>, tenant_id: &str) -> (r: bool)
    requires
        tenants.wf(),
    ensures
        r == tenants.states().contains_key(tenant_id@),
{
    tenants.states.contains_key(tenant_id)
}

/// Takes in a tenant that was just created, in the state its repository
/// reports. Where there is a tenant of that identifier already nothing
/// changes and `None` is returned; otherwise the identifier is.
pub fn create_tenant<R>(tenants: &mut Tenants<R>, tenant_id: &str, repo: R, state: TenantState) -> (r:
    Option<String>)
    requires
        old(tenants).wf(),
    ensures
        final(tenants).wf(),
        r is None == old(tenants).states().contains_key(tenant_id@),
        r matches Some(id) ==> id@ == tenant_id@,
        r is None ==> final(tenants).repos() == old(tenants).repos() && final(tenants).states()
            == old(tenants).states() && final(tenants).ids() == old(tenants).ids(),
        r is Some ==> final(tenants).repos() == old(tenants).repos().insert(tenant_id@, repo)
            && final(tenants).states() == old(tenants).states().insert(tenant_id@, state) && final(tenants).ids() == old(tenants).ids().push(tenant_id@),
{
    if tenants.states.contains_key(tenant_id) {
        None
    } else {
        tenants.put(tenant_id, repo, state);
        Some(owned(tenant_id))
    }
}

/// The repository of tenant `tenant_id`, whatever state the tenant is in.
pub fn get_tenant<'a, R>(tenants: &'a Tenants<R>, tenant_id: &str) -> (r: Result<&'a R, String>)
    requires
        tenants.wf(),
    ensures
        match r {
            Ok(repo) => tenants.repos().contains_key(tenant_id@) && *repo == tenants.repos()[tenant_id@],
            Err(why) => !tenants.repos().contains_key(tenant_id@) && why@ == not_found_spec(
                tenant_id@,
            ),
        },
{
    match tenants.repos.get(tenant_id) {
        Some(repo) => Ok(repo),
        None => {
            let head = concat("Tenant ", tenant_id);
            Err(concat(head.as_str(), " not found"))
        },
    }
}

/// The repository whose configuration is to be updated.
pub fn update_tenant_config<'a, R>(tenants: &'a Tenants<R>, tenant_id: &str) -> (r: Result<
    &'a R,
    String,
>)
    requires
        tenants.wf(),
    ensures
        match r {
            Ok(repo) => tenants.repos().contains_key(tenant_id@) && *repo == tenants.repos()[tenant_id@],
            Err(why) => !tenants.repos().contains_key(tenant_id@) && why@ == not_found_spec(
                tenant_id@,
            ),
        },
{
    get_tenant(tenants, tenant_id)
}

/// The repository of tenant `tenant_id`, once the wait for it to become
/// active has ended as `wait` says.
pub fn get_active_tenant<'a, R>(tenants: &'a Tenants<R>, tenant_id: &str, wait: WaitOutcome) -> (r:
    Result<&'a R, String>)
    requires
        tenants.wf(),
    ensures
        match r {
            Ok(repo) => tenants.repos().contains_key(tenant_id@) && wait is Active && *repo
                == tenants.repos()[tenant_id@],
            Err(why) => if !tenants.repos().contains_key(tenant_id@) {
                why@ == not_found_spec(tenant_id@)
            } else {
                match wait {
                    WaitOutcome::Active => false,
                    WaitOutcome::Failed(reason) => why == reason,
                    WaitOutcome::TimedOut => why@ == wait_timeout_spec(tenant_id@),
                }
            },
        },
{
    match get_tenant(tenants, tenant_id) {
        Err(why) => Err(why),
        Ok(repo) => match wait {
            WaitOutcome::Active => Ok(repo),
            WaitOutcome::Failed(reason) => Err(reason),
            WaitOutcome::TimedOut => {
                let head = concat("timeout waiting for tenant ", tenant_id);
                Err(concat(head.as_str(), " to become active"))
            },
        },
    }
}

/// Settles a detach. A tenant whose detaching succeeded is forgotten and
/// its repository handed out; after a failure the tenant stays.
pub fn detach_tenant<R>(tenants: &mut Tenants<R>, tenant_id: &str, detached: bool) -> (r: Option<R>)
    requires
        old(tenants).wf(),
    ensures
        final(tenants).wf(),
        r is Some == (detached && old(tenants).repos().contains_key(tenant_id@)),
        r matches Some(repo) ==> repo == old(tenants).repos()[tenant_id@],
        final(tenants).repos() == if detached {
            old(tenants).repos().remove(tenant_id@)
        } else {
            old(tenants).repos()
        },
        final(tenants).states() == if detached {
            old(tenants).states().remove(tenant_id@)
        } else {
            old(tenants).states()
        },
        match r {
            Some(_) => exists|i: int|
                0 <= i < old(tenants).ids().len() && old(tenants).ids()[i] == tenant_id@ && final(tenants).ids() == #[trigger] old(tenants).ids().remove(i),
            None => final(tenants).ids() == old(tenants).ids(),
        },
{
    if detached {
        let ghost ids = tenants.ids();
        let repo = tenants.repos.remove(tenant_id);
        let _state = tenants.states.remove(tenant_id);
        proof {
            assert(tenants.repos@.dom() =~= tenants.states@.dom());
            if repo is Some {
                let i = choose|i: int|
                    0 <= i < ids.len() && ids[i] == tenant_id@ && tenants.repos.key_seq()
                        == #[trigger] ids.remove(i);
                assert(tenants.ids() == ids.remove(i));
            }
        }
        repo
    } else {
        None
    }
}

/// All tenants with their states, in the order they came.
pub fn list_tenants<R>(tenants: &Tenants<R>) -> (r: Vec<(String, TenantState)>)
    requires
        tenants.wf(),
    ensures
        r@.len() == tenants.ids().len(),
        forall|i: int|
            0 <= i < r@.len() ==> (#[trigger] r@[i]).0@ == tenants.ids()[i] && r@[i].1
                == tenants.states()[tenants.ids()[i]],
{
    let mut out: Vec<(String, TenantState)> = Vec::new();
    let n = tenants.repos.len();
    let mut i: usize = 0;
    proof {
        tenants.lemma_ids();
    }
    while i < n
        invariant
            tenants.wf(),
            n == tenants.ids().len(),
            i <= n,
            out@.len() == i,
            forall|j: int| 0 <= j < tenants.ids().len() ==> tenants.states().contains_key(#[trigger] tenants.ids()[j]),
            forall|j: int|
                0 <= j < i ==> (#[trigger] out@[j]).0@ == tenants.ids()[j] && out@[j].1
                    == tenants.states()[tenants.ids()[j]],
        decreases n - i,
    {
        let id = tenants.repos.key_at(i).clone();
        assert(tenants.states().contains_key(tenants.ids()[i as int]));
        let state = match tenants.states.get(id.as_str()) {
            Some(s) => *s,
            None => TenantState::Broken,
        };
        out.push((id, state));
        i = i + 1;
    }
    out
}

/// The refusal that an attach of `tenant_id` would meet, if there is a
/// tenant of that identifier already.
pub fn attach_refusal<R>(tenants: &Tenants<R>, tenant_id: &str) -> (r: Option<String>)
    requires
        tenants.wf(),
    ensures
        match r {
            Some(why) => tenants.states().contains_key(tenant_id@) && why@ == attach_refusal_spec(
                tenant_id@,
                tenants.states()[tenant_id@],
            ),
            None => !tenants.states().contains_key(tenant_id@),
        },
{
    match tenants.states.get(tenant_id) {
        None => None,
        Some(state) => {
            let head = concat("tenant ", tenant_id);
            let tail = match state {
                TenantState::Loading => " already exists",
                TenantState::Active => " already exists",
                TenantState::Attaching => " attach is already in progress",
                TenantState::Stopping => " is being shut down",
                TenantState::Broken => " is marked as broken",
            };
            Some(concat(head.as_str(), tail))
        },
    }
}

/// Takes in a tenant whose data is being fetched, in state `Attaching`. A
/// tenant that is there already cannot be attached: the pool of tenants
/// stays as it was and the refusal says what state that tenant is in.
pub fn attach_tenant<R>(tenants: &mut Tenants<R>, tenant_id: &str, repo: R) -> (r: Result<(), String>)
    requires
        old(tenants).wf(),
    ensures
        final(tenants).wf(),
        match r {
            Ok(_) => {
                &&& !old(tenants).states().contains_key(tenant_id@)
                &&& final(tenants).repos() == old(tenants).repos().insert(tenant_id@, repo)
                &&& final(tenants).states() == old(tenants).states().insert(
                    tenant_id@,
                    TenantState::Attaching,
                )
                &&& final(tenants).ids() == old(tenants).ids().push(tenant_id@)
            },
            Err(why) => {
                &&& old(tenants).states().contains_key(tenant_id@)
                &&& why@ == attach_refusal_spec(tenant_id@, old(tenants).states()[tenant_id@])
                &&& final(tenants).repos() == old(tenants).repos()
                &&& final(tenants).states() == old(tenants).states()
                &&& final(tenants).ids() == old(tenants).ids()
            },
        },
{
    match attach_refusal(tenants, tenant_id) {
        Some(why) => Err(why),
        None => {
            tenants.put(tenant_id, repo, TenantState::Attaching);
            Ok(())
        },
    }
}

} // verus!
