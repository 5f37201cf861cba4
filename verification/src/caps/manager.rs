//! Capability manager: the kernel's authority for minting, verifying,
//! restricting and revoking capabilities.
//!
//! The registry is modelled as a map from raw identifier to capability
//! record. Every operation is specified as a function on that map.

use crate::caps::{CapError, CapId, Capability, Resource, Rights};
use std::collections::BTreeMap;
use vstd::prelude::*;

verus! {

/// The registry of all capabilities minted since boot, together with the
/// counter that the next identifier is taken from.
pub struct CapManager {
    caps: BTreeMap<u64, Capability>,
    next_id: u64,
}

/// What `verify` answers for capability `cap` on a registry.
pub open spec fn verify_spec(registry: Map<u64, Capability>, cap: u64, required: Rights) -> Result<
    (),
    CapError,
> {
    if !registry.contains_key(cap) {
        Err(CapError::NotFound)
    } else if registry[cap].revoked {
        Err(CapError::Revoked)
    } else if !registry[cap].rights.covers(required) {
        Err(CapError::PermissionDenied)
    } else {
        Ok(())
    }
}

/// Whether `parent` may be restricted to `new_rights`, and if not, why.
pub open spec fn restrict_check(
    registry: Map<u64, Capability>,
    parent: u64,
    new_rights: Rights,
) -> Result<(), CapError> {
    if !registry.contains_key(parent) {
        Err(CapError::NotFound)
    } else if registry[parent].revoked {
        Err(CapError::Revoked)
    } else if !registry[parent].delegatable {
        Err(CapError::NotDelegatable)
    } else if !registry[parent].rights.covers(new_rights) {
        Err(CapError::CannotEscalate)
    } else {
        Ok(())
    }
}

/// What `describe` answers for capability `cap` on a registry.
pub open spec fn describe_spec(registry: Map<u64, Capability>, cap: u64) -> Result<
    (Resource, Rights),
    CapError,
> {
    if registry.contains_key(cap) {
        Ok((registry[cap].resource, registry[cap].rights))
    } else {
        Err(CapError::NotFound)
    }
}

/// The record that `mint` stores under identifier `id`.
pub open spec fn minted(id: CapId, resource: Resource, rights: Rights, delegatable: bool)
    -> Capability {
    Capability { id, resource, rights, delegatable, revoked: false }
}

/// The record that `restrict` stores for the child `id` of `parent`.
pub open spec fn restricted(id: CapId, parent: Capability, new_rights: Rights) -> Capability {
    Capability {
        id,
        resource: parent.resource,
        rights: new_rights,
        delegatable: parent.delegatable,
        revoked: false,
    }
}

/// The record `cap` after revocation.
pub open spec fn revoked(cap: Capability) -> Capability {
    Capability { revoked: true, ..cap }
}

/// `after` is a registry that `before` can turn into: no capability is ever
/// forgotten, none changes its identity, resource, rights or delegatability,
/// and none that was revoked comes back.
pub open spec fn evolves(before: Map<u64, Capability>, after: Map<u64, Capability>) -> bool {
    forall|k: u64| #[trigger]
        before.contains_key(k) ==> {
            &&& after.contains_key(k)
            &&& after[k].id == before[k].id
            &&& after[k].resource == before[k].resource
            &&& after[k].rights == before[k].rights
            &&& after[k].delegatable == before[k].delegatable
            &&& before[k].revoked ==> after[k].revoked
        }
}

impl View for CapManager {
    type V = Map<u64, Capability>;

    /// The registry: raw identifier to capability record.
    closed spec fn view(&self) -> Map<u64, Capability> {
        self.caps@
    }
}

impl CapManager {
    /// The raw identifier that the next minted capability gets.
    pub closed spec fn next_id(&self) -> u64 {
        self.next_id
    }

    /// Identifiers start at 1, every registered identifier was handed out
    /// before, and each record is stored under its own identifier.
    pub open spec fn wf(&self) -> bool {
        &&& self.next_id() >= 1
        &&& forall|k: u64| #[trigger]
            self@.contains_key(k) ==> 1 <= k < self.next_id() && self@[k].id@ == k
    }

    /// Whether the identifier counter can still hand out a fresh identifier.
    pub open spec fn has_room(&self) -> bool {
        self.next_id() < u64::MAX
    }

    /// An empty registry whose first identifier will be 1.
    pub fn new() -> (mgr: CapManager)
        ensures
            mgr@ == Map::<u64, Capability>::empty(),
            mgr.next_id() == 1,
            mgr.wf(),
    {
        CapManager { caps: BTreeMap::new(), next_id: 1 }
    }

    /// Whether a further capability can be minted.
    pub fn can_mint(&self) -> (b: bool)
        ensures
            b == self.has_room(),
    {
        self.next_id < u64::MAX
    }

    /// Number of capabilities in the registry, revoked ones included.
    pub fn len(&self) -> (n: usize)
        ensures
            n == self@.len(),
    {
        self.caps.len()
    }
}

/// Mint a new capability (kernel-only operation: no authority is checked).
///
/// The identifier is fresh, and the registry gains exactly one record.
pub fn mint(mgr: &mut CapManager, resource: Resource, rights: Rights, delegatable: bool) -> (id:
    CapId)
    requires
        old(mgr).wf(),
        old(mgr).has_room(),
    ensures
        id@ == old(mgr).next_id(),
        !old(mgr)@.contains_key(id@),
        final(mgr)@ == old(mgr)@.insert(id@, minted(id, resource, rights, delegatable)),
        final(mgr).next_id() == old(mgr).next_id() + 1,
        final(mgr).wf(),
        evolves(old(mgr)@, final(mgr)@),
{
    let id = CapId::from_raw(mgr.next_id);
    let cap = Capability { id, resource, rights, delegatable, revoked: false };
    mgr.caps.insert(mgr.next_id, cap);
    mgr.next_id = mgr.next_id + 1;
    id
}

/// Verify that a capability grants the required rights.
///
/// Succeeds iff the capability is present, not revoked, and its rights cover
/// `required`. The registry is not changed.
pub fn verify(mgr: &CapManager, cap_id: CapId, required: Rights) -> (res: Result<(), CapError>)
    ensures
        res == verify_spec(mgr@, cap_id@, required),
{
    match mgr.caps.get(&cap_id.raw()) {
        None => Err(CapError::NotFound),
        Some(cap) => {
            if cap.revoked {
                Err(CapError::Revoked)
            } else if !cap.rights.contains(required) {
                Err(CapError::PermissionDenied)
            } else {
                Ok(())
            }
        },
    }
}

/// Create a restricted child capability whose rights are a subset of the
/// parent's.
///
/// Fails, in this order, with `NotFound`, `Revoked`, `NotDelegatable` or
/// `CannotEscalate`, and then leaves the registry as it was. On success the
/// child is fresh, shares the parent's resource, inherits its
/// delegatability, and holds exactly `new_rights`.
pub fn restrict(mgr: &mut CapManager, parent_id: CapId, new_rights: Rights) -> (res: Result<
    CapId,
    CapError,
>)
    requires
        old(mgr).wf(),
        restrict_check(old(mgr)@, parent_id@, new_rights) is Ok ==> old(mgr).has_room(),
    ensures
        match restrict_check(old(mgr)@, parent_id@, new_rights) {
            Err(e) => {
                &&& res == Err::<CapId, CapError>(e)
                &&& final(mgr)@ == old(mgr)@
                &&& final(mgr).next_id() == old(mgr).next_id()
            },
            Ok(_) => {
                &&& res is Ok
                &&& res->Ok_0@ == old(mgr).next_id()
                &&& !old(mgr)@.contains_key(res->Ok_0@)
                &&& final(mgr)@ == old(mgr)@.insert(
                    res->Ok_0@,
                    restricted(res->Ok_0, old(mgr)@[parent_id@], new_rights),
                )
                &&& final(mgr).next_id() == old(mgr).next_id() + 1
                &&& final(mgr)@[parent_id@].rights.covers(final(mgr)@[res->Ok_0@].rights)
            },
        },
        final(mgr).wf(),
        evolves(old(mgr)@, final(mgr)@),
{
    let parent = match mgr.caps.get(&parent_id.raw()) {
        None => {
            return Err(CapError::NotFound);
        },
        Some(cap) => *cap,
    };
    if parent.revoked {
        return Err(CapError::Revoked);
    }
    if !parent.delegatable {
        return Err(CapError::NotDelegatable);
    }
    if !parent.rights.contains(new_rights) {
        return Err(CapError::CannotEscalate);
    }
    let child_id = CapId::from_raw(mgr.next_id);
    let child = Capability {
        id: child_id,
        resource: parent.resource,
        rights: new_rights,
        delegatable: parent.delegatable,
        revoked: false,
    };
    mgr.caps.insert(mgr.next_id, child);
    mgr.next_id = mgr.next_id + 1;
    Ok(child_id)
}

/// Revoke a capability: mark it invalid. Capabilities derived from it are
/// not touched.
pub fn revoke(mgr: &mut CapManager, cap_id: CapId) -> (res: Result<(), CapError>)
    ensures
        !old(mgr)@.contains_key(cap_id@) ==> res == Err::<(), CapError>(CapError::NotFound)
            && final(mgr)@ == old(mgr)@,
        old(mgr)@.contains_key(cap_id@) ==> res == Ok::<(), CapError>(()) && final(mgr)@ == old(
            mgr,
        )@.insert(cap_id@, revoked(old(mgr)@[cap_id@])),
        final(mgr).next_id() == old(mgr).next_id(),
        old(mgr).wf() ==> final(mgr).wf(),
        evolves(old(mgr)@, final(mgr)@),
{
    let key = cap_id.raw();
    let cap = match mgr.caps.get(&key) {
        None => {
            return Err(CapError::NotFound);
        },
        Some(cap) => *cap,
    };
    let marked = Capability {
        id: cap.id,
        resource: cap.resource,
        rights: cap.rights,
        delegatable: cap.delegatable,
        revoked: true,
    };
    mgr.caps.insert(key, marked);
    Ok(())
}

/// The resource and the current rights of a capability (for logging).
pub fn describe(mgr: &CapManager, cap_id: CapId) -> (res: Result<(Resource, Rights), CapError>)
    ensures
        res == describe_spec(mgr@, cap_id@),
{
    match mgr.caps.get(&cap_id.raw()) {
        None => Err(CapError::NotFound),
        Some(cap) => Ok((cap.resource, cap.rights)),
    }
}

/// A registry evolves into itself.
pub proof fn lemma_evolves_reflexive(a: Map<u64, Capability>)
    ensures
        evolves(a, a),
{
}

/// Evolutions compose: whatever sequence of operations leads from `a` to
/// `c`, no capability of `a` is lost, changed or un-revoked in `c`.
pub proof fn lemma_evolves_transitive(
    a: Map<u64, Capability>,
    b: Map<u64, Capability>,
    c: Map<u64, Capability>,
)
    requires
        evolves(a, b),
        evolves(b, c),
    ensures
        evolves(a, c),
{
    assert forall|k: u64| #[trigger] a.contains_key(k) implies {
        &&& c.contains_key(k)
        &&& c[k].id == a[k].id
        &&& c[k].resource == a[k].resource
        &&& c[k].rights == a[k].rights
        &&& c[k].delegatable == a[k].delegatable
        &&& a[k].revoked ==> c[k].revoked
    } by {
        assert(b.contains_key(k));
    }
}

/// Capability monotonicity: the child that a successful restriction adds
/// holds a subset of its parent's rights, at once and in every registry
/// that the result evolves into.
pub proof fn lemma_restriction_is_monotone(
    before: Map<u64, Capability>,
    parent: u64,
    child: CapId,
    new_rights: Rights,
    later: Map<u64, Capability>,
)
    requires
        restrict_check(before, parent, new_rights) is Ok,
        !before.contains_key(child@),
        evolves(before.insert(child@, restricted(child, before[parent], new_rights)), later),
    ensures
        before[parent].rights.covers(new_rights),
        later.contains_key(parent),
        later.contains_key(child@),
        later[child@].rights == new_rights,
        later[parent].rights.covers(later[child@].rights),
        describe_spec(later, child@) == Ok::<(Resource, Rights), CapError>(
            (before[parent].resource, new_rights),
        ),
        describe_spec(later, parent) == describe_spec(before, parent),
{
    let after = before.insert(child@, restricted(child, before[parent], new_rights));
    assert(after.contains_key(parent));
    assert(after.contains_key(child@));
}

/// A restriction that asks for a right the parent lacks is refused with
/// `CannotEscalate`, provided the parent is registered, not revoked and
/// delegatable (each of those is reported first).
pub proof fn lemma_escalation_is_refused(
    registry: Map<u64, Capability>,
    parent: u64,
    new_rights: Rights,
)
    requires
        registry.contains_key(parent),
        !registry[parent].revoked,
        registry[parent].delegatable,
        !registry[parent].rights.covers(new_rights),
    ensures
        restrict_check(registry, parent, new_rights) == Err::<(), CapError>(
            CapError::CannotEscalate,
        ),
{
}

/// Along a chain of capabilities in which each covers the next, every
/// capability covers all that come after it.
pub proof fn lemma_restriction_chain(
    registry: Map<u64, Capability>,
    chain: Seq<u64>,
    i: int,
    j: int,
)
    requires
        forall|n: int|
            0 <= n < chain.len() - 1 ==> registry[#[trigger] chain[n]].rights.covers(
                registry[chain[n + 1]].rights,
            ),
        0 <= i <= j < chain.len(),
    ensures
        registry[chain[i]].rights.covers(registry[chain[j]].rights),
    decreases j - i,
{
    if i == j {
        Rights::lemma_covers_reflexive(registry[chain[i]].rights);
    } else {
        lemma_restriction_chain(registry, chain, i, j - 1);
        let _ = chain[j - 1];
        Rights::lemma_covers_transitive(
            registry[chain[i]].rights,
            registry[chain[j - 1]].rights,
            registry[chain[j]].rights,
        );
    }
}

/// Revocation stickiness: once a capability is revoked, `verify` answers
/// `Revoked` for it, whatever right is asked for and whatever the registry
/// evolves into afterwards.
pub proof fn lemma_revocation_sticks(
    before: Map<u64, Capability>,
    cap: u64,
    later: Map<u64, Capability>,
    required: Rights,
)
    requires
        before.contains_key(cap),
        evolves(before.insert(cap, revoked(before[cap])), later),
    ensures
        verify_spec(later, cap, required) == Err::<(), CapError>(CapError::Revoked),
{
    let after = before.insert(cap, revoked(before[cap]));
    assert(after.contains_key(cap));
}

/// A capability that was just minted or restricted is never answered with
/// `Revoked`.
pub proof fn lemma_fresh_is_not_revoked(
    before: Map<u64, Capability>,
    id: CapId,
    resource: Resource,
    rights: Rights,
    delegatable: bool,
    required: Rights,
)
    ensures
        verify_spec(
            before.insert(id@, minted(id, resource, rights, delegatable)),
            id@,
            required,
        ) != Err::<(), CapError>(CapError::Revoked),
        before.contains_key(id@) ==> verify_spec(
            before.insert(id@, restricted(id, before[id@], rights)),
            id@,
            required,
        ) != Err::<(), CapError>(CapError::Revoked),
{
}

/// Only its own revocation revokes a capability. What `mint`, `restrict`
/// and `revoke` leave behind is the registry with one record stored under
/// one identifier; a capability registered under another identifier, be it
/// the parent or a child of the one concerned, keeps its record, and with
/// it every answer of `verify` and `describe`.
pub proof fn lemma_other_records_are_kept(
    before: Map<u64, Capability>,
    cap: u64,
    other: u64,
    record: Capability,
    required: Rights,
)
    requires
        before.contains_key(cap),
        other != cap,
    ensures
        before.insert(other, record)[cap] == before[cap],
        verify_spec(before.insert(other, record), cap, required) == verify_spec(
            before,
            cap,
            required,
        ),
        describe_spec(before.insert(other, record), cap) == describe_spec(before, cap),
{
}

/// A capability that was minted or restricted, and has not been revoked
/// since, is never answered with `Revoked`, whatever else the registry has
/// evolved into: `verify` answers by its rights alone, `Ok` if they cover
/// what is asked and `PermissionDenied` if not.
pub proof fn lemma_unrevoked_is_judged_by_rights(
    before: Map<u64, Capability>,
    later: Map<u64, Capability>,
    cap: u64,
    required: Rights,
)
    requires
        before.contains_key(cap),
        evolves(before, later),
        !later[cap].revoked,
    ensures
        verify_spec(later, cap, required) == if before[cap].rights.covers(required) {
            Ok::<(), CapError>(())
        } else {
            Err::<(), CapError>(CapError::PermissionDenied)
        },
{
}

/// No ambient authority: `verify` succeeds only for a capability that is
/// registered, not revoked, and covers what is asked. An identifier that
/// the registry does not know is answered with `NotFound`, and a
/// capability without rights is answered with `PermissionDenied` for every
/// non-empty demand.
pub proof fn lemma_no_ambient_authority(
    registry: Map<u64, Capability>,
    cap: u64,
    required: Rights,
)
    ensures
        verify_spec(registry, cap, required) is Ok <==> registry.contains_key(cap)
            && !registry[cap].revoked && registry[cap].rights.covers(required),
        !registry.contains_key(cap) ==> verify_spec(registry, cap, required) == Err::<
            (),
            CapError,
        >(CapError::NotFound),
        registry.contains_key(cap) && !registry[cap].revoked && registry[cap].rights.bits == 0
            && required.bits != 0 ==> verify_spec(registry, cap, required) == Err::<
            (),
            CapError,
        >(CapError::PermissionDenied),
{
    Rights::lemma_empty_is_least(required);
}

} // verus!
