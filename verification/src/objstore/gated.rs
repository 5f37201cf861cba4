//! Capability-gated object store access.
//!
//! Every store operation first asks the capability manager whether the
//! presented capability grants the right it needs: WRITE to create, READ to
//! read and to query, DELETE to delete. Without it the store is not
//! touched.

use crate::caps::manager::{verify, verify_spec, CapManager};
use crate::caps::{CapError, CapId, Capability, Rights};
use crate::objstore::store::{self, raw_ids, ObjectStore};
use crate::objstore::{ObjError, ObjId, Object};
use vstd::prelude::*;

verus! {

/// Error from a gated store operation: either the capability layer or the
/// store layer refused.
#[derive(Debug, Clone, Copy, PartialEq, Eq, Structural)]
pub enum GatedError {
    Cap(CapError),
    Store(ObjError),
}

impl GatedError {
    /// The words that describe the error: those of the layer that refused.
    pub open spec fn message_spec(self) -> Seq<char> {
        match self {
            GatedError::Cap(e) => e.message_spec(),
            GatedError::Store(e) => e.message_spec(),
        }
    }

    /// Human-readable description of the error.
    pub fn message(&self) -> (s: &'static str)
        ensures
            s@ == self.message_spec(),
    {
        match self {
            GatedError::Cap(e) => e.message(),
            GatedError::Store(e) => e.message(),
        }
    }
}

impl From<CapError> for GatedError {
    fn from(e: CapError) -> (err: GatedError) {
        GatedError::Cap(e)
    }
}

impl vstd::std_specs::convert::FromSpecImpl<CapError> for GatedError {
    open spec fn obeys_from_spec() -> bool {
        true
    }

    open spec fn from_spec(e: CapError) -> GatedError {
        GatedError::Cap(e)
    }
}

impl From<ObjError> for GatedError {
    fn from(e: ObjError) -> (err: GatedError) {
        GatedError::Store(e)
    }
}

impl vstd::std_specs::convert::FromSpecImpl<ObjError> for GatedError {
    open spec fn obeys_from_spec() -> bool {
        true
    }

    open spec fn from_spec(e: ObjError) -> GatedError {
        GatedError::Store(e)
    }
}

/// The set {WRITE}, which `create` asks for.
pub open spec fn write_right() -> Rights {
    Rights { bits: Rights::WRITE }
}

/// The set {READ}, which `read` and `query_by_tag` ask for.
pub open spec fn read_right() -> Rights {
    Rights { bits: Rights::READ }
}

/// The set {DELETE}, which `delete` asks for.
pub open spec fn delete_right() -> Rights {
    Rights { bits: Rights::DELETE }
}

/// The answer of the store layer inside a gated answer, if the store was
/// asked at all.
pub open spec fn store_answer<T>(res: Result<T, GatedError>) -> Option<Result<T, ObjError>> {
    match res {
        Ok(value) => Some(Ok(value)),
        Err(GatedError::Store(e)) => Some(Err(e)),
        Err(GatedError::Cap(_)) => None,
    }
}

/// The error of the capability layer inside a gated answer, if that layer
/// refused.
pub open spec fn cap_refusal<T>(res: Result<T, GatedError>) -> Option<CapError> {
    match res {
        Err(GatedError::Cap(e)) => Some(e),
        _ => None,
    }
}

/// Create an object (requires a capability with the WRITE right).
pub fn create(mgr: &CapManager, store: &mut ObjectStore, cap_id: CapId, obj: Object) -> (res:
    Result<ObjId, GatedError>)
    requires
        old(store).wf(),
    ensures
        match verify_spec(mgr@, cap_id@, write_right()) {
            Err(e) => cap_refusal(res) == Some(e) && final(store).same_contents(old(store)),
            Ok(_) => store_answer(res) is Some && final(store).create_spec(
                old(store),
                obj,
                store_answer(res)->Some_0,
            ),
        },
        final(store).wf(),
        old(store).content_addressed() && obj@.content_addressed()
            ==> final(store).content_addressed(),
{
    match verify(mgr, cap_id, Rights::write()) {
        Err(e) => Err(GatedError::Cap(e)),
        Ok(_) => match store::create(store, obj) {
            Ok(id) => Ok(id),
            Err(e) => Err(GatedError::Store(e)),
        },
    }
}

/// Read an object (requires a capability with the READ right).
pub fn read(mgr: &CapManager, store: &ObjectStore, cap_id: CapId, obj_id: ObjId) -> (res: Result<
    Object,
    GatedError,
>)
    ensures
        match verify_spec(mgr@, cap_id@, read_right()) {
            Err(e) => cap_refusal(res) == Some(e),
            Ok(_) => store_answer(res) is Some && store.read_spec(
                obj_id@,
                store_answer(res)->Some_0,
            ),
        },
{
    match verify(mgr, cap_id, Rights::read()) {
        Err(e) => Err(GatedError::Cap(e)),
        Ok(_) => match store::read(store, obj_id) {
            Ok(obj) => Ok(obj),
            Err(e) => Err(GatedError::Store(e)),
        },
    }
}

/// Query by tag (requires a capability with the READ right).
pub fn query_by_tag(mgr: &CapManager, store: &ObjectStore, cap_id: CapId, tag: &str) -> (res:
    Result<Vec<ObjId>, GatedError>)
    ensures
        match verify_spec(mgr@, cap_id@, read_right()) {
            Err(e) => cap_refusal(res) == Some(e),
            Ok(_) => res matches Ok(ids) && raw_ids(ids@) == store.tagged(tag@),
        },
{
    match verify(mgr, cap_id, Rights::read()) {
        Err(e) => Err(GatedError::Cap(e)),
        Ok(_) => Ok(store::query_by_tag(store, tag)),
    }
}

/// Delete an object (requires a capability with the DELETE right).
pub fn delete(mgr: &CapManager, store: &mut ObjectStore, cap_id: CapId, obj_id: ObjId) -> (res:
    Result<(), GatedError>)
    requires
        old(store).wf(),
    ensures
        match verify_spec(mgr@, cap_id@, delete_right()) {
            Err(e) => cap_refusal(res) == Some(e) && final(store).same_contents(old(store)),
            Ok(_) => store_answer(res) is Some && final(store).delete_spec(
                old(store),
                obj_id@,
                store_answer(res)->Some_0,
            ),
        },
        final(store).wf(),
        old(store).content_addressed() ==> final(store).content_addressed(),
{
    match verify(mgr, cap_id, Rights::delete()) {
        Err(e) => Err(GatedError::Cap(e)),
        Ok(_) => match store::delete(store, obj_id) {
            Ok(_) => Ok(()),
            Err(e) => Err(GatedError::Store(e)),
        },
    }
}

/// No ambient authority: a gated operation reaches the store only if the
/// presented capability is registered, not revoked, and covers the right
/// the operation needs. In every other case the answer is the capability
/// layer's error; in particular an identifier that the manager never
/// handed out is answered with `NotFound`, and a capability that lacks the
/// right with `PermissionDenied`.
pub proof fn lemma_gate_needs_capability<T>(
    registry: Map<u64, Capability>,
    cap: u64,
    needed: Rights,
    res: Result<T, GatedError>,
)
    requires
        match verify_spec(registry, cap, needed) {
            Err(e) => cap_refusal(res) == Some(e),
            Ok(_) => store_answer(res) is Some,
        },
    ensures
        store_answer(res) is Some <==> registry.contains_key(cap) && !registry[cap].revoked
            && registry[cap].rights.covers(needed),
        !registry.contains_key(cap) ==> cap_refusal(res) == Some(CapError::NotFound),
        registry.contains_key(cap) && !registry[cap].revoked && !registry[cap].rights.covers(
            needed,
        ) ==> cap_refusal(res) == Some(CapError::PermissionDenied),
{
}

} // verus!
