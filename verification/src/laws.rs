use vstd::prelude::*;
use crate::errors::ErrorKind;
use crate::ops::{
    lease_create_rejection, lease_payload_valid, maintenance_create_rejection,
    maintenance_payload_valid, registry_inv, RegistryV,
};
use crate::records::{LeaseAgreementPayloadV, LeaseAgreementV, MaintenanceRequestPayloadV,
    MaintenanceRequestV, PropertyV};

verus! {

// ---------------------------------------------------------------------------
// Freshly created records land in their table under a fresh id.
//
// Each creation operation ensures that the returned record's id equals the
// allocator's prior value and that its table becomes the prior table plus
// that record. These laws state what follows: the record is afterwards
// listed under its id, and that id is strictly greater than every id
// allocated before, in any of the three tables.
// ---------------------------------------------------------------------------

/// A property just created is stored under its id, which is strictly greater
/// than every previously allocated id.
pub proof fn lemma_create_property_listed(pre: RegistryV, post: RegistryV, rec: PropertyV)
    requires
        registry_inv(pre),
        rec.id == pre.next_id,
        post.properties == pre.properties.insert(rec.id, rec),
    ensures
        post.properties.contains_key(rec.id),
        post.properties[rec.id] == rec,
        forall|k: u64| #[trigger] pre.properties.contains_key(k) ==> k < rec.id,
        forall|k: u64| #[trigger] pre.leases.contains_key(k) ==> k < rec.id,
        forall|k: u64| #[trigger] pre.maintenance.contains_key(k) ==> k < rec.id,
{
}

/// A lease agreement just created is stored under its id, which is strictly
/// greater than every previously allocated id.
pub proof fn lemma_create_lease_listed(pre: RegistryV, post: RegistryV, rec: LeaseAgreementV)
    requires
        registry_inv(pre),
        rec.id == pre.next_id,
        post.leases == pre.leases.insert(rec.id, rec),
    ensures
        post.leases.contains_key(rec.id),
        post.leases[rec.id] == rec,
        forall|k: u64| #[trigger] pre.properties.contains_key(k) ==> k < rec.id,
        forall|k: u64| #[trigger] pre.leases.contains_key(k) ==> k < rec.id,
        forall|k: u64| #[trigger] pre.maintenance.contains_key(k) ==> k < rec.id,
{
}

/// A maintenance request just created is stored under its id, which is
/// strictly greater than every previously allocated id.
pub proof fn lemma_create_maintenance_listed(
    pre: RegistryV,
    post: RegistryV,
    rec: MaintenanceRequestV,
)
    requires
        registry_inv(pre),
        rec.id == pre.next_id,
        post.maintenance == pre.maintenance.insert(rec.id, rec),
    ensures
        post.maintenance.contains_key(rec.id),
        post.maintenance[rec.id] == rec,
        forall|k: u64| #[trigger] pre.properties.contains_key(k) ==> k < rec.id,
        forall|k: u64| #[trigger] pre.leases.contains_key(k) ==> k < rec.id,
        forall|k: u64| #[trigger] pre.maintenance.contains_key(k) ==> k < rec.id,
{
}

// ---------------------------------------------------------------------------
// Updates replace the caller-settable fields and nothing else.
//
// Each update operation ensures the new record carries the target id, the
// old creation time, and the payload's fields, and that its table becomes
// the prior table with that record written. These laws state what a
// following get or list-all therefore shows: the new values under an
// unchanged id and creation time, with every other record untouched.
// ---------------------------------------------------------------------------

/// After updating a property, reads show the new record, with id and
/// creation time unchanged; all other ids are untouched.
pub proof fn lemma_update_property_read_back(
    pre: RegistryV,
    post: RegistryV,
    id: u64,
    rec: PropertyV,
)
    requires
        registry_inv(pre),
        pre.properties.contains_key(id),
        rec.id == id,
        rec.created_at == pre.properties[id].created_at,
        post.properties == pre.properties.insert(id, rec),
    ensures
        post.properties.contains_key(id),
        post.properties[id] == rec,
        post.properties[id].id == pre.properties[id].id,
        post.properties[id].created_at == pre.properties[id].created_at,
        forall|k: u64| #[trigger] post.properties.contains_key(k) <==> pre.properties.contains_key(k) || k == id,
        forall|k: u64|
            k != id && #[trigger] pre.properties.contains_key(k) ==> post.properties[k]
                == pre.properties[k],
{
}

/// After updating a lease agreement, reads show the new record, with id and
/// creation time unchanged; all other ids are untouched.
pub proof fn lemma_update_lease_read_back(
    pre: RegistryV,
    post: RegistryV,
    id: u64,
    rec: LeaseAgreementV,
)
    requires
        registry_inv(pre),
        pre.leases.contains_key(id),
        rec.id == id,
        rec.created_at == pre.leases[id].created_at,
        post.leases == pre.leases.insert(id, rec),
    ensures
        post.leases.contains_key(id),
        post.leases[id] == rec,
        post.leases[id].id == pre.leases[id].id,
        post.leases[id].created_at == pre.leases[id].created_at,
        forall|k: u64| #[trigger] post.leases.contains_key(k) <==> pre.leases.contains_key(k) || k == id,
        forall|k: u64|
            k != id && #[trigger] pre.leases.contains_key(k) ==> post.leases[k] == pre.leases[k],
{
}

/// After updating a maintenance request, reads show the new record, with id
/// and creation time unchanged; all other ids are untouched.
pub proof fn lemma_update_maintenance_read_back(
    pre: RegistryV,
    post: RegistryV,
    id: u64,
    rec: MaintenanceRequestV,
)
    requires
        registry_inv(pre),
        pre.maintenance.contains_key(id),
        rec.id == id,
        rec.created_at == pre.maintenance[id].created_at,
        post.maintenance == pre.maintenance.insert(id, rec),
    ensures
        post.maintenance.contains_key(id),
        post.maintenance[id] == rec,
        post.maintenance[id].id == pre.maintenance[id].id,
        post.maintenance[id].created_at == pre.maintenance[id].created_at,
        forall|k: u64| #[trigger] post.maintenance.contains_key(k) <==> pre.maintenance.contains_key(k) || k == id,
        forall|k: u64|
            k != id && #[trigger] pre.maintenance.contains_key(k) ==> post.maintenance[k]
                == pre.maintenance[k],
{
}

// ---------------------------------------------------------------------------
// Deletion leaves the id absent and every other record untouched.
//
// Each delete operation ensures its table becomes the prior table with the
// id removed. These laws state what follows: a get of that id afterwards
// finds nothing — so it reports NotFound — and a list-all omits exactly
// that id.
// ---------------------------------------------------------------------------

/// After deleting a property, its id is absent and every other id is
/// untouched.
pub proof fn lemma_delete_property_absent(pre: RegistryV, post: RegistryV, id: u64)
    requires
        post.properties == pre.properties.remove(id),
    ensures
        !post.properties.contains_key(id),
        forall|k: u64|
            k != id ==> (#[trigger] post.properties.contains_key(k) <==> pre.properties.contains_key(k)),
        forall|k: u64|
            k != id && #[trigger] pre.properties.contains_key(k) ==> post.properties[k]
                == pre.properties[k],
{
}

/// After deleting a lease agreement, its id is absent and every other id is
/// untouched.
pub proof fn lemma_delete_lease_absent(pre: RegistryV, post: RegistryV, id: u64)
    requires
        post.leases == pre.leases.remove(id),
    ensures
        !post.leases.contains_key(id),
        forall|k: u64| k != id ==> (#[trigger] post.leases.contains_key(k) <==> pre.leases.contains_key(k)),
        forall|k: u64|
            k != id && #[trigger] pre.leases.contains_key(k) ==> post.leases[k] == pre.leases[k],
{
}

/// After deleting a maintenance request, its id is absent and every other id
/// is untouched.
pub proof fn lemma_delete_maintenance_absent(pre: RegistryV, post: RegistryV, id: u64)
    requires
        post.maintenance == pre.maintenance.remove(id),
    ensures
        !post.maintenance.contains_key(id),
        forall|k: u64|
            k != id ==> (#[trigger] post.maintenance.contains_key(k) <==> pre.maintenance.contains_key(k)),
        forall|k: u64|
            k != id && #[trigger] pre.maintenance.contains_key(k) ==> post.maintenance[k]
                == pre.maintenance[k],
{
}

// ---------------------------------------------------------------------------
// A missing referenced property is rejected with NotFound.
//
// Validation runs before the existence check, so a payload that fails
// validation is rejected with ValidationError even when the referenced
// property is also missing. For every payload that passes validation, a
// missing property id is rejected with NotFound, whatever the other fields
// hold.
// ---------------------------------------------------------------------------

/// Creating a lease agreement against an absent property is rejected with
/// NotFound, for every payload that passes validation.
pub proof fn lemma_missing_property_rejects_lease(pre: RegistryV, p: LeaseAgreementPayloadV)
    requires
        lease_payload_valid(p),
        !pre.properties.contains_key(p.property_id),
    ensures
        lease_create_rejection(pre, p) == Some(ErrorKind::NotFound),
{
}

/// Creating a maintenance request against an absent property is rejected
/// with NotFound, for every payload that passes validation.
pub proof fn lemma_missing_property_rejects_maintenance(
    pre: RegistryV,
    p: MaintenanceRequestPayloadV,
)
    requires
        maintenance_payload_valid(p),
        !pre.properties.contains_key(p.property_id),
    ensures
        maintenance_create_rejection(pre, p) == Some(ErrorKind::NotFound),
{
}

} // verus!
